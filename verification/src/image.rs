//! The record kept for each file that a scan finds.

use crate::date::Date;
use crate::error::{error_view, AppError, AppErrorView, ParseCause};
use crate::path::{extension_of, file_name, file_name_of, split_file_name, text_of};
use vstd::prelude::*;

verus! {

/// How far a record has come. A record moves forward only: from `Pending` to
/// `Resolved`, `Collided` and `Moved`, or to `Failed`, where it stays.
#[derive(Clone, Copy, Debug, PartialEq, Eq, Structural)]
pub enum Status {
    /// Found; nothing is planned for it yet.
    Pending,
    /// It has a date and a target.
    Resolved,
    /// Its target name was taken, and it was given another.
    Collided,
    /// The file stands at its target.
    Moved,
    /// It was given up; `error` says why.
    Failed,
}

impl Status {
    /// The place of a status in the order of progress.
    pub open spec fn rank(self) -> int {
        match self {
            Status::Pending => 0,
            Status::Resolved => 1,
            Status::Collided => 2,
            Status::Moved => 3,
            Status::Failed => 4,
        }
    }
}

/// The source that gave a record its date.
#[derive(Clone, Copy, Debug, PartialEq, Eq, Structural)]
pub enum Tier {
    /// The capture time embedded in the file.
    Embedded,
    /// The creation time that the filesystem keeps.
    Created,
    /// The modification time that the filesystem keeps.
    Modified,
}

/// The dates known of one file, one for each tier.
#[derive(Clone, Copy, Debug, PartialEq, Eq, Structural)]
pub struct ImageDates {
    /// The date of the embedded capture time, where the file has one that parses.
    pub exif_date_time_original: Option<Date>,
    /// The date of creation, where the filesystem gave one.
    pub file_creation_date: Option<Date>,
    /// The date of the last modification, where the filesystem gave one.
    pub file_modified_date: Option<Date>,
}

/// The dates known of one file.
pub type Dates = ImageDates;

/// One file of a batch.
#[derive(Clone, Debug, PartialEq, Eq)]
pub struct Image {
    /// Where the file was found.
    pub source_path: String,
    /// The final component of `source_path`.
    pub source_filename: String,
    /// The extension of `source_filename`; empty where it has none.
    pub source_filetype: String,
    /// What is known of the file's dates.
    pub dates: ImageDates,
    /// Why the embedded capture time did not parse, where it did not.
    pub date_parse_error: Option<ParseCause>,
    /// The date chosen for the file.
    pub resolved_date: Option<Date>,
    /// The tier that gave `resolved_date`.
    pub tier: Option<Tier>,
    /// The directory that the file goes to; until one is planned, `source_path`.
    pub target_path: String,
    /// The stem of the name that the file gets.
    pub target_filename: Option<String>,
    /// The extension of the name that the file gets.
    pub target_filetype: Option<String>,
    /// How far the record has come.
    pub status: Status,
    /// Why the record failed.
    pub error: Option<AppError>,
}

/// An `Image` with its texts as sequences of characters.
pub struct ImageView {
    pub source_path: Seq<char>,
    pub source_filename: Seq<char>,
    pub source_filetype: Seq<char>,
    pub dates: ImageDates,
    pub date_parse_error: Option<ParseCause>,
    pub resolved_date: Option<Date>,
    pub tier: Option<Tier>,
    pub target_path: Seq<char>,
    pub target_filename: Option<Seq<char>>,
    pub target_filetype: Option<Seq<char>>,
    pub status: Status,
    pub error: Option<AppErrorView>,
}

impl View for Image {
    type V = ImageView;

    open spec fn view(&self) -> ImageView {
        ImageView {
            source_path: self.source_path@,
            source_filename: self.source_filename@,
            source_filetype: self.source_filetype@,
            dates: self.dates,
            date_parse_error: self.date_parse_error,
            resolved_date: self.resolved_date,
            tier: self.tier,
            target_path: self.target_path@,
            target_filename: text_of(self.target_filename),
            target_filetype: text_of(self.target_filetype),
            status: self.status,
            error: error_view(self.error),
        }
    }
}

impl ImageView {
    /// Whether the fields of a record agree with its status: a failed record,
    /// and no other, has an error; a record that has a target has a date; and
    /// a date comes with the tier that gave it.
    pub open spec fn well_formed(self) -> bool {
        &&& self.error is Some <==> self.status is Failed
        &&& self.tier is Some <==> self.resolved_date is Some
        &&& (self.status is Resolved || self.status is Collided || self.status is Moved)
            ==> self.resolved_date is Some && self.target_filename is Some
    }

    /// The record that discovery makes of the file at `path`.
    pub open spec fn discovered(path: Seq<char>) -> ImageView {
        ImageView {
            source_path: path,
            source_filename: file_name_of(path),
            source_filetype: match extension_of(file_name_of(path)) {
                Some(e) => e,
                None => Seq::<char>::empty(),
            },
            dates: ImageDates {
                exif_date_time_original: None,
                file_creation_date: None,
                file_modified_date: None,
            },
            date_parse_error: None,
            resolved_date: None,
            tier: None,
            target_path: path,
            target_filename: None,
            target_filetype: None,
            status: Status::Pending,
            error: None,
        }
    }
}

/// The views of the records of a batch, in order.
pub open spec fn batch_view(files: Seq<Image>) -> Seq<ImageView> {
    Seq::new(files.len(), |i: int| files[i]@)
}

impl Image {
    /// The record of the file found at `path`: pending, with no date and no
    /// target yet.
    pub fn new(path: String) -> (r: Image)
        ensures
            r@ == ImageView::discovered(path@),
            r@.well_formed(),
    {
        let filename = file_name(path.as_str());
        let (_, extension) = split_file_name(filename.as_str());
        let filetype = match extension {
            Some(e) => e,
            None => String::new(),
        };
        Image {
            source_path: path.clone(),
            source_filename: filename,
            source_filetype: filetype,
            dates: ImageDates {
                exif_date_time_original: None,
                file_creation_date: None,
                file_modified_date: None,
            },
            date_parse_error: None,
            resolved_date: None,
            tier: None,
            target_path: path,
            target_filename: None,
            target_filetype: None,
            status: Status::Pending,
            error: None,
        }
    }
}

} // verus!
