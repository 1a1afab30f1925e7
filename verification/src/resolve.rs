//! The choice of one date for a file, from three sources in a fixed order.

use crate::date::Date;
use crate::error::{AppError, AppErrorView};
use crate::image::{ImageDates, Tier};
use vstd::prelude::*;

verus! {

/// The date of a file and the tier that gives it: the embedded capture time
/// where the file has one, else the creation time, else the modification
/// time; none where all three are missing.
pub open spec fn resolution(dates: ImageDates) -> Option<(Date, Tier)> {
    match dates.exif_date_time_original {
        Some(d) => Some((d, Tier::Embedded)),
        None => match dates.file_creation_date {
            Some(d) => Some((d, Tier::Created)),
            None => match dates.file_modified_date {
                Some(d) => Some((d, Tier::Modified)),
                None => None,
            },
        },
    }
}

/// Chooses the date of a file. It fails only where no tier has a date.
pub fn resolve_date(dates: &ImageDates) -> (r: Result<(Date, Tier), AppError>)
    ensures
        match r {
            Ok(chosen) => resolution(*dates) == Some(chosen),
            Err(e) => resolution(*dates) is None && e@ == AppErrorView::DateResolutionExhausted,
        },
{
    match dates.exif_date_time_original {
        Some(d) => Ok((d, Tier::Embedded)),
        None => match dates.file_creation_date {
            Some(d) => Ok((d, Tier::Created)),
            None => match dates.file_modified_date {
                Some(d) => Ok((d, Tier::Modified)),
                None => Err(AppError::DateResolutionExhausted),
            },
        },
    }
}

/// A file with an embedded capture time gets the date of that time, whatever
/// the filesystem says.
pub proof fn lemma_embedded_date_wins(dates: ImageDates, other: ImageDates)
    requires
        dates.exif_date_time_original is Some,
        other.exif_date_time_original == dates.exif_date_time_original,
    ensures
        resolution(dates) == Some((dates.exif_date_time_original->0, Tier::Embedded)),
        resolution(other) == resolution(dates),
{
}

/// A file without an embedded capture time gets its creation date, or its
/// modification date where it has no creation date.
pub proof fn lemma_filesystem_date_follows(dates: ImageDates)
    requires
        dates.exif_date_time_original is None,
    ensures
        dates.file_creation_date is Some ==> resolution(dates) == Some(
            (dates.file_creation_date->0, Tier::Created),
        ),
        dates.file_creation_date is None && dates.file_modified_date is Some ==> resolution(dates)
            == Some((dates.file_modified_date->0, Tier::Modified)),
        dates.file_creation_date is None && dates.file_modified_date is None ==> resolution(dates)
            is None,
{
}

} // verus!
