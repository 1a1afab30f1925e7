//! The dates of one file: the capture time embedded in it, read by the
//! `exif` crate and parsed by `chrono`, and the times that the filesystem
//! keeps.
//!
//! The metadata of a file is kept as the `exif` crate gives it, an
//! `exif::Exif`. The library sees it as a collection: for each field, by its
//! tag number and the number of its image, the text in which the crate
//! displays the field's value.

use chrono::Datelike;
use crate::date::{Date, Ymd};
use crate::error::{AppError, ParseCause};
use vstd::prelude::*;

verus! {

/// `chrono::ParseError`, the error of chrono's parser; nothing is known of
/// what it holds.
#[verifier::external_type_specification]
#[verifier::external_body]
pub struct ExParseError(chrono::ParseError);

/// `exif::Exif`, the metadata read from a file; `exif_fields` names what it
/// holds.
#[verifier::external_type_specification]
#[verifier::external_body]
pub struct ExExif(exif::Exif);

/// `exif::Error`, the error of the metadata reader; nothing is known of what
/// it holds.
#[verifier::external_type_specification]
#[verifier::external_body]
pub struct ExExifError(exif::Error);

/// The format in which an embedded capture time must be written.
pub const CAPTURE_TIME_FORMAT: &'static str = "%Y-%m-%d %H:%M:%S";

/// The tag number of the field that holds the capture time,
/// `DateTimeOriginal`.
pub const DATE_TIME_ORIGINAL: u16 = 0x9003;

/// The number of the primary image of a file.
pub const PRIMARY_IMAGE: u16 = 0;

/// What an `exif::Exif` holds of Exif attributes: for each field, by its tag
/// number and the number of its image, the text in which
/// `exif::Field::display_value` writes the field's value.
pub uninterp spec fn exif_fields(exif: exif::Exif) -> Map<(u16, u16), Seq<char>>;

/// What `exif::Reader::read_from_container` reads from a file with the given
/// content, as `exif_fields` sees it; `None` where it reports an error.
pub uninterp spec fn container_fields(content: Seq<u8>) -> Option<Map<(u16, u16), Seq<char>>>;

/// Year, month and day of the date and time that
/// `chrono::NaiveDateTime::parse_from_str` reads from `text` under `format`;
/// `None` where it reports an error.
pub uninterp spec fn parsed_date(text: Seq<char>, format: Seq<char>) -> Option<(i32, u32, u32)>;

/// Year, month and day, in UTC, of the moment that lies `secs` seconds and
/// `nanos` nanoseconds after the start of 1970, as
/// `chrono::DateTime::from_timestamp` gives it; `None` where it gives none.
pub uninterp spec fn timestamp_date(secs: i64, nanos: u32) -> Option<(i32, u32, u32)>;

/// Calls `chrono::NaiveDateTime::parse_from_str` and keeps year, month and
/// day of what it returns. The contract claims only that the same text and
/// format always give the same answer, which `parsed_date` names.
#[verifier::external_body]
fn parse_from_str(text: &str, format: &str) -> (r: Result<(i32, u32, u32), chrono::ParseError>)
    ensures
        match r {
            Ok(parts) => parsed_date(text@, format@) == Some(parts),
            Err(_) => parsed_date(text@, format@) is None,
        },
{
    chrono::NaiveDateTime::parse_from_str(text, format).map(|t| (t.year(), t.month(), t.day()))
}

/// Calls `chrono::ParseError::kind` and names the kind in this library's
/// words. Nothing is claimed of the result.
#[verifier::external_body]
fn parse_error_cause(error: &chrono::ParseError) -> (r: ParseCause) {
    match error.kind() {
        chrono::format::ParseErrorKind::OutOfRange => ParseCause::OutOfRange,
        chrono::format::ParseErrorKind::Impossible => ParseCause::Impossible,
        chrono::format::ParseErrorKind::NotEnough => ParseCause::NotEnough,
        chrono::format::ParseErrorKind::Invalid => ParseCause::Invalid,
        chrono::format::ParseErrorKind::TooShort => ParseCause::TooShort,
        chrono::format::ParseErrorKind::TooLong => ParseCause::TooLong,
        chrono::format::ParseErrorKind::BadFormat => ParseCause::BadFormat,
        _ => ParseCause::Unknown,
    }
}

/// Calls `chrono::DateTime::from_timestamp` and keeps year, month and day of
/// what it returns. The contract claims only that the same numbers always
/// give the same answer, which `timestamp_date` names.
#[verifier::external_body]
fn from_timestamp(secs: i64, nanos: u32) -> (r: Option<(i32, u32, u32)>)
    ensures
        r == timestamp_date(secs, nanos),
{
    chrono::DateTime::from_timestamp(secs, nanos).map(|t| (t.year(), t.month(), t.day()))
}

/// Calls `exif::Reader::read_from_container` on the content of a file. The
/// contract claims only that the same content always gives the same answer:
/// an error, or metadata that holds the fields which `container_fields`
/// names.
#[verifier::external_body]
fn read_exif(content: &[u8]) -> (r: Result<exif::Exif, exif::Error>)
    ensures
        match r {
            Ok(exif) => container_fields(content@) == Some(exif_fields(exif)),
            Err(_) => container_fields(content@) is None,
        },
{
    exif::Reader::new().read_from_container(&mut std::io::Cursor::new(content))
}

/// Calls `exif::Exif::get_field` for the Exif attribute with the given tag
/// number in the image with the given number, and hands the field out as the
/// text in which `exif::Field::display_value` writes its value. The contract
/// claims that this is the entry of `exif_fields` at that place, and that
/// there is no answer where there is no such entry.
#[verifier::external_body]
fn field_text(exif: &exif::Exif, tag: u16, image: u16) -> (r: Option<String>)
    ensures
        match r {
            Some(text) => exif_fields(*exif).contains_key((tag, image)) && exif_fields(
                *exif,
            )[(tag, image)] == text@,
            None => !exif_fields(*exif).contains_key((tag, image)),
        },
{
    exif.get_field(exif::Tag(exif::Context::Exif, tag), exif::In(image)).map(
        |field| field.display_value().to_string(),
    )
}

/// The date that three numbers name, where they name a day that exists.
pub open spec fn date_of_parts(parts: Option<(i32, u32, u32)>) -> Option<Ymd> {
    match parts {
        Some((year, month, day)) => {
            let date = Ymd { year: year as int, month: month as int, day: day as int };
            if date.is_valid() {
                Some(date)
            } else {
                None
            }
        },
        None => None,
    }
}

/// The date of a capture time written as text, where the text has the
/// strict format.
pub open spec fn capture_date(text: Seq<char>) -> Option<Ymd> {
    date_of_parts(parsed_date(text, CAPTURE_TIME_FORMAT@))
}

/// A moment as the filesystem keeps it: seconds and nanoseconds since the
/// start of 1970, UTC.
#[derive(Clone, Copy, Debug, PartialEq, Eq, Structural)]
pub struct Timestamp {
    pub secs: i64,
    pub nanos: u32,
}

impl Timestamp {
    /// The moment as nanoseconds since the start of 1970, negative before it.
    pub open spec fn nanoseconds(self) -> int {
        self.secs * 1_000_000_000 + self.nanos
    }

    /// The moment that lies `secs` seconds and `nanos` nanoseconds after the
    /// start of 1970. There is none where the seconds do not fit, or where
    /// `nanos` is a second or more.
    pub fn after_epoch(secs: u64, nanos: u32) -> (r: Option<Timestamp>)
        ensures
            r is Some <==> secs <= i64::MAX && nanos < 1_000_000_000,
            r matches Some(t) ==> t.secs == secs && t.nanos == nanos,
    {
        if secs > 0x7fff_ffff_ffff_ffff || nanos >= 1_000_000_000 {
            None
        } else {
            Some(Timestamp { secs: secs as i64, nanos })
        }
    }

    /// The moment that lies `secs` seconds and `nanos` nanoseconds before the
    /// start of 1970, written with nanoseconds that count forward from a
    /// whole second. There is none where the seconds do not fit, or where
    /// `nanos` is a second or more.
    pub fn before_epoch(secs: u64, nanos: u32) -> (r: Option<Timestamp>)
        ensures
            r is Some <==> secs <= i64::MAX && nanos < 1_000_000_000,
            r matches Some(t) ==> t.nanos < 1_000_000_000 && t.nanoseconds() == -(secs
                * 1_000_000_000 + nanos),
    {
        if secs > 0x7fff_ffff_ffff_ffff || nanos >= 1_000_000_000 {
            None
        } else if nanos == 0 {
            Some(Timestamp { secs: -(secs as i64), nanos: 0 })
        } else {
            Some(Timestamp { secs: -(secs as i64) - 1, nanos: 1_000_000_000 - nanos })
        }
    }
}

/// The day, in UTC, on which an optional moment lies.
pub open spec fn timestamp_day(stamp: Option<Timestamp>) -> Option<Ymd> {
    match stamp {
        Some(t) => date_of_parts(timestamp_date(t.secs, t.nanos)),
        None => None,
    }
}

/// The view of an optional date.
pub open spec fn day_of(date: Option<Date>) -> Option<Ymd> {
    match date {
        Some(d) => Some(d@),
        None => None,
    }
}

/// The date that three numbers name, where they name a day that exists.
pub fn date_from_parts(parts: Option<(i32, u32, u32)>) -> (r: Option<Date>)
    ensures
        day_of(r) == date_of_parts(parts),
{
    match parts {
        Some((year, month, day)) => Date::from_ymd_opt(year, month, day),
        None => None,
    }
}

/// Parses a capture time under the strict format and gives its date. A text
/// that does not parse, or that names no day, is a parse error.
pub fn parse_capture_time(text: &str) -> (r: Result<Date, AppError>)
    ensures
        match r {
            Ok(date) => capture_date(text@) == Some(date@),
            Err(e) => capture_date(text@) is None && e@ is DateParseError,
        },
{
    match parse_from_str(text, CAPTURE_TIME_FORMAT) {
        Ok(parts) => match date_from_parts(Some(parts)) {
            Some(date) => Ok(date),
            None => Err(AppError::DateParseError(ParseCause::Impossible)),
        },
        Err(e) => Err(AppError::DateParseError(parse_error_cause(&e))),
    }
}

/// The day, in UTC, on which a moment lies.
pub fn date_of_timestamp(stamp: Option<Timestamp>) -> (r: Option<Date>)
    ensures
        day_of(r) == timestamp_day(stamp),
{
    match stamp {
        Some(t) => date_from_parts(from_timestamp(t.secs, t.nanos)),
        None => None,
    }
}

/// The capture time that metadata with the given fields holds, as text: the
/// field `DateTimeOriginal` of the primary image, where there is one.
pub open spec fn capture_text(fields: Map<(u16, u16), Seq<char>>) -> Option<Seq<char>> {
    if fields.contains_key((DATE_TIME_ORIGINAL, PRIMARY_IMAGE)) {
        Some(fields[(DATE_TIME_ORIGINAL, PRIMARY_IMAGE)])
    } else {
        None
    }
}

/// The capture time that a file with the given content holds, as text; none
/// where the file has no metadata that can be read.
pub open spec fn embedded_text(content: Seq<u8>) -> Option<Seq<char>> {
    match container_fields(content) {
        Some(fields) => capture_text(fields),
        None => None,
    }
}

/// Whether `outcome` is what the capture time `text` comes to: no date where
/// there is no capture time, which is no error; the date of the capture time
/// where it has the strict format; a parse error where it has not.
pub open spec fn is_capture_outcome(
    text: Option<Seq<char>>,
    outcome: Result<Option<Date>, AppError>,
) -> bool {
    match text {
        None => outcome == Ok::<Option<Date>, AppError>(None),
        Some(t) => match capture_date(t) {
            Some(day) => outcome matches Ok(Some(date)) && date@ == day,
            None => outcome matches Err(e) && e@ is DateParseError,
        },
    }
}

/// The date of a capture time that was read as text, where one was read.
pub fn date_of_capture_text(text: Option<String>) -> (r: Result<Option<Date>, AppError>)
    ensures
        is_capture_outcome(crate::path::text_of(text), r),
{
    match text {
        Some(t) => match parse_capture_time(t.as_str()) {
            Ok(date) => Ok(Some(date)),
            Err(e) => Err(e),
        },
        None => Ok(None),
    }
}

/// The date of the field `DateTimeOriginal`: `Ok(None)` where the metadata
/// has no such field, an error where its value does not parse.
fn extract_datetimeoriginal_from_exif(exif: &exif::Exif) -> (r: Result<Option<Date>, AppError>)
    ensures
        is_capture_outcome(capture_text(exif_fields(*exif)), r),
{
    date_of_capture_text(field_text(exif, DATE_TIME_ORIGINAL, PRIMARY_IMAGE))
}

/// The date of the capture time embedded in a file with the given content:
/// `Ok(None)` where the file has no metadata or no capture time in it, which
/// is no error; an error where it has a capture time that does not parse.
pub fn embedded_capture_date(content: &[u8]) -> (r: Result<Option<Date>, AppError>)
    ensures
        is_capture_outcome(embedded_text(content@), r),
{
    match read_exif(content) {
        Ok(exif) => extract_datetimeoriginal_from_exif(&exif),
        Err(_) => Ok(None),
    }
}

} // verus!
