use exif_sorter::capture::{
    date_from_parts, date_of_capture_text, date_of_timestamp, embedded_capture_date,
    parse_capture_time, Timestamp, CAPTURE_TIME_FORMAT, DATE_TIME_ORIGINAL, PRIMARY_IMAGE,
};
use exif_sorter::date::Date;
use exif_sorter::error::{AppError, ParseCause};

/// A TIFF file of 64 bytes whose only Exif field is `DateTimeOriginal`.
fn tiff_with_capture_time(value: &[u8; 19]) -> Vec<u8> {
    tiff_with_exif_field(0x9003, value)
}

/// A TIFF file of 64 bytes whose only Exif field has the given tag number.
fn tiff_with_exif_field(tag: u16, value: &[u8; 19]) -> Vec<u8> {
    let mut bytes: Vec<u8> = Vec::new();
    bytes.extend_from_slice(b"II\x2a\x00");
    bytes.extend_from_slice(&8u32.to_le_bytes());
    bytes.extend_from_slice(&1u16.to_le_bytes());
    bytes.extend_from_slice(&0x8769u16.to_le_bytes());
    bytes.extend_from_slice(&4u16.to_le_bytes());
    bytes.extend_from_slice(&1u32.to_le_bytes());
    bytes.extend_from_slice(&26u32.to_le_bytes());
    bytes.extend_from_slice(&0u32.to_le_bytes());
    bytes.extend_from_slice(&1u16.to_le_bytes());
    bytes.extend_from_slice(&tag.to_le_bytes());
    bytes.extend_from_slice(&2u16.to_le_bytes());
    bytes.extend_from_slice(&20u32.to_le_bytes());
    bytes.extend_from_slice(&44u32.to_le_bytes());
    bytes.extend_from_slice(&0u32.to_le_bytes());
    bytes.extend_from_slice(value);
    bytes.push(0);
    bytes
}

/// A TIFF file with an empty first directory.
fn tiff_without_fields() -> Vec<u8> {
    let mut bytes: Vec<u8> = Vec::new();
    bytes.extend_from_slice(b"II\x2a\x00");
    bytes.extend_from_slice(&8u32.to_le_bytes());
    bytes.extend_from_slice(&0u16.to_le_bytes());
    bytes.extend_from_slice(&0u32.to_le_bytes());
    bytes
}

#[test]
fn the_strict_format_is_the_one_of_the_metadata_reader() {
    assert_eq!(CAPTURE_TIME_FORMAT, "%Y-%m-%d %H:%M:%S");
}

#[test]
fn a_capture_time_gives_its_date() {
    assert_eq!(parse_capture_time("2024-01-01 10:00:00"), Ok(Date::from_ymd_opt(2024, 1, 1).unwrap()));
    assert_eq!(parse_capture_time("1991-01-01 00:13:37"), Ok(Date::from_ymd_opt(1991, 1, 1).unwrap()));
    assert_eq!(parse_capture_time("2024-02-29 23:59:59"), Ok(Date::from_ymd_opt(2024, 2, 29).unwrap()));
}

#[test]
fn a_malformed_capture_time_is_a_parse_error() {
    assert!(matches!(parse_capture_time("unknown"), Err(AppError::DateParseError(_))));
    assert!(matches!(parse_capture_time(""), Err(AppError::DateParseError(_))));
    assert!(matches!(parse_capture_time("2024-13-01 10:00:00"), Err(AppError::DateParseError(_))));
    assert!(matches!(parse_capture_time("2023-02-29 10:00:00"), Err(AppError::DateParseError(_))));
    assert!(matches!(parse_capture_time("2024-01-01"), Err(AppError::DateParseError(_))));
    assert!(matches!(parse_capture_time("2024-01-01 10:00:00 and more"), Err(AppError::DateParseError(_))));
    assert!(matches!(parse_capture_time("2024:01:01 10:00:00"), Err(AppError::DateParseError(_))));
}

#[test]
fn a_parse_error_tells_its_cause() {
    assert_eq!(parse_capture_time("2024-13-01 10:00:00"), Err(AppError::DateParseError(ParseCause::OutOfRange)));
    assert_eq!(parse_capture_time("2024-01-01"), Err(AppError::DateParseError(ParseCause::TooShort)));
    assert_eq!(parse_capture_time("2024-01-01 10:00:00x"), Err(AppError::DateParseError(ParseCause::TooLong)));
    assert_eq!(parse_capture_time("unknown"), Err(AppError::DateParseError(ParseCause::Invalid)));
}

#[test]
fn parts_make_a_date_where_the_day_exists() {
    assert_eq!(date_from_parts(Some((2024, 1, 2))), Date::from_ymd_opt(2024, 1, 2));
    assert_eq!(date_from_parts(Some((2024, 2, 30))), None);
    assert_eq!(date_from_parts(None), None);
}

#[test]
fn a_timestamp_gives_its_day_in_utc() {
    assert_eq!(date_of_timestamp(Some(Timestamp { secs: 0, nanos: 0 })), Date::from_ymd_opt(1970, 1, 1));
    assert_eq!(date_of_timestamp(Some(Timestamp { secs: 1704067200, nanos: 0 })), Date::from_ymd_opt(2024, 1, 1));
    assert_eq!(date_of_timestamp(Some(Timestamp { secs: 1704153599, nanos: 999_999_999 })), Date::from_ymd_opt(2024, 1, 1));
    assert_eq!(date_of_timestamp(Some(Timestamp { secs: 1704153600, nanos: 0 })), Date::from_ymd_opt(2024, 1, 2));
    assert_eq!(date_of_timestamp(Some(Timestamp { secs: -1, nanos: 0 })), Date::from_ymd_opt(1969, 12, 31));
}

#[test]
fn a_timestamp_out_of_range_gives_no_day() {
    assert_eq!(date_of_timestamp(Some(Timestamp { secs: i64::MAX, nanos: 0 })), None);
    assert_eq!(date_of_timestamp(Some(Timestamp { secs: i64::MIN, nanos: 0 })), None);
    assert_eq!(date_of_timestamp(Some(Timestamp { secs: 0, nanos: 2_000_000_000 })), None);
    assert_eq!(date_of_timestamp(None), None);
}

#[test]
fn an_embedded_capture_time_is_read_from_the_file() {
    let bytes = tiff_with_capture_time(b"2024:01:01 10:00:00");
    assert_eq!(embedded_capture_date(&bytes), Ok(Date::from_ymd_opt(2024, 1, 1)));
    let bytes = tiff_with_capture_time(b"1991:01:01 00:13:37");
    assert_eq!(embedded_capture_date(&bytes), Ok(Date::from_ymd_opt(1991, 1, 1)));
}

#[test]
fn a_file_without_metadata_has_no_capture_time() {
    assert_eq!(embedded_capture_date(b"abc"), Ok(None));
    assert_eq!(embedded_capture_date(b""), Ok(None));
    assert_eq!(embedded_capture_date(&tiff_without_fields()), Ok(None));
    let truncated: Vec<u8> = tiff_with_capture_time(b"2024:01:01 10:00:00")[..40].to_vec();
    assert_eq!(embedded_capture_date(&truncated), Ok(None));
}

#[test]
fn a_malformed_embedded_capture_time_is_kept_as_an_error() {
    let bytes = tiff_with_capture_time(b"2024:13:45 10:00:00");
    assert!(matches!(embedded_capture_date(&bytes), Err(AppError::DateParseError(_))));
    let bytes = tiff_with_capture_time(b"no date in here    ");
    assert!(matches!(embedded_capture_date(&bytes), Err(AppError::DateParseError(_))));
    let bytes = tiff_with_capture_time(b"                   ");
    assert!(matches!(embedded_capture_date(&bytes), Err(AppError::DateParseError(_))));
}

#[test]
fn the_capture_time_is_the_field_date_time_original_of_the_primary_image() {
    assert_eq!(DATE_TIME_ORIGINAL, 0x9003);
    assert_eq!(PRIMARY_IMAGE, 0);
    assert_eq!(exif::Tag::DateTimeOriginal, exif::Tag(exif::Context::Exif, DATE_TIME_ORIGINAL));
    assert_eq!(exif::In::PRIMARY, exif::In(PRIMARY_IMAGE));
}

#[test]
fn another_field_is_no_capture_time() {
    let digitized = tiff_with_exif_field(0x9004, b"2024:01:01 10:00:00");
    assert_eq!(embedded_capture_date(&digitized), Ok(None));
    let original = tiff_with_exif_field(0x9003, b"2024:01:01 10:00:00");
    assert_eq!(embedded_capture_date(&original), Ok(Date::from_ymd_opt(2024, 1, 1)));
}

#[test]
fn a_capture_text_comes_to_its_date() {
    assert_eq!(date_of_capture_text(None), Ok(None));
    assert_eq!(
        date_of_capture_text(Some("2024-01-02 03:04:05".to_string())),
        Ok(Date::from_ymd_opt(2024, 1, 2))
    );
    assert!(matches!(
        date_of_capture_text(Some("unknown".to_string())),
        Err(AppError::DateParseError(_))
    ));
}

#[test]
fn a_time_after_the_epoch_is_taken_as_it_is() {
    assert_eq!(Timestamp::after_epoch(0, 0), Some(Timestamp { secs: 0, nanos: 0 }));
    assert_eq!(Timestamp::after_epoch(1704067200, 5), Some(Timestamp { secs: 1704067200, nanos: 5 }));
    assert_eq!(
        Timestamp::after_epoch(i64::MAX as u64, 999_999_999),
        Some(Timestamp { secs: i64::MAX, nanos: 999_999_999 })
    );
    assert_eq!(Timestamp::after_epoch(i64::MAX as u64 + 1, 0), None);
    assert_eq!(Timestamp::after_epoch(0, 1_000_000_000), None);
}

#[test]
fn a_time_before_the_epoch_counts_its_nanoseconds_forward() {
    assert_eq!(Timestamp::before_epoch(0, 0), Some(Timestamp { secs: 0, nanos: 0 }));
    assert_eq!(Timestamp::before_epoch(1, 0), Some(Timestamp { secs: -1, nanos: 0 }));
    assert_eq!(Timestamp::before_epoch(0, 1), Some(Timestamp { secs: -1, nanos: 999_999_999 }));
    assert_eq!(Timestamp::before_epoch(1, 250_000_000), Some(Timestamp { secs: -2, nanos: 750_000_000 }));
    assert_eq!(
        Timestamp::before_epoch(i64::MAX as u64, 1),
        Some(Timestamp { secs: i64::MIN, nanos: 999_999_999 })
    );
    assert_eq!(Timestamp::before_epoch(i64::MAX as u64 + 1, 0), None);
    assert_eq!(Timestamp::before_epoch(0, 1_000_000_000), None);
    assert_eq!(
        date_of_timestamp(Timestamp::before_epoch(0, 1)),
        Date::from_ymd_opt(1969, 12, 31)
    );
}
