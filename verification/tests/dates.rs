use exif_sorter::date::{leap_year, month_length, zero_padded_string, Date};
use exif_sorter::text::{decimal_string, digit_str, to_chars};

#[test]
fn leap_years_follow_the_gregorian_rule() {
    assert!(leap_year(2024));
    assert!(!leap_year(2023));
    assert!(!leap_year(1900));
    assert!(leap_year(2000));
    assert!(leap_year(0));
    assert!(leap_year(-4));
}

#[test]
fn months_have_their_lengths() {
    assert_eq!(month_length(2024, 1), 31);
    assert_eq!(month_length(2024, 2), 29);
    assert_eq!(month_length(2023, 2), 28);
    assert_eq!(month_length(2023, 4), 30);
    assert_eq!(month_length(2023, 12), 31);
    assert_eq!(month_length(2023, 0), 0);
    assert_eq!(month_length(2023, 13), 0);
}

#[test]
fn a_date_exists_only_for_a_day_that_exists() {
    assert!(Date::from_ymd_opt(2024, 2, 29).is_some());
    assert!(Date::from_ymd_opt(2023, 2, 29).is_none());
    assert!(Date::from_ymd_opt(2024, 0, 1).is_none());
    assert!(Date::from_ymd_opt(2024, 13, 1).is_none());
    assert!(Date::from_ymd_opt(2024, 4, 31).is_none());
    assert!(Date::from_ymd_opt(2024, 4, 0).is_none());
    assert!(Date::from_ymd_opt(2024, 12, 31).is_some());
}

#[test]
fn a_date_gives_back_its_parts() {
    let date = Date::from_ymd_opt(2024, 1, 2).unwrap();
    assert_eq!(date.year(), 2024);
    assert_eq!(date.month(), 1);
    assert_eq!(date.day(), 2);
}

#[test]
fn a_date_is_written_as_year_month_day() {
    assert_eq!(Date::from_ymd_opt(2024, 1, 1).unwrap().to_text(), "2024-01-01");
    assert_eq!(Date::from_ymd_opt(2024, 12, 31).unwrap().to_text(), "2024-12-31");
    assert_eq!(Date::from_ymd_opt(5, 3, 9).unwrap().to_text(), "0005-03-09");
    assert_eq!(Date::from_ymd_opt(0, 1, 1).unwrap().to_text(), "0000-01-01");
    assert_eq!(Date::from_ymd_opt(9999, 1, 1).unwrap().to_text(), "9999-01-01");
}

#[test]
fn a_year_outside_four_digits_gets_a_sign() {
    assert_eq!(Date::from_ymd_opt(12345, 6, 7).unwrap().to_text(), "+12345-06-07");
    assert_eq!(Date::from_ymd_opt(-1, 6, 7).unwrap().to_text(), "-0001-06-07");
    assert_eq!(Date::from_ymd_opt(-12345, 6, 7).unwrap().to_text(), "-12345-06-07");
}

#[test]
fn a_date_is_written_as_chrono_writes_it() {
    let years: Vec<i32> = vec![-12345, -1, 0, 5, 1970, 2024, 9999, 10000, 262142];
    for year in years {
        let ours = Date::from_ymd_opt(year, 2, 3).unwrap().to_text();
        let theirs = chrono::NaiveDate::from_ymd_opt(year, 2, 3).unwrap().format("%Y-%m-%d").to_string();
        assert_eq!(ours, theirs);
    }
}

#[test]
fn numerals_have_no_leading_zeros() {
    assert_eq!(decimal_string(0), "0");
    assert_eq!(decimal_string(7), "7");
    assert_eq!(decimal_string(10), "10");
    assert_eq!(decimal_string(1234567890), "1234567890");
    assert_eq!(decimal_string(u128::MAX), "340282366920938463463374607431768211455");
}

#[test]
fn digits_are_written_one_by_one() {
    assert_eq!(digit_str(0), "0");
    assert_eq!(digit_str(5), "5");
    assert_eq!(digit_str(9), "9");
}

#[test]
fn padding_puts_zeros_first() {
    assert_eq!(zero_padded_string(7, 2), "07");
    assert_eq!(zero_padded_string(12, 2), "12");
    assert_eq!(zero_padded_string(123, 2), "123");
    assert_eq!(zero_padded_string(0, 4), "0000");
    assert_eq!(zero_padded_string(5, 0), "5");
}

#[test]
fn characters_are_copied_in_order() {
    assert_eq!(to_chars("a/b.c"), vec!['a', '/', 'b', '.', 'c']);
    assert_eq!(to_chars(""), Vec::<char>::new());
    assert_eq!(to_chars("é😀"), vec!['é', '😀']);
}
