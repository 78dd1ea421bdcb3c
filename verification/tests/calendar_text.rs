use vvtec::calendar::{civil_from_days, datetime_parts, datetime_text};

#[test]
fn epoch_and_neighbours() {
    assert_eq!(datetime_parts(0), (1970, 1, 1, 0, 0, 0));
    assert_eq!(datetime_parts(86399), (1970, 1, 1, 23, 59, 59));
    assert_eq!(datetime_parts(86400), (1970, 1, 2, 0, 0, 0));
    assert_eq!(datetime_parts(-1), (1969, 12, 31, 23, 59, 59));
    assert_eq!(datetime_parts(-86400), (1969, 12, 31, 0, 0, 0));
}

#[test]
fn leap_days_are_placed() {
    // a leap day of a century year divisible by 400
    assert_eq!(datetime_parts(951782400), (2000, 2, 29, 0, 0, 0));
    // 1900 is no leap year: the day after 1900-02-28 is march the first
    let feb28_1900 = -2203977600i64;
    assert_eq!(datetime_parts(feb28_1900), (1900, 2, 28, 0, 0, 0));
    assert_eq!(datetime_parts(feb28_1900 + 86400), (1900, 3, 1, 0, 0, 0));
}

#[test]
fn day_numbers_anchor_the_calendar() {
    assert_eq!(civil_from_days(0), (0, 1, 1));
    assert_eq!(civil_from_days(59), (0, 2, 29));
    assert_eq!(civil_from_days(60), (0, 3, 1));
    assert_eq!(civil_from_days(719528), (1970, 1, 1));
    assert_eq!(civil_from_days(-1), (-1, 12, 31));
}

#[test]
fn datetime_text_is_iso_like() {
    assert_eq!(datetime_text(0), "1970-01-01 00:00:00");
    assert_eq!(datetime_text(1234567890), "2009-02-13 23:31:30");
    assert_eq!(datetime_text(253402300799), "9999-12-31 23:59:59");
    // years pad to four digits, and negative years carry a sign
    assert_eq!(datetime_text(-62135596800), "0001-01-01 00:00:00");
    assert_eq!(datetime_text(-62167219200), "0000-01-01 00:00:00");
    assert_eq!(datetime_text(-62198755200), "-0001-01-01 00:00:00");
}

#[test]
fn extreme_timestamps_do_not_panic() {
    let (_, m, d, hh, mi, ss) = datetime_parts(i64::MAX);
    assert!((1..=12).contains(&m) && (1..=31).contains(&d));
    assert!(hh < 24 && mi < 60 && ss < 60);
    let (_, m, d, _, _, _) = datetime_parts(i64::MIN);
    assert!((1..=12).contains(&m) && (1..=31).contains(&d));
}
