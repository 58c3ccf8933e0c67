use copernicusmarine_rs::{secs_since_1990_01_01_0_to_utcdatetime, string_first_n_chars, utc_date_time_to_string, UtcDateTime};

#[test]
fn date_time_text_has_leading_zeros() {
    let dt = UtcDateTime::new(2025, 9, 5, 7, 8, 9, 0).unwrap();
    assert_eq!(utc_date_time_to_string(dt), "2025-09-05T07:08:09");
    let dt = UtcDateTime::new(2024, 12, 31, 23, 59, 58, 123).unwrap();
    assert_eq!(utc_date_time_to_string(dt), "2024-12-31T23:59:58");
    let dt = UtcDateTime::new(0, 1, 1, 0, 0, 0, 0).unwrap();
    assert_eq!(utc_date_time_to_string(dt), "0000-01-01T00:00:00");
    let dt = UtcDateTime::new(-44, 3, 15, 12, 0, 0, 0).unwrap();
    assert_eq!(utc_date_time_to_string(dt), "-0044-03-15T12:00:00");
    let dt = UtcDateTime::new(999, 1, 1, 0, 0, 0, 0).unwrap();
    assert_eq!(utc_date_time_to_string(dt), "0999-01-01T00:00:00");
    let dt = UtcDateTime::new(-9999, 1, 1, 0, 0, 0, 0).unwrap();
    assert_eq!(utc_date_time_to_string(dt), "-9999-01-01T00:00:00");
    let dt = UtcDateTime::new(7, 1, 1, 0, 0, 0, 0).unwrap();
    assert_eq!(utc_date_time_to_string(dt), "0007-01-01T00:00:00");
}

#[test]
fn date_time_text_layout_for_four_digit_years() {
    let text = utc_date_time_to_string(UtcDateTime::new(1999, 1, 2, 3, 4, 5, 0).unwrap());
    assert_eq!(text.len(), 19);
    assert_eq!(&text[4..5], "-");
    assert_eq!(&text[10..11], "T");
    assert_eq!(&text[13..14], ":");
}

#[test]
fn calendar_dates_are_checked() {
    assert!(UtcDateTime::new(2023, 2, 29, 0, 0, 0, 0).is_none());
    assert!(UtcDateTime::new(2024, 2, 29, 0, 0, 0, 0).is_some());
    assert!(UtcDateTime::new(1900, 2, 29, 0, 0, 0, 0).is_none());
    assert!(UtcDateTime::new(2000, 2, 29, 0, 0, 0, 0).is_some());
    assert!(UtcDateTime::new(2024, 13, 1, 0, 0, 0, 0).is_none());
    assert!(UtcDateTime::new(2024, 0, 1, 0, 0, 0, 0).is_none());
    assert!(UtcDateTime::new(2024, 4, 31, 0, 0, 0, 0).is_none());
    assert!(UtcDateTime::new(10000, 1, 1, 0, 0, 0, 0).is_none());
    assert!(UtcDateTime::new(-10000, 1, 1, 0, 0, 0, 0).is_none());
    assert!(UtcDateTime::new(2024, 1, 1, 24, 0, 0, 0).is_none());
    assert!(UtcDateTime::new(2024, 1, 1, 23, 60, 0, 0).is_none());
    assert!(UtcDateTime::new(2024, 1, 1, 23, 59, 60, 0).is_none());
    assert!(UtcDateTime::new(2024, 1, 1, 23, 59, 59, 1_000_000_000).is_none());
    let dt = UtcDateTime::new(2024, 1, 2, 3, 4, 5, 6).unwrap();
    assert_eq!(
        (dt.year(), dt.month(), dt.day(), dt.hour(), dt.minute(), dt.second(), dt.nanosecond()),
        (2024, 1, 2, 3, 4, 5, 6)
    );
}

#[test]
fn seconds_since_1990() {
    let t = secs_since_1990_01_01_0_to_utcdatetime(0);
    assert_eq!(utc_date_time_to_string(t), "1990-01-01T00:00:00");
    let t = secs_since_1990_01_01_0_to_utcdatetime(86400);
    assert_eq!(utc_date_time_to_string(t), "1990-01-02T00:00:00");
    let t = secs_since_1990_01_01_0_to_utcdatetime(-1);
    assert_eq!(utc_date_time_to_string(t), "1989-12-31T23:59:59");
    let t = secs_since_1990_01_01_0_to_utcdatetime(1_000_000_000);
    assert_eq!(utc_date_time_to_string(t), "2021-09-09T01:46:40");
    assert_eq!(t.nanosecond(), 0);
}

#[test]
fn first_n_chars() {
    assert_eq!(string_first_n_chars("hello world".to_string(), 5), "hello");
    assert_eq!(string_first_n_chars("hello".to_string(), 5), "hello");
    assert_eq!(string_first_n_chars("hi".to_string(), 5), "hi");
    assert_eq!(string_first_n_chars("".to_string(), 0), "");
    assert_eq!(string_first_n_chars("abc".to_string(), 0), "");
    assert_eq!(string_first_n_chars("-12.3456".to_string(), 5), "-12.3");
    assert_eq!(string_first_n_chars("ÅÆØåæø".to_string(), 3), "ÅÆØ");
}

#[test]
fn date_time_text_reads_back() {
    let dt = UtcDateTime::new(987, 6, 5, 4, 3, 2, 1).unwrap();
    let text = utc_date_time_to_string(dt);
    let field = |a: usize, b: usize| text[a..b].parse::<u32>().unwrap();
    assert_eq!(
        (field(0, 4), field(5, 7), field(8, 10), field(11, 13), field(14, 16), field(17, 19)),
        (987, 6, 5, 4, 3, 2)
    );
}

#[test]
fn date_time_text_order_is_time_order() {
    let times = [
        UtcDateTime::new(0, 1, 1, 0, 0, 0, 0).unwrap(),
        UtcDateTime::new(999, 12, 31, 23, 59, 59, 0).unwrap(),
        UtcDateTime::new(1000, 1, 1, 0, 0, 0, 0).unwrap(),
        UtcDateTime::new(2024, 2, 9, 10, 0, 0, 0).unwrap(),
        UtcDateTime::new(2024, 10, 1, 9, 0, 0, 0).unwrap(),
        UtcDateTime::new(2024, 10, 1, 9, 0, 1, 0).unwrap(),
    ];
    for i in 0..times.len() {
        for j in 0..times.len() {
            let (a, b) = (utc_date_time_to_string(times[i]), utc_date_time_to_string(times[j]));
            assert_eq!(a < b, i < j);
        }
    }
}
