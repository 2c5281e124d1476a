use motrix::activity::{local_day, parse_utc_offset, ActivityLog};
use motrix::calendar::civil_from_days;

fn naive_days(y: i64, m: u32, d: u32) -> i64 {
    fn leap(y: i64) -> bool {
        y % 4 == 0 && (y % 100 != 0 || y % 400 == 0)
    }
    let mut days: i64 = 0;
    if y >= 1970 {
        for yy in 1970..y {
            days += if leap(yy) { 366 } else { 365 };
        }
    } else {
        for yy in y..1970 {
            days -= if leap(yy) { 366 } else { 365 };
        }
    }
    let lens = [31, if leap(y) { 29 } else { 28 }, 31, 30, 31, 30, 31, 31, 30, 31, 30, 31];
    for mm in 0..(m - 1) as usize {
        days += lens[mm];
    }
    days + d as i64 - 1
}

#[test]
fn civil_from_days_epoch_and_known_dates() {
    assert_eq!(civil_from_days(0), (1970, 1, 1));
    assert_eq!(civil_from_days(-1), (1969, 12, 31));
    assert_eq!(civil_from_days(11016), (2000, 2, 29));
    assert_eq!(civil_from_days(19723), (2024, 1, 1));
    assert_eq!(civil_from_days(-719468), (0, 3, 1));
}

#[test]
fn civil_from_days_round_trips_with_day_counting() {
    for z in (-800_000i64..800_000).step_by(997) {
        let (y, m, d) = civil_from_days(z);
        assert!((1..=12).contains(&m));
        assert!(d >= 1 && d <= 31);
        assert_eq!(naive_days(y, m, d), z, "day {z}");
    }
    for z in 10950..11100 {
        let (y, m, d) = civil_from_days(z);
        assert_eq!(naive_days(y, m, d), z);
    }
}

#[test]
fn local_day_divides_shifted_seconds() {
    assert_eq!(local_day(0, 0), 0);
    assert_eq!(local_day(86399, 0), 0);
    assert_eq!(local_day(86400, 0), 1);
    assert_eq!(local_day(86000, 3600), 1);
    assert_eq!(local_day(1_700_000_000, 19800), (1_700_000_000i64 + 19800) / 86400);
    // Rust division rounds toward zero before the epoch.
    assert_eq!(local_day(-10, 0), 0);
}

#[test]
fn utc_offset_from_date_output() {
    assert_eq!(parse_utc_offset("+0530\n"), Some(19800));
    assert_eq!(parse_utc_offset("-0800"), Some(-28800));
    assert_eq!(parse_utc_offset("+0000"), Some(0));
    assert_eq!(parse_utc_offset("+05"), None);
    assert_eq!(parse_utc_offset("+ab30"), None);
    assert_eq!(parse_utc_offset("  +0130  "), Some(5400));
    assert_eq!(parse_utc_offset("0200"), None);
    assert_eq!(parse_utc_offset("x0200"), Some(7200));
    assert_eq!(parse_utc_offset("-0030"), Some(-1800));
    assert_eq!(parse_utc_offset("+05\u{e9}0"), None);
    assert_eq!(parse_utc_offset("+0\u{e9}"), None);
    assert_eq!(parse_utc_offset("+\u{e9}30"), None);
}

#[test]
fn record_adds_bytes_to_the_day() {
    let mut log = ActivityLog::new();
    assert_eq!(log.bytes_on(100), 0);
    assert!(!log.record_on(100, 500));
    assert!(!log.record_on(100, 250));
    assert!(!log.record_on(101, 10));
    assert_eq!(log.bytes_on(100), 750);
    assert_eq!(log.bytes_on(101), 10);
    assert_eq!(log.bytes_on(99), 0);
    assert_eq!(log.total_bytes(), 760);
}

#[test]
fn record_asks_for_a_save_every_thirty_ticks() {
    let mut log = ActivityLog::new();
    // Idle ticks before any transfer are not counted.
    for _ in 0..100 {
        assert!(!log.record_on(5, 0));
    }
    let mut saves = Vec::new();
    for i in 0..90 {
        let bytes = if i % 2 == 0 { 1 } else { 0 };
        if log.record_on(5, bytes) {
            saves.push(i);
        }
    }
    assert_eq!(saves, vec![29, 59, 89]);
    assert_eq!(log.bytes_on(5), 45);
}

#[test]
fn entries_round_trip() {
    let entries = vec![
        ("19000".to_string(), 5u64),
        ("-3".to_string(), 7u64),
        ("oops".to_string(), 9u64),
        ("19000".to_string(), 6u64),
    ];
    let log = ActivityLog::from_entries(entries);
    assert_eq!(log.bytes_on(19000), 6);
    assert_eq!(log.bytes_on(-3), 7);
    assert_eq!(log.total_bytes(), 13);
    let mut out = log.to_entries();
    out.sort();
    assert_eq!(out, vec![("-3".to_string(), 7), ("19000".to_string(), 6)]);
}

#[test]
fn today_helpers_agree_with_the_clock() {
    let mut log = ActivityLog::new();
    let day = motrix::activity::today(0);
    let secs = std::time::SystemTime::now()
        .duration_since(std::time::UNIX_EPOCH)
        .unwrap()
        .as_secs() as i64;
    assert!((secs / 86400 - day).abs() <= 1);
    log.record_on(day, 42);
    let b = log.today_bytes(0);
    assert!(b == 42 || b == 0);
}

#[test]
fn idle_polls_after_a_save_do_not_count() {
    let mut log = ActivityLog::new();
    for i in 0..30 {
        assert_eq!(log.record_on(9, 2), i == 29);
    }
    for _ in 0..50 {
        assert!(!log.record_on(9, 0));
    }
    assert!(!log.record_on(9, 1));
    for i in 0..29 {
        assert_eq!(log.record_on(9, 0), i == 28);
    }
    assert_eq!(log.bytes_on(9), 61);
}
