use motrix::format::{format_bytes, format_eta, format_speed};
use motrix::activity::ActivityLog;
use motrix::config::AppConfig;
use motrix::forms::task_options;
use motrix::state::AppState;
use motrix::text::{
    chars_of, contains_str, find_first, find_last, i64_to_decimal, lines, string_from_chars, trim,
    u64_to_decimal, white_space,
};
use motrix::types::{p64, Task, TaskStatus};

/// The float formula that the byte labels follow.
fn float_label(bytes: u64) -> String {
    let units = ["B", "KB", "MB", "GB", "TB", "PB"];
    if bytes == 0 {
        return "0 B".to_string();
    }
    let mut value = bytes as f64;
    let mut unit = 0;
    while value >= 1024.0 && unit < units.len() - 1 {
        value /= 1024.0;
        unit += 1;
    }
    if unit == 0 {
        format!("{} {}", bytes, units[0])
    } else {
        format!("{:.1} {}", value, units[unit])
    }
}

#[test]
fn format_bytes_known_values() {
    assert_eq!(format_bytes(0), "0 B");
    assert_eq!(format_bytes(1), "1 B");
    assert_eq!(format_bytes(1023), "1023 B");
    assert_eq!(format_bytes(1024), "1.0 KB");
    assert_eq!(format_bytes(1280), "1.2 KB");
    assert_eq!(format_bytes(1536), "1.5 KB");
    assert_eq!(format_bytes(1048576), "1.0 MB");
    assert_eq!(format_bytes(5 * 1024 * 1024 * 1024), "5.0 GB");
    assert_eq!(format_bytes(u64::MAX), "16384.0 PB");
}

#[test]
fn format_bytes_matches_float_formula() {
    let mut samples: Vec<u64> = Vec::new();
    for k in 0..64u32 {
        let p = 1u64 << k;
        for d in [0u64, 1, 2, 3, 51, 52, 102, 103, 512] {
            samples.push(p.wrapping_add(d));
            samples.push(p.wrapping_sub(d));
            samples.push(p.wrapping_mul(5).wrapping_add(d));
        }
    }
    for n in 0..5000u64 {
        samples.push(n * 37);
        samples.push(n * 1024 + n % 1024);
        samples.push(n.wrapping_mul(0x9E37_79B9_7F4A_7C15));
        samples.push(1024 * (1024 * 10 + n));
    }
    // Exact halves between tenths: ties in the float division.
    for t in 0..200u64 {
        samples.push(1024 * t + 51);
        samples.push((1024 * t + 512) / 10 * 10);
        samples.push(1024 * 1024 * t + 1024 * 1024 / 20);
    }
    samples.push(u64::MAX);
    samples.push(u64::MAX - 1);
    for b in samples {
        assert_eq!(format_bytes(b), float_label(b), "bytes {b}");
    }
}

#[test]
fn format_speed_appends_per_second() {
    assert_eq!(format_speed(0), "0 B/s");
    assert_eq!(format_speed(2048), "2.0 KB/s");
    assert_eq!(format_speed(999), "999 B/s");
}

#[test]
fn format_eta_ranges() {
    assert_eq!(format_eta(0), "0s");
    assert_eq!(format_eta(59), "59s");
    assert_eq!(format_eta(60), "1m 0s");
    assert_eq!(format_eta(3599), "59m 59s");
    assert_eq!(format_eta(3600), "1h 0m");
    assert_eq!(format_eta(86399), "23h 59m");
    assert_eq!(format_eta(86400), "1d 0h");
    assert_eq!(format_eta(90061), "1d 1h");
    assert_eq!(format_eta(u64::MAX), format!("{}d {}h", u64::MAX / 86400, (u64::MAX % 86400) / 3600));
}

#[test]
fn decimal_parsing_follows_std() {
    let inputs = [
        "0", "42", "+7", "-1", "", " 1", "18446744073709551615", "18446744073709551616", "4294967296",
        "4294967295", "1a", "+", "-", "-0", "-9223372036854775808", "9223372036854775808",
    ];
    for s in inputs {
        assert_eq!(p64(&Some(s.to_string())), s.parse::<u64>().unwrap_or(0), "{s:?}");
        let split: Vec<(String, String)> = task_options(&"/d".to_string(), "", s)
            .into_iter()
            .filter(|(k, _)| k == "split")
            .collect();
        let expected = s.trim().parse::<u32>().ok().filter(|n| *n > 0);
        assert_eq!(split.first().map(|(_, v)| v.clone()), expected.map(|n| n.to_string()), "{s:?}");
        let entries = ActivityLog::from_entries(vec![(s.to_string(), 1)]).to_entries();
        let day = s.parse::<i64>().ok();
        assert_eq!(entries.first().map(|(k, _)| k.clone()), day.map(|d| d.to_string()), "{s:?}");
    }
}

#[test]
fn decimal_printing_follows_std() {
    for n in [0u64, 9, 10, 12345, u64::MAX] {
        assert_eq!(u64_to_decimal(n), n.to_string());
    }
    for n in [0i64, -1, 7, -9000, i64::MIN, i64::MAX] {
        assert_eq!(i64_to_decimal(n), n.to_string());
    }
}

#[test]
fn trim_and_lines_follow_std() {
    let inputs = [
        "",
        "  a b  ",
        "\t\nx\r\n",
        "\u{3000}wide\u{2003}",
        "no-space",
        "a\nb\r\nc",
        "a\n\nb\n",
        "\n",
        "x\r",
        "tail\r\n",
    ];
    for s in inputs {
        assert_eq!(trim(s), s.trim(), "{s:?}");
        let expected: Vec<String> = s.lines().map(|l| l.to_string()).collect();
        assert_eq!(lines(s), expected, "{s:?}");
    }
    for c in [' ', '\t', '\u{85}', '\u{a0}', '\u{2028}', 'a', '0', '\u{200b}'] {
        assert_eq!(white_space(c), c.is_whitespace(), "{c:?}");
    }
}

#[test]
fn search_helpers() {
    assert!(contains_str("ubuntu.iso", "tu.i"));
    assert!(contains_str("abc", ""));
    assert!(!contains_str("abc", "abcd"));
    let v = chars_of("a/b/c");
    assert_eq!(find_last(&v, '/'), Some(3));
    assert_eq!(find_first(&v, '/'), Some(1));
    assert_eq!(find_first(&v, 'z'), None);
    assert_eq!(string_from_chars(&v, 2, 5), "b/c");
}

#[test]
fn search_ignores_case() {
    let mut st = AppState::new(AppConfig::default_in("/d".to_string()), false, ActivityLog::new());
    let mut t = Task {
        gid: "1".to_string(),
        name: "ÄBC Iso".to_string(),
        status: TaskStatus::Active,
        total_length: 0,
        completed_length: 0,
        upload_length: 0,
        download_speed: 0,
        upload_speed: 0,
        connections: 0,
        num_seeders: 0,
        dir: String::new(),
        file_path: None,
        file_count: 1,
        is_bt: false,
        error_message: None,
        uri: None,
    };
    st.tasks = vec![t.clone()];
    st.search_query = "äbc I".to_string();
    assert_eq!(st.filtered_tasks().len(), 1);
    t.name = "other".to_string();
    st.tasks = vec![t];
    assert_eq!(st.filtered_tasks().len(), 0);
}
