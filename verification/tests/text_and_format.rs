use std::time::{Duration, UNIX_EPOCH};
use reddit_cli::clock::{clock_reading_from, whole_seconds_since, ClockReading, EARLIEST_TIMESTAMP, LATEST_TIMESTAMP};
use reddit_cli::format::{
    age_label, format_account_age, format_age_at, format_number, format_time_ago, format_time_ago_at,
    time_ago_label,
};
use reddit_cli::sanitize::sanitize;
use reddit_cli::text::{i64_to_decimal, split_lines, u64_to_decimal};

#[test]
fn sanitize_keeps_plain_text() {
    assert_eq!(sanitize("Hello, world! ünïcödé 🦀"), "Hello, world! ünïcödé 🦀");
    assert_eq!(sanitize("line one\nline two\tcol"), "line one\nline two\tcol");
    assert_eq!(sanitize(""), "");
}

#[test]
fn sanitize_removes_csi_sequences() {
    assert_eq!(sanitize("\x1b[31mred\x1b[0m text"), "red text");
    assert_eq!(sanitize("a\x1b[2~b"), "ab");
    assert_eq!(sanitize("\u{9b}2Jcleared"), "cleared");
    assert_eq!(sanitize("cut\x1b[12;3"), "cut");
}

#[test]
fn sanitize_removes_osc_and_dcs_strings() {
    assert_eq!(sanitize("\x1b]0;evil title\x07after"), "after");
    assert_eq!(sanitize("\x1b]8;;http://x\x1b\\link\x1b]8;;\x1b\\"), "link");
    assert_eq!(sanitize("\x1bPpayload\x1b\\ok"), "ok");
    assert_eq!(sanitize("\x1b]unterminated"), "");
    assert_eq!(sanitize("\x1bPdcs\x1bXrest"), "Xrest");
}

#[test]
fn sanitize_removes_other_escapes_and_controls() {
    assert_eq!(sanitize("\x1bcX"), "X");
    assert_eq!(sanitize("end\x1b"), "end");
    assert_eq!(sanitize("a\x00b\x07c\rd\x7fe\u{85}f"), "abcdef");
}

#[test]
fn sanitize_is_idempotent_on_example() {
    let once = sanitize("\x1b[1mbold\x1b[0m\x1b]2;t\x07 and \u{9b}0m done\r\n");
    assert_eq!(once, "bold and  done\n");
    assert_eq!(sanitize(&once), once);
}

#[test]
fn decimal_conversions() {
    assert_eq!(u64_to_decimal(0), "0");
    assert_eq!(u64_to_decimal(18446744073709551615), "18446744073709551615");
    assert_eq!(i64_to_decimal(-42), "-42");
    assert_eq!(i64_to_decimal(i64::MIN), "-9223372036854775808");
}

#[test]
fn format_number_groups_thousands() {
    assert_eq!(format_number(0), "0");
    assert_eq!(format_number(999), "999");
    assert_eq!(format_number(1000), "1,000");
    assert_eq!(format_number(1234), "1,234");
    assert_eq!(format_number(12345), "12,345");
    assert_eq!(format_number(1234567), "1,234,567");
    assert_eq!(format_number(100000), "100,000");
    assert_eq!(format_number(-1234), "-1,234");
    assert_eq!(format_number(-999), "-999");
    assert_eq!(format_number(i64::MAX), "9,223,372,036,854,775,807");
    assert_eq!(format_number(i64::MIN), "-9,223,372,036,854,775,808");
}

#[test]
fn format_number_digits_match_decimal() {
    for n in [0i64, 7, 1001, 65536, -1000000, 987654321] {
        assert_eq!(format_number(n).replace(',', ""), n.to_string());
    }
}

#[test]
fn time_ago_buckets() {
    assert_eq!(time_ago_label(-5), "-5s ago");
    assert_eq!(time_ago_label(0), "0s ago");
    assert_eq!(time_ago_label(59), "59s ago");
    assert_eq!(time_ago_label(60), "1m ago");
    assert_eq!(time_ago_label(3599), "59m ago");
    assert_eq!(time_ago_label(3600), "1h ago");
    assert_eq!(time_ago_label(86399), "23h ago");
    assert_eq!(time_ago_label(86400), "1d ago");
    assert_eq!(time_ago_label(2591999), "29d ago");
    assert_eq!(time_ago_label(2592000), "1mo ago");
    assert_eq!(time_ago_label(31535999), "12mo ago");
    assert_eq!(time_ago_label(31536000), "1y ago");
    assert_eq!(time_ago_label(i64::MAX), "292471208677y ago");
    assert_eq!(time_ago_label(i64::MIN), "-9223372036854775808s ago");
}

#[test]
fn format_time_ago_out_of_range_is_unknown() {
    assert_eq!(format_time_ago(EARLIEST_TIMESTAMP - 1), "unknown");
    assert_eq!(format_time_ago(LATEST_TIMESTAMP + 1), "unknown");
    assert_eq!(format_time_ago(i64::MIN), "unknown");
    assert_eq!(format_time_ago(i64::MAX), "unknown");
}

#[test]
fn format_time_ago_at_range_bounds() {
    let old = format_time_ago(EARLIEST_TIMESTAMP);
    assert!(old.ends_with("y ago"), "{}", old);
    let future = format_time_ago(LATEST_TIMESTAMP);
    assert!(future.starts_with('-') && future.ends_with("s ago"), "{}", future);
}

#[test]
fn format_time_ago_recent() {
    let now = chrono::Utc::now().timestamp();
    assert_eq!(format_time_ago(now - 7230), "2h ago");
    assert_eq!(format_time_ago(now - 3 * 86400 - 100), "3d ago");
}

#[test]
fn split_lines_like_std() {
    for text in ["", "a", "a\n", "a\nb", "a\r\nb\r\n", "\n\n", "x\ry", "end\r", "\r\n", "a\n\nb"] {
        let expected: Vec<String> = text.lines().map(|l| l.to_string()).collect();
        assert_eq!(split_lines(text), expected, "{:?}", text);
    }
}

#[test]
fn whole_seconds_agree_with_chrono() {
    let readings = [(1_700_000_000i64, 0u32), (1_700_000_000, 999_999_999), (0, 1), (-86_400, 500), (1, 0)];
    let createds = [1_600_000_000i64, 1_700_000_000, 1_700_000_001, 1_800_000_000, 0, -1, EARLIEST_TIMESTAMP, LATEST_TIMESTAMP];
    for &(secs, nanos) in readings.iter() {
        let now = ClockReading { secs, nanos };
        let chrono_now = chrono::DateTime::from_timestamp(secs, nanos).unwrap();
        for &created in createds.iter() {
            let chrono_created = chrono::DateTime::from_timestamp(created, 0).unwrap();
            let expected = (chrono_now - chrono_created).num_seconds();
            assert_eq!(whole_seconds_since(&now, created), expected, "{} {} {}", secs, nanos, created);
        }
    }
}

#[test]
fn time_ago_at_a_given_reading() {
    let now = ClockReading { secs: 1_700_000_000, nanos: 250 };
    assert_eq!(format_time_ago_at(1_700_000_000 - 7_230, &now), "2h ago");
    assert_eq!(format_time_ago_at(1_700_000_001, &now), "0s ago");
    assert_eq!(format_time_ago_at(1_700_000_010, &now), "-9s ago");
    assert_eq!(format_time_ago_at(i64::MIN, &now), "unknown");
}

#[test]
fn account_age_has_no_suffix() {
    assert_eq!(age_label(90), "1m");
    assert_eq!(age_label(5 * 31_536_000 + 100), "5y");
    assert_eq!(age_label(-3), "-3s");
    let now = ClockReading { secs: 1_700_000_000, nanos: 0 };
    assert_eq!(format_age_at(1_700_000_000 - 5 * 31_536_000 - 86_400, &now), "5y");
    assert_eq!(format_age_at(LATEST_TIMESTAMP + 1, &now), "unknown");
    let recent = chrono::Utc::now().timestamp() - 7_230;
    assert_eq!(format_account_age(recent), "2h");
    assert_eq!(format_account_age(i64::MAX), "unknown");
}

#[test]
fn clock_readings_match_chrono() {
    let spans = [(0u64, 0u32), (5, 7), (1_700_000_000, 999_999_999), (5, 0), (5, 250), (86_400, 1)];
    for &(secs, nanos) in spans.iter() {
        let d = Duration::new(secs, nanos);
        let after: chrono::DateTime<chrono::Utc> = (UNIX_EPOCH + d).into();
        let r = clock_reading_from(Ok((secs, nanos))).unwrap();
        assert_eq!((r.secs, r.nanos), (after.timestamp(), after.timestamp_subsec_nanos()));
        if secs > 0 || nanos > 0 {
            let before: chrono::DateTime<chrono::Utc> = (UNIX_EPOCH - d).into();
            let r = clock_reading_from(Err((secs, nanos))).unwrap();
            assert_eq!((r.secs, r.nanos), (before.timestamp(), before.timestamp_subsec_nanos()));
        }
    }
    assert!(clock_reading_from(Ok((LATEST_TIMESTAMP as u64 + 1, 0))).is_none());
    assert!(clock_reading_from(Ok((LATEST_TIMESTAMP as u64, 5))).is_some());
    assert!(clock_reading_from(Err(((-EARLIEST_TIMESTAMP) as u64, 0))).is_some());
    assert!(clock_reading_from(Err(((-EARLIEST_TIMESTAMP) as u64, 1))).is_none());
    assert!(clock_reading_from(Ok((1, 1_000_000_000))).is_none());
}

#[test]
fn sanitize_concatenation_example() {
    let a = "plain text \u{7} bell";
    let b = "\x1b[1mbold\x1b[0m and \u{9b}2Jmore";
    assert_eq!(sanitize(&format!("{}{}", a, b)), format!("{}{}", sanitize(a), sanitize(b)));
    // An escape at the end of the first part swallows the start of the second.
    assert_eq!(sanitize(&format!("{}{}", "x\x1b", "[1mY")), "xY");
    assert_ne!(format!("{}{}", sanitize("x\x1b"), sanitize("[1mY")), "xY");
}
