use orderbook_collector::schedule::{alignment_delay, interval_millis};
use orderbook_collector::storage::{envelope_line, RotationState};
use orderbook_collector::text::{
    append_decimal, append_digits, contains_text, trim_trailing_newlines,
};

fn decimal(value: i64) -> String {
    let mut out = String::from("n=");
    append_decimal(&mut out, value);
    out
}

#[test]
fn numerals_are_decimal() {
    assert_eq!(decimal(0), "n=0");
    assert_eq!(decimal(7), "n=7");
    assert_eq!(decimal(10), "n=10");
    assert_eq!(decimal(1_700_000_123), "n=1700000123");
    assert_eq!(decimal(-1), "n=-1");
    assert_eq!(decimal(-120), "n=-120");
    assert_eq!(decimal(i64::MAX), "n=9223372036854775807");
    assert_eq!(decimal(i64::MIN), "n=-9223372036854775808");
    let mut digits = String::new();
    append_digits(&mut digits, u64::MAX);
    assert_eq!(digits, "18446744073709551615");
    append_digits(&mut digits, 0);
    assert_eq!(digits, "184467440737095516150");
    for value in [1i64, 9, 11, 99, 100, 101, 999, 1000, 123_456_789] {
        assert_eq!(decimal(value), format!("n={}", value));
        assert_eq!(decimal(-value), format!("n=-{}", value));
    }
}

#[test]
fn trailing_line_breaks_are_dropped() {
    assert_eq!(trim_trailing_newlines(""), "");
    assert_eq!(trim_trailing_newlines("\n"), "");
    assert_eq!(trim_trailing_newlines("\n\n\n"), "");
    assert_eq!(trim_trailing_newlines("abc"), "abc");
    assert_eq!(trim_trailing_newlines("abc\n"), "abc");
    assert_eq!(trim_trailing_newlines("abc\n\n"), "abc");
    assert_eq!(trim_trailing_newlines("a\nb\n"), "a\nb");
    assert_eq!(trim_trailing_newlines("\nabc"), "\nabc");
    assert_eq!(trim_trailing_newlines("abc\r\n"), "abc\r");
    assert_eq!(trim_trailing_newlines("abc \n"), "abc ");
    assert_eq!(trim_trailing_newlines("\u{20ac}\u{00e9}\n"), "\u{20ac}\u{00e9}");
}

#[test]
fn one_text_is_found_in_another() {
    assert!(contains_text("abc", ""));
    assert!(contains_text("", ""));
    assert!(!contains_text("", "a"));
    assert!(contains_text("abc", "abc"));
    assert!(contains_text("abc", "a"));
    assert!(contains_text("abc", "bc"));
    assert!(contains_text("abc", "c"));
    assert!(!contains_text("abc", "abcd"));
    assert!(!contains_text("abc", "ac"));
    assert!(contains_text("aaab", "aab"));
    assert!(contains_text("{\"code\":-1121}", "\"code\":-"));
    assert!(!contains_text("{\"code\":1121}", "\"code\":-"));
    assert!(contains_text("\u{20ac}x\u{00e9}y", "x\u{00e9}"));
    assert!(!contains_text("\u{20ac}x\u{00e9}y", "xy"));
}

#[test]
fn the_wait_ends_on_the_next_boundary() {
    assert_eq!(alignment_delay(0, 1000), 0);
    assert_eq!(alignment_delay(1, 1000), 999);
    assert_eq!(alignment_delay(999, 1000), 1);
    assert_eq!(alignment_delay(1000, 1000), 0);
    assert_eq!(alignment_delay(1_700_000_000_250, 1000), 750);
    assert_eq!(alignment_delay(1_700_000_001_250, 2000), 750);
    assert_eq!(alignment_delay(1_700_000_000_250, 2000), 1750);
    assert_eq!(alignment_delay(5, 1), 0);
    assert_eq!(alignment_delay(-1, 1000), 1);
    assert_eq!(alignment_delay(-999, 1000), 999);
    assert_eq!(alignment_delay(-1000, 1000), 0);
    assert_eq!(alignment_delay(-1001, 1000), 1);
    assert_eq!(alignment_delay(i64::MIN, 1 << 63), 0);
    assert_eq!(alignment_delay(i64::MIN, u64::MAX), 1 << 63);
    assert_eq!(alignment_delay(i64::MAX, u64::MAX), 1 << 63);
    assert_eq!(alignment_delay(i64::MAX, 1 << 63), 1);
    for now in -5_000i64..5_000 {
        for interval in [1u64, 2, 3, 7, 1000, 2000] {
            let delay = alignment_delay(now, interval);
            assert!(delay < interval);
            assert_eq!((now + delay as i64).rem_euclid(interval as i64), 0);
        }
    }
}

#[test]
fn intervals_are_counted_in_milliseconds() {
    assert_eq!(interval_millis(0), Some(0));
    assert_eq!(interval_millis(1), Some(1000));
    assert_eq!(interval_millis(2), Some(2000));
    assert_eq!(
        interval_millis(u64::MAX / 1000),
        Some(u64::MAX / 1000 * 1000)
    );
    assert_eq!(interval_millis(u64::MAX / 1000 + 1), None);
    assert_eq!(interval_millis(u64::MAX), None);
}

#[test]
fn a_later_hour_opens_a_new_file() {
    let mut files = RotationState::new("data/X/A_B".to_string());
    assert_eq!(files.directory(), "data/X/A_B");
    assert_eq!(files.current_file_path(), "data/X/A_B");
    assert_eq!(files.last_bucket_timestamp(), 0);
    assert!(files.place(1_700_000_123));
    assert_eq!(files.current_file_path(), "data/X/A_B/1699999200.json");
    assert_eq!(files.last_bucket_timestamp(), 1_699_999_200);
    assert!(!files.place(1_700_000_124));
    assert!(!files.place(1_700_002_799));
    assert_eq!(files.current_file_path(), "data/X/A_B/1699999200.json");
    assert!(files.place(1_700_002_800));
    assert_eq!(files.current_file_path(), "data/X/A_B/1700002800.json");
    assert_eq!(files.last_bucket_timestamp(), 1_700_002_800);
    assert_eq!(files.directory(), "data/X/A_B");
}

#[test]
fn an_earlier_hour_opens_none() {
    let mut files = RotationState::new("d".to_string());
    assert!(!files.place(0));
    assert!(!files.place(3599));
    assert!(!files.place(-1));
    assert!(!files.place(-3601));
    assert!(!files.place(i64::MIN));
    assert_eq!(files.current_file_path(), "d");
    assert_eq!(files.last_bucket_timestamp(), 0);
    assert!(files.place(3600));
    assert_eq!(files.current_file_path(), "d/3600.json");
    assert!(files.place(i64::MAX));
    let last = i64::MAX / 3600 * 3600;
    assert_eq!(files.last_bucket_timestamp(), last);
    assert_eq!(files.current_file_path(), format!("d/{}.json", last));
    assert!(!files.place(7200));
    assert!(!files.place(-7200));
    assert_eq!(files.last_bucket_timestamp(), last);
}

#[test]
fn rotated_leaves_the_state_as_it_is() {
    let files = RotationState::new("d".to_string());
    assert!(files.rotated(100).is_none());
    let next = files.rotated(7300).unwrap();
    assert_eq!(next.current_file_path(), "d/7200.json");
    assert_eq!(next.last_bucket_timestamp(), 7200);
    assert_eq!(next.directory(), "d");
    assert_eq!(files.current_file_path(), "d");
    assert_eq!(files.last_bucket_timestamp(), 0);
    assert!(next.rotated(7300).is_none());
    assert!(next.rotated(10_799).is_none());
    assert!(next.rotated(10_800).is_some());
}

#[test]
fn a_snapshot_is_stored_as_one_line() {
    assert_eq!(
        envelope_line(1_700_000_123, "{\"bids\":[],\"asks\":[]}"),
        "{\"time\": 1700000123, \"response\": {\"bids\":[],\"asks\":[]}}"
    );
    assert_eq!(
        envelope_line(1_700_000_123, "{\"bids\":[]}\n\n"),
        "{\"time\": 1700000123, \"response\": {\"bids\":[]}}"
    );
    assert_eq!(envelope_line(0, ""), "{\"time\": 0, \"response\": }");
    assert_eq!(envelope_line(-5, "x\ny"), "{\"time\": -5, \"response\": x\ny}");
}
