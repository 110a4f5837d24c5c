//! Text, paths and spans of time.

use pee::processes::parse_table;
use pee::text::{is_blank, is_text, join3, join_path, same, strip_prefix, OsText};
use pee::time::Duration;

#[test]
fn white_space_is_what_the_standard_library_says() {
    for n in 0..=0x10_ffffu32 {
        if let Some(c) = char::from_u32(n) {
            let text = c.to_string();
            assert_eq!(is_blank(&text), text.trim().is_empty(), "{n:x}");
        }
    }
    assert!(is_blank(""));
    assert!(!is_blank(" a "));
}

#[test]
fn raw_text_is_read_where_it_is_utf8() {
    assert_eq!(OsText::from_text("h\u{e9}").to_str(), Some("h\u{e9}"));
    assert_eq!(OsText { bytes: vec![0xc3] }.to_str(), None);
    assert_eq!(OsText { bytes: vec![0xc3] }.to_string_lossy(), "\u{fffd}");
    assert_eq!(OsText::from_text("abc").to_string_lossy(), "abc");
    assert!(OsText { bytes: Vec::new() }.is_empty());
    assert!(!OsText::from_text("x").is_empty());
}

#[test]
fn texts_are_compared_and_cut() {
    assert!(same("a\u{e9}", "a\u{e9}"));
    assert!(!same("a", "ab"));
    assert!(!same("a", "b"));
    assert!(is_text(Some("x"), "x"));
    assert!(!is_text(Some("y"), "x"));
    assert!(!is_text(None, "x"));
    assert_eq!(strip_prefix("-p=\u{e9}", "-p="), Some("\u{e9}"));
    assert_eq!(strip_prefix("-p", "-p="), None);
    assert_eq!(strip_prefix("-q=x", "-p="), None);
    assert_eq!(join3("a", "b", "c"), "abc");
}

#[test]
fn paths_are_joined_as_the_standard_library_does() {
    for base in ["", "/", "/tmp", "/tmp/", "rel"] {
        for leaf in ["x", "/abs", "", "a/b"] {
            let expected = std::path::Path::new(base).join(leaf);
            assert_eq!(
                join_path(&OsText::from_text(base), leaf),
                OsText::from_text(expected.to_str().unwrap()),
                "{base:?} {leaf:?}"
            );
        }
    }
}

#[test]
fn spans_are_converted_and_clamped() {
    assert_eq!(Duration::from_secs(2).nanos, 2_000_000_000);
    assert_eq!(Duration::from_millis(3).nanos, 3_000_000);
    assert_eq!(Duration { nanos: 1_999_999 }.saturating_millis(), 1);
    assert_eq!(Duration { nanos: 1_999 }.saturating_micros(), 1);
    assert_eq!(Duration { nanos: u128::MAX }.saturating_millis(), u64::MAX);
    assert_eq!(Duration { nanos: u128::MAX }.saturating_micros(), u64::MAX);
    assert_eq!(
        Duration::from_secs(3).since(Duration::from_secs(1)),
        Duration::from_secs(2)
    );
    assert_eq!(
        Duration::from_secs(1).since(Duration::from_secs(3)),
        Duration::from_secs(0)
    );
    assert!(Duration::from_secs(0).is_zero());
    assert!(!Duration { nanos: 1 }.is_zero());
}

#[test]
fn counting_keeps_the_order() {
    let spans = [0, 999, 1_000, 999_999, 1_000_000, u128::from(u64::MAX) * 1_000, u128::MAX];
    for pair in spans.windows(2) {
        let (earlier, later) = (Duration { nanos: pair[0] }, Duration { nanos: pair[1] });
        assert!(earlier.saturating_micros() <= later.saturating_micros());
        assert!(earlier.saturating_millis() <= later.saturating_millis());
    }
}

#[test]
fn the_waits_are_fixed() {
    assert_eq!(pee::session::PROMPT_GRACE_MS, 50);
    assert_eq!(pee::session::DRAIN_GRACE_MS, 120);
    assert_eq!(pee::session::POLL_INTERVAL_MS, 20);
    assert_eq!(pee::inject::QUIESCE_POLL_INTERVAL_MS, 50);
    assert_eq!(pee::hook::POLL_INTERVAL_MS, 50);
    assert_eq!(pee::transcript::POLL_INTERVAL_MS, 100);
}

#[test]
fn numbers_are_decimal() {
    assert!(parse_table("+1 02").is_some());
    assert!(parse_table("1 -2").is_none());
    assert!(parse_table("1 0x2").is_none());
}
