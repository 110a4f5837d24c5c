//! The child's command line and its screen.

use pee::child::{build_command, child_exec, drain, now_micros, Drained, Screen};
use pee::text::OsText;

#[test]
fn the_environment_names_the_program() {
    assert_eq!(child_exec(None, "tool"), OsText::from_text("tool"));
    assert_eq!(
        child_exec(Some(OsText::from_text("")), "tool"),
        OsText::from_text("tool")
    );
    assert_eq!(
        child_exec(Some(OsText::from_text("/bin/x")), "tool"),
        OsText::from_text("/bin/x")
    );
}

#[test]
fn the_session_and_the_settings_come_first() {
    let forwarded = vec![OsText::from_text("--permission-mode"), OsText { bytes: vec![0xff] }];
    let argv = build_command(OsText::from_text("tool"), &forwarded, "id", "{}");
    assert_eq!(
        argv,
        vec![
            OsText::from_text("tool"),
            OsText::from_text("--session-id"),
            OsText::from_text("id"),
            OsText::from_text("--settings"),
            OsText::from_text("{}"),
            OsText::from_text("--permission-mode"),
            OsText { bytes: vec![0xff] },
        ]
    );
}

#[test]
fn the_clock_does_not_run_backwards() {
    let start = std::time::Instant::now();
    let first = now_micros(start);
    let second = now_micros(start);
    assert!(first <= second);
}

#[test]
fn a_change_on_the_screen_is_seen() {
    let mut screen = Screen::new();
    assert_eq!(drain(&mut screen, b"hello"), Drained::Changed);
    assert_eq!(drain(&mut screen, b"\x1b[Hhello"), Drained::Unchanged);
    assert_eq!(drain(&mut screen, b"\x1b[Hworld"), Drained::Changed);
    assert_eq!(drain(&mut screen, b"\x07"), Drained::Unchanged);
    assert_eq!(drain(&mut screen, b""), Drained::Closed);
    assert_eq!(drain(&mut screen, b"\x1b[2J"), Drained::Changed);
}

#[test]
fn the_screen_is_24_by_80() {
    let mut screen = Screen::new();
    assert_eq!(drain(&mut screen, b"\x1b[25;1H\x1b[24;1Hx"), Drained::Changed);
    assert_eq!(drain(&mut screen, b"\x1b[99;1Hx"), Drained::Unchanged);
    assert_eq!(drain(&mut screen, b"\x1b[1;80Hy"), Drained::Changed);
    assert_eq!(drain(&mut screen, b"\x1b[1;99Hy"), Drained::Unchanged);
}

#[test]
fn a_wide_character_at_the_edge_is_written() {
    let mut screen = Screen::new();
    let line = "x".repeat(79) + "\u{17d8}";
    assert_eq!(drain(&mut screen, line.as_bytes()), Drained::Changed);
    assert_eq!(drain(&mut screen, b"\t\t\ty"), Drained::Changed);
}
