//! The course of a one-shot prompt.

use pee::hook::Wait;
use pee::inject::{run, wait_for_quiescence, write_payload, Ctx, Report, Stroke, Task};
use pee::time::Duration;

fn wrote(text: &str) -> Stroke {
    Stroke::Write(text.to_owned())
}

#[test]
fn without_a_delay_everything_is_typed_at_once() {
    let zero = Duration::from_millis(0);
    assert_eq!(
        write_payload("h\u{e9}", zero),
        vec![wrote("h\u{e9}"), Stroke::Flush]
    );
    assert_eq!(write_payload("", zero), vec![wrote(""), Stroke::Flush]);
}

#[test]
fn with_a_delay_characters_are_typed_one_by_one() {
    let delay = Duration::from_millis(5);
    assert_eq!(
        write_payload("h\u{e9}y", delay),
        vec![
            wrote("h"),
            Stroke::Flush,
            Stroke::Pause,
            wrote("\u{e9}"),
            Stroke::Flush,
            Stroke::Pause,
            wrote("y"),
            Stroke::Flush,
            Stroke::Flush,
        ]
    );
    assert_eq!(
        write_payload("x", delay),
        vec![wrote("x"), Stroke::Flush, Stroke::Flush]
    );
    assert_eq!(write_payload("", delay), vec![Stroke::Flush]);
}

#[test]
fn what_is_typed_is_the_text() {
    let text = "a long \u{1f600} prompt\r";
    for delay in [0, 1] {
        let strokes = write_payload(text, Duration::from_millis(delay));
        let mut typed = String::new();
        let mut pauses = 0;
        for stroke in &strokes {
            match stroke {
                Stroke::Write(part) => typed.push_str(part),
                Stroke::Pause => pauses += 1,
                Stroke::Flush => {}
            }
        }
        assert_eq!(typed, text);
        assert_eq!(strokes.last(), Some(&Stroke::Flush));
        let expected = if delay == 0 { 0 } else { text.chars().count() - 1 };
        assert_eq!(pauses, expected);
    }
}

#[test]
fn the_screen_is_quiet_after_the_threshold() {
    let threshold = Duration::from_millis(1);
    assert_eq!(wait_for_quiescence(false, 0, 9_000, threshold), Wait::Again);
    assert_eq!(wait_for_quiescence(false, 1_000, 1_999, threshold), Wait::Again);
    assert_eq!(wait_for_quiescence(false, 1_000, 2_000, threshold), Wait::Ready);
    assert_eq!(wait_for_quiescence(false, 3_000, 1_000, threshold), Wait::Again);
    assert_eq!(wait_for_quiescence(true, 1_000, 2_000, threshold), Wait::Cancelled);
}

#[test]
fn a_prompt_runs_its_course() {
    let mut ctx = Ctx::new(
        "hi".to_owned(),
        Duration::from_millis(0),
        Duration::from_millis(1),
    );
    assert_eq!(ctx.task, Task::WatchScreen);
    assert!(ctx.strokes().is_empty());
    let early = Report::Screen { stopped: false, last_us: 1, now_us: 2 };
    assert!(run(&mut ctx, early));
    assert!(!run(
        &mut ctx,
        Report::Screen { stopped: false, last_us: 1, now_us: 1_001 }
    ));
    assert_eq!(ctx.strokes(), vec![wrote("hi\r"), Stroke::Flush]);
    assert!(!run(&mut ctx, Report::Typed));
    assert_eq!(ctx.task, Task::Announce);
    assert!(!run(&mut ctx, Report::Announced));
    let absent = Report::Sentinel { exists: false, stopped: false };
    assert!(run(&mut ctx, absent));
    assert!(!run(&mut ctx, Report::Sentinel { exists: true, stopped: false }));
    assert_eq!(ctx.strokes(), vec![wrote("/exit\r\n"), Stroke::Flush]);
    assert!(!run(&mut ctx, Report::Typed));
    assert_eq!(ctx.task, Task::Done);
    assert!(run(&mut ctx, Report::Typed));
}

#[test]
fn nothing_is_typed_once_the_child_is_gone() {
    let fresh = || {
        Ctx::new(
            "hi".to_owned(),
            Duration::from_millis(0),
            Duration::from_millis(1),
        )
    };
    let mut ctx = fresh();
    run(&mut ctx, Report::Screen { stopped: true, last_us: 1, now_us: 9_999 });
    assert_eq!(ctx.task, Task::Done);
    let mut ctx = fresh();
    ctx.task = Task::WatchSentinel;
    run(&mut ctx, Report::Sentinel { exists: false, stopped: true });
    assert_eq!(ctx.task, Task::Done);
}

#[test]
fn a_report_that_answers_nothing_changes_nothing() {
    let mut ctx = Ctx::new(
        "hi".to_owned(),
        Duration::from_millis(0),
        Duration::from_millis(1),
    );
    for report in [
        Report::Typed,
        Report::Announced,
        Report::Sentinel { exists: true, stopped: true },
    ] {
        assert!(run(&mut ctx, report));
        assert_eq!(ctx.task, Task::WatchScreen);
    }
}
