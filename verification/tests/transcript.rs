//! The session transcript.

use pee::args::OutputFormat;
use pee::text::OsText;
use pee::time::Duration;
use pee::transcript::{
    candidate, completed_within, extract_message_text, find, handle_line, observe_line, run,
    run_observed, Observation, Step,
};

const REPLY: &str = r#"{"type":"assistant","message":{"type":"message","stop_reason":"end_turn","content":[{"type":"text","text":"Review"}]}}"#;

fn completed_at(elapsed_ms: u64) -> Observation {
    Observation {
        text: "review".to_owned(),
        complete: true,
        elapsed: Duration::from_millis(elapsed_ms),
    }
}

#[test]
fn completed_observation_is_accepted_below_and_at_but_not_above_deadline() {
    let deadline = Duration::from_secs(1);
    assert!(completed_within(&completed_at(999), deadline));
    assert!(completed_within(&completed_at(1_000), deadline));
    assert!(!completed_within(&completed_at(1_001), deadline));
}

#[test]
fn terminal_end_turn_text_is_complete() {
    let line = r#"{"type":"assistant","message":{"type":"message","stop_reason":"end_turn","content":[{"type":"text","text":"Review"}]}}"#;
    assert_eq!(
        observe_line(line, Duration::from_secs(1)),
        Some(Observation {
            text: "Review".to_owned(),
            complete: true,
            elapsed: Duration::from_secs(1),
        })
    );
}

#[test]
fn tool_use_turn_with_text_is_observed_but_not_complete() {
    let line = r#"{"type":"assistant","message":{"type":"message","stop_reason":"tool_use","content":[{"type":"text","text":"Checking"},{"type":"tool_use","name":"Read"}]}}"#;
    assert_eq!(
        observe_line(line, Duration::from_secs(1)),
        Some(Observation {
            text: "Checking".to_owned(),
            complete: false,
            elapsed: Duration::from_secs(1),
        })
    );
}

#[test]
fn thinking_tool_results_empty_text_and_malformed_lines_are_not_observed() {
    let elapsed = Duration::from_secs(0);
    assert!(observe_line(r#"{"type":"assistant","message":{"type":"message","stop_reason":"end_turn","content":[{"type":"thinking","thinking":"private"}]}}"#, elapsed).is_none());
    assert!(observe_line(r#"{"type":"tool_result","content":"private"}"#, elapsed).is_none());
    assert!(observe_line(r#"{"type":"assistant","message":{"type":"message","stop_reason":"end_turn","content":[{"type":"text","text":"  "}]}}"#, elapsed).is_none());
    assert!(observe_line("not json", elapsed).is_none());
}

#[test]
fn an_incomplete_reply_is_never_in_time() {
    let mut observation = completed_at(1);
    observation.complete = false;
    assert!(!completed_within(&observation, Duration::from_secs(1)));
}

#[test]
fn content_is_a_string_or_a_list_of_blocks() {
    let read = |text: &str| serde_json::from_str::<serde_json::Value>(text).unwrap();
    let blocks = read(
        r#"{"message":{"content":[{"text":"a"},{"text":7},{"thinking":"x"},{"text":"b"},"c"]}}"#,
    );
    assert_eq!(extract_message_text(&blocks), "ab");
    assert_eq!(
        extract_message_text(&read(r#"{"message":{"content":"whole"}}"#)),
        "whole"
    );
    assert_eq!(extract_message_text(&read(r#"{"message":{"content":7}}"#)), "");
    assert_eq!(extract_message_text(&read(r#"{"message":{}}"#)), "");
    assert_eq!(extract_message_text(&read(r#"{}"#)), "");
    assert_eq!(extract_message_text(&read(r#"[1]"#)), "");
}

#[test]
fn text_format_prints_the_reply() {
    assert_eq!(
        handle_line(REPLY, OutputFormat::Text).as_deref(),
        Some("Review")
    );
}

#[test]
fn json_format_prints_the_line() {
    assert_eq!(
        handle_line(REPLY, OutputFormat::Json).as_deref(),
        Some(REPLY)
    );
    assert_eq!(handle_line("{\"type\":\"user\"}", OutputFormat::Json), None);
    assert_eq!(handle_line("not json", OutputFormat::Json), None);
}

#[test]
fn streaming_prints_every_line() {
    for line in [REPLY, "{\"type\":\"user\"}", "not json", ""] {
        assert_eq!(
            handle_line(line, OutputFormat::StreamJson).as_deref(),
            Some(line)
        );
    }
}

#[test]
fn results_are_always_printed() {
    let line = r#"{"type":"result","result":"done"}"#;
    assert_eq!(handle_line(line, OutputFormat::Text).as_deref(), Some("done"));
    assert_eq!(handle_line(line, OutputFormat::Json).as_deref(), Some(line));
    let empty = r#"{"type":"result"}"#;
    assert_eq!(handle_line(empty, OutputFormat::Text).as_deref(), Some(""));
    assert_eq!(handle_line(empty, OutputFormat::Json).as_deref(), Some(empty));
}

#[test]
fn turns_without_text_are_skipped() {
    let thinking = r#"{"type":"assistant","message":{"type":"message","content":[{"type":"thinking","thinking":"x"}]}}"#;
    assert_eq!(handle_line(thinking, OutputFormat::Text), None);
    assert_eq!(handle_line(thinking, OutputFormat::Json), None);
}

#[test]
fn a_blank_reply_is_printed_but_not_observed() {
    let blank = r#"{"type":"assistant","message":{"type":"message","content":"  "}}"#;
    assert_eq!(handle_line(blank, OutputFormat::Text).as_deref(), Some("  "));
    assert_eq!(observe_line(blank, Duration::from_secs(0)), None);
}

#[test]
fn only_the_assistant_is_printed() {
    for line in [
        r#"{"type":"user","message":{"type":"message","content":"hi"}}"#,
        r#"{"message":{"type":"message","content":"hi"}}"#,
    ] {
        assert_eq!(handle_line(line, OutputFormat::Text), None);
        assert_eq!(handle_line(line, OutputFormat::Json), None);
        assert_eq!(
            handle_line(line, OutputFormat::StreamJson).as_deref(),
            Some(line)
        );
    }
    let line = r#"{"type":"assistant","message":{"type":"message","content":"hi"}}"#;
    assert_eq!(handle_line(line, OutputFormat::Text).as_deref(), Some("hi"));
    assert_eq!(handle_line(line, OutputFormat::Json).as_deref(), Some(line));
}

#[test]
fn lines_do_not_depend_on_how_they_come_in() {
    let text = "one\ntwo\n\nrest";
    for cuts in [vec![4, 8, 9], vec![1, 4, 6, 8, 9, 11], vec![2, 4, 8, 9]] {
        let mut tailer = run(OutputFormat::StreamJson);
        let mut lines = Vec::new();
        let mut from = 0;
        for to in cuts.into_iter().chain([text.len()]) {
            let step = tailer.tail(&text[from..to], false, Duration::from_secs(0));
            if let Step::Print(line) = step {
                lines.push(line);
            }
            tailer.tail("", false, Duration::from_secs(0));
            from = to;
        }
        assert_eq!(lines, vec!["one", "two", ""]);
        assert_eq!(tailer.pending, "rest");
    }
}

#[test]
fn only_the_assistant_is_observed() {
    let user = r#"{"type":"user","message":{"type":"message","stop_reason":"end_turn","content":"x"}}"#;
    assert_eq!(observe_line(user, Duration::from_secs(0)), None);
    let other = r#"{"type":"assistant","message":{"type":"other","content":"x"}}"#;
    assert_eq!(observe_line(other, Duration::from_secs(0)), None);
    assert_eq!(
        observe_line(r#"{"type":"assistant"}"#, Duration::from_secs(0)),
        None
    );
}

#[test]
fn escapes_are_read() {
    let line = r#"{"type":"assistant","message":{"type":"message","content":"a\nb\u00e9"}}"#;
    assert_eq!(
        handle_line(line, OutputFormat::Text).as_deref(),
        Some("a\nb\u{e9}")
    );
}

#[test]
fn transcripts_are_looked_for_at_home() {
    let home = Some(OsText::from_text("/home/u"));
    let projects = find(home, "tool").unwrap();
    assert_eq!(projects, OsText::from_text("/home/u/.tool/projects"));
    assert_eq!(find(None, "tool"), None);
    assert_eq!(find(Some(OsText::from_text("")), "tool"), None);
    assert_eq!(
        candidate(&OsText::from_text("/p/x"), "abc"),
        OsText::from_text("/p/x/abc.jsonl")
    );
}

#[test]
fn the_search_goes_on_until_the_child_is_gone() {
    let tailer = run(OutputFormat::Text);
    assert!(matches!(tailer.searched(true, true), Step::Read));
    assert!(matches!(tailer.searched(false, true), Step::Finish));
    assert!(matches!(tailer.searched(false, false), Step::SearchAgain));
}

#[test]
fn a_line_is_printed_once_it_is_whole() {
    let zero = Duration::from_secs(0);
    let mut tailer = run(OutputFormat::Text);
    let (front, back) = REPLY.split_at(20);
    assert!(matches!(tailer.tail(front, false, zero), Step::ReadAgain));
    let end = format!("{back}\n");
    match tailer.tail(&end, false, zero) {
        Step::Print(text) => assert_eq!(text, "Review"),
        other => panic!("{other:?}"),
    }
    assert!(tailer.pending.is_empty());
}

#[test]
fn what_is_left_is_read_once_more_when_the_child_is_gone() {
    let zero = Duration::from_secs(0);
    let mut tailer = run(OutputFormat::StreamJson);
    assert!(matches!(tailer.tail("", false, zero), Step::ReadAgain));
    assert!(matches!(tailer.tail("", true, zero), Step::Read));
    assert!(tailer.final_pass);
    match tailer.tail("late\n", true, zero) {
        Step::Print(text) => assert_eq!(text, "late"),
        other => panic!("{other:?}"),
    }
    assert!(matches!(tailer.tail("torn", true, zero), Step::Finish));
}

#[test]
fn observing_prints_nothing() {
    let mut tailer = run_observed();
    let line = format!("{REPLY}\n");
    match tailer.tail(&line, false, Duration::from_millis(7)) {
        Step::Deliver(observation) => assert_eq!(
            observation,
            Observation {
                text: "Review".to_owned(),
                complete: true,
                elapsed: Duration::from_millis(7),
            }
        ),
        other => panic!("{other:?}"),
    }
    assert!(matches!(
        tailer.tail("{}\n", false, Duration::from_millis(8)),
        Step::Read
    ));
}
