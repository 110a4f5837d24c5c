//! The command line.

use pee::args::{parse, positive_integer, OutputFormat, ParseError, ParsedArgs};
use pee::text::OsText;

fn osv(v: &[&str]) -> Vec<OsText> {
    v.iter().map(|s| OsText::from_text(s)).collect()
}

#[test]
fn dash_p_space_form() {
    let ParsedArgs {
        inject, forwarded, ..
    } = parse(osv(&["-p", "hello world", "file.txt"])).unwrap();
    assert_eq!(inject.as_deref(), Some("hello world"));
    assert_eq!(forwarded, osv(&["file.txt"]));
}

#[test]
fn dash_p_equals_form() {
    let ParsedArgs {
        inject, forwarded, ..
    } = parse(osv(&["-p=hello world", "file.txt"])).unwrap();
    assert_eq!(inject.as_deref(), Some("hello world"));
    assert_eq!(forwarded, osv(&["file.txt"]));
}

#[test]
fn forwards_everything_else() {
    let ParsedArgs {
        inject, forwarded, ..
    } = parse(osv(&["--version", "-T", "4", "file.txt"])).unwrap();
    assert!(inject.is_none());
    assert_eq!(forwarded, osv(&["--version", "-T", "4", "file.txt"]));
}

#[test]
fn forwards_permission_mode_verbatim() {
    let ParsedArgs { forwarded, .. } =
        parse(osv(&["--permission-mode", "plan", "file.txt"])).unwrap();
    assert_eq!(forwarded, osv(&["--permission-mode", "plan", "file.txt"]));
}

#[test]
fn last_dash_p_wins() {
    let ParsedArgs {
        inject, forwarded, ..
    } = parse(osv(&["-p", "first", "-p=second"])).unwrap();
    assert_eq!(inject.as_deref(), Some("second"));
    assert!(forwarded.is_empty());
}

#[test]
fn dash_p_without_value_is_noop() {
    let ParsedArgs {
        inject, forwarded, ..
    } = parse(osv(&["-p"])).unwrap();
    assert!(inject.is_none());
    assert!(forwarded.is_empty());
}

#[test]
fn output_format_default_is_text() {
    let ParsedArgs { output_format, .. } = parse(osv(&["file.txt"])).unwrap();
    assert_eq!(output_format, OutputFormat::Text);
}

#[test]
fn output_format_space_form() {
    let ParsedArgs {
        output_format,
        forwarded,
        ..
    } = parse(osv(&["--output-format", "stream-json", "file.txt"])).unwrap();
    assert_eq!(output_format, OutputFormat::StreamJson);
    assert_eq!(forwarded, osv(&["file.txt"]));
}

#[test]
fn output_format_equals_form() {
    let ParsedArgs {
        output_format,
        forwarded,
        ..
    } = parse(osv(&["--output-format=json", "file.txt"])).unwrap();
    assert_eq!(output_format, OutputFormat::Json);
    assert_eq!(forwarded, osv(&["file.txt"]));
}

#[test]
fn output_format_text_accepted() {
    let ParsedArgs { output_format, .. } = parse(osv(&["--output-format", "text"])).unwrap();
    assert_eq!(output_format, OutputFormat::Text);
}

#[test]
fn output_format_invalid_value_errors() {
    let err = parse(osv(&["--output-format", "yaml"])).unwrap_err();
    assert!(matches!(err, ParseError::InvalidOutputFormat(ref v) if v == "yaml"));
}

#[test]
fn output_format_missing_value_errors() {
    let err = parse(osv(&["--output-format"])).unwrap_err();
    assert!(matches!(err, ParseError::MissingValue("--output-format")));
}

#[test]
fn second_opinion_flags_are_owned_and_not_forwarded() {
    let parsed = parse(osv(&[
        "--second-opinion-run-id",
        "run-123",
        "--second-opinion-lifecycle",
        "/tmp/lifecycle.jsonl",
        "--second-opinion-inference-seconds",
        "300",
        "--second-opinion-normal-cleanup-seconds",
        "10",
        "--second-opinion-forced-cleanup-seconds",
        "5",
        "--model",
        "fable-5",
    ]))
    .unwrap();
    assert_eq!(parsed.run_id.as_deref(), Some("run-123"));
    assert_eq!(parsed.inference_seconds, Some(300));
    assert_eq!(parsed.normal_cleanup_seconds, 10);
    assert_eq!(parsed.forced_cleanup_seconds, 5);
    assert_eq!(parsed.forwarded, osv(&["--model", "fable-5"]));
}

#[test]
fn capabilities_flag_is_owned() {
    let parsed = parse(osv(&["--second-opinion-capabilities"])).unwrap();
    assert!(parsed.capabilities);
    assert!(parsed.forwarded.is_empty());
}

#[test]
fn an_empty_command_line_has_the_defaults() {
    let parsed = parse(Vec::new()).unwrap();
    assert!(parsed.inject.is_none());
    assert!(parsed.forwarded.is_empty());
    assert!(!parsed.capabilities);
    assert!(parsed.run_id.is_none());
    assert!(parsed.lifecycle_path.is_none());
    assert_eq!(parsed.inference_seconds, None);
    assert_eq!(parsed.normal_cleanup_seconds, 10);
    assert_eq!(parsed.forced_cleanup_seconds, 5);
    assert!(!parsed.cleanup_policy_supplied);
}

#[test]
fn either_cleanup_span_counts_as_a_policy() {
    for flag in [
        "--second-opinion-normal-cleanup-seconds",
        "--second-opinion-forced-cleanup-seconds",
    ] {
        assert!(parse(osv(&[flag, "7"])).unwrap().cleanup_policy_supplied);
    }
}

#[test]
fn the_lifecycle_path_is_taken_byte_for_byte() {
    let path = OsText { bytes: vec![b'/', 0xff, b'x'] };
    let parsed = parse(vec![
        OsText::from_text("--second-opinion-lifecycle"),
        path.clone(),
    ])
    .unwrap();
    assert_eq!(parsed.lifecycle_path, Some(path));
}

#[test]
fn the_value_of_a_flag_is_not_read_as_a_flag() {
    let parsed = parse(osv(&["-p", "--output-format", "x"])).unwrap();
    assert_eq!(parsed.inject.as_deref(), Some("--output-format"));
    assert_eq!(parsed.forwarded, osv(&["x"]));
}

#[test]
fn a_prompt_that_is_not_utf8_is_read_with_replacements() {
    let parsed = parse(vec![
        OsText::from_text("-p"),
        OsText { bytes: vec![b'a', 0xff, b'b'] },
    ])
    .unwrap();
    assert_eq!(parsed.inject.as_deref(), Some("a\u{fffd}b"));
}

#[test]
fn an_argument_that_is_not_utf8_is_forwarded_as_it_is() {
    let odd = OsText { bytes: vec![b'-', b'p', b'=', 0xfe] };
    let parsed = parse(vec![odd.clone()]).unwrap();
    assert!(parsed.inject.is_none());
    assert_eq!(parsed.forwarded, vec![odd]);
}

#[test]
fn an_empty_prompt_is_a_prompt() {
    assert_eq!(parse(osv(&["-p="])).unwrap().inject.as_deref(), Some(""));
    assert_eq!(parse(osv(&["-p", ""])).unwrap().inject.as_deref(), Some(""));
}

#[test]
fn each_flag_with_a_value_needs_it() {
    for flag in [
        "--second-opinion-run-id",
        "--second-opinion-lifecycle",
        "--second-opinion-inference-seconds",
        "--second-opinion-normal-cleanup-seconds",
        "--second-opinion-forced-cleanup-seconds",
    ] {
        let error = parse(osv(&[flag])).unwrap_err();
        assert!(matches!(error, ParseError::MissingValue(f) if f == flag));
        assert_eq!(error.message(), format!("missing value for {flag}"));
    }
}

#[test]
fn spans_are_positive_integers() {
    let flag = "--second-opinion-inference-seconds";
    for bad in ["0", "-1", "", "1.5", "x", "18446744073709551616", " 1"] {
        let error = parse(osv(&[flag, bad])).unwrap_err();
        assert!(
            matches!(error, ParseError::InvalidPositiveInteger(f, ref v) if f == flag && v == bad)
        );
    }
    for (good, value) in [("1", 1), ("+7", 7), ("007", 7), ("18446744073709551615", u64::MAX)] {
        assert_eq!(
            positive_integer(&OsText::from_text(good), "--x").unwrap(),
            value
        );
    }
}

#[test]
fn messages_quote_what_was_wrong() {
    let error = parse(osv(&["--output-format", "a\"b\n"])).unwrap_err();
    assert_eq!(
        error.message(),
        "invalid --output-format value \"a\\\"b\\n\"; expected one of: text, stream-json, json"
    );
    let error = parse(osv(&["--second-opinion-forced-cleanup-seconds", "no"])).unwrap_err();
    assert_eq!(
        error.message(),
        "invalid positive integer for --second-opinion-forced-cleanup-seconds: \"no\""
    );
}

#[test]
fn formats_are_read_by_name() {
    assert_eq!("text".parse::<OutputFormat>().unwrap(), OutputFormat::Text);
    assert_eq!(
        "stream-json".parse::<OutputFormat>().unwrap(),
        OutputFormat::StreamJson
    );
    assert_eq!("json".parse::<OutputFormat>().unwrap(), OutputFormat::Json);
    assert!("Text".parse::<OutputFormat>().is_err());
}

#[test]
fn the_first_error_is_reported() {
    let error = parse(osv(&[
        "--second-opinion-inference-seconds",
        "0",
        "--output-format",
        "yaml",
    ]))
    .unwrap_err();
    assert!(matches!(error, ParseError::InvalidPositiveInteger(_, _)));
}
