//! What is done with a command line.

use pee::args::parse;
use pee::lifecycle::Outcome;
use pee::startup::{
    capabilities_text, check_usage, exit_code, outcome_code, plan, Plan, UsageError,
};
use pee::text::OsText;

fn planned(v: &[&str]) -> Plan {
    plan(&parse(v.iter().map(|s| OsText::from_text(s)).collect()).unwrap())
}

const RUN_ID: &str = "--second-opinion-run-id";
const LIFECYCLE: &str = "--second-opinion-lifecycle";
const INFERENCE: &str = "--second-opinion-inference-seconds";
const NORMAL: &str = "--second-opinion-normal-cleanup-seconds";

#[test]
fn a_review_is_asked_for_as_a_whole() {
    assert_eq!(planned(&[]), Plan::Run);
    assert_eq!(planned(&["-p", "x"]), Plan::Run);
    assert_eq!(
        planned(&[RUN_ID, "r", LIFECYCLE, "/l", INFERENCE, "1"]),
        Plan::Run
    );
    for half in [
        vec![RUN_ID, "r"],
        vec![LIFECYCLE, "/l"],
        vec![INFERENCE, "1"],
        vec![RUN_ID, "r", LIFECYCLE, "/l"],
        vec![RUN_ID, "", NORMAL, "1"],
    ] {
        assert_eq!(
            planned(&half),
            Plan::Refuse(UsageError::IncompleteLifecycle),
            "{half:?}"
        );
    }
}

#[test]
fn cleanup_needs_a_review() {
    assert_eq!(
        planned(&[NORMAL, "1"]),
        Plan::Refuse(UsageError::CleanupWithoutLifecycle)
    );
    assert_eq!(
        planned(&["--second-opinion-forced-cleanup-seconds", "5"]),
        Plan::Refuse(UsageError::CleanupWithoutLifecycle)
    );
}

#[test]
fn a_review_has_a_name() {
    assert_eq!(
        planned(&[RUN_ID, "", LIFECYCLE, "/l", INFERENCE, "1"]),
        Plan::Refuse(UsageError::EmptyRunId)
    );
}

#[test]
fn capabilities_come_before_everything_else() {
    assert_eq!(
        planned(&["--second-opinion-capabilities", RUN_ID, "r"]),
        Plan::Capabilities
    );
    let parsed = parse(vec![OsText::from_text(RUN_ID), OsText::from_text("r")]).unwrap();
    assert_eq!(check_usage(&parsed), Err(UsageError::IncompleteLifecycle));
}

#[test]
fn errors_say_what_is_wrong() {
    assert_eq!(
        UsageError::IncompleteLifecycle.message(),
        "second-opinion run id, lifecycle path, and inference duration must be supplied together"
    );
    assert_eq!(
        UsageError::CleanupWithoutLifecycle.message(),
        "second-opinion cleanup durations require lifecycle mode"
    );
    assert_eq!(
        UsageError::EmptyRunId.message(),
        "second-opinion run id must not be empty"
    );
}

#[test]
fn capabilities_are_one_json_object() {
    assert_eq!(
        capabilities_text("tool-pee", "1.2.3"),
        r#"{"lifecycle":true,"lifecycle_schema":1,"wrapper":"tool-pee","wrapper_version":"1.2.3"}"#
    );
    let value = serde_json::from_str::<serde_json::Value>(&capabilities_text("tool-pee", "a\"b")).unwrap();
    assert_eq!(value["wrapper_version"].as_str(), Some("a\"b"));
}

#[test]
fn exit_codes_fit_a_byte() {
    assert_eq!(exit_code(0), 0);
    assert_eq!(exit_code(7), 7);
    assert_eq!(exit_code(255), 255);
    assert_eq!(exit_code(256), 1);
    assert_eq!(exit_code(u32::MAX), 1);
    assert_eq!(outcome_code(Outcome::CompletedClean), 0);
    assert_eq!(outcome_code(Outcome::CompletedForcedCleanup), 0);
    assert_eq!(outcome_code(Outcome::FailedIncomplete), 1);
    assert_eq!(outcome_code(Outcome::CleanupFailed), 1);
}
