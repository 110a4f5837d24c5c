//! The hook that ends a turn.

use pee::hook::{
    sentinel_path, shell_single_quote, stop_hook_settings, wait_for_file, SentinelGuard, Wait,
};
use pee::text::OsText;

#[test]
fn the_sentinel_is_named_after_the_session() {
    assert_eq!(
        sentinel_path(&OsText::from_text("/tmp"), "tool-pee", "abc"),
        OsText::from_text("/tmp/tool-pee-abc.done")
    );
    assert_eq!(
        sentinel_path(&OsText::from_text("/tmp/"), "tool-pee", "abc"),
        OsText::from_text("/tmp/tool-pee-abc.done")
    );
}

#[test]
fn quotes_are_escaped_for_the_shell() {
    assert_eq!(shell_single_quote("plain"), "'plain'");
    assert_eq!(shell_single_quote(""), "''");
    assert_eq!(shell_single_quote("it's"), r"'it'\''s'");
    assert_eq!(shell_single_quote("''"), r"''\'''\'''");
}

#[test]
fn the_settings_run_one_command() {
    assert_eq!(
        stop_hook_settings(&OsText::from_text("/tmp/tool-pee-abc.done")),
        r#"{"hooks":{"Stop":[{"hooks":[{"command":"touch '/tmp/tool-pee-abc.done'","type":"command"}]}]}}"#
    );
}

#[test]
fn the_settings_read_back() {
    let text = stop_hook_settings(&OsText::from_text("/tmp/o'\"\n.done"));
    let value = serde_json::from_str::<serde_json::Value>(&text).unwrap();
    let command = value["hooks"]["Stop"][0]["hooks"][0]["command"].as_str();
    assert_eq!(command, Some("touch '/tmp/o'\\''\"\n.done'"));
    assert!(!text.contains('\n'));
}

#[test]
fn a_file_that_is_there_counts_before_the_end_of_the_child() {
    assert_eq!(wait_for_file(true, true), Wait::Ready);
    assert_eq!(wait_for_file(true, false), Wait::Ready);
    assert_eq!(wait_for_file(false, true), Wait::Cancelled);
    assert_eq!(wait_for_file(false, false), Wait::Again);
}

#[test]
fn a_guard_holds_its_path() {
    let path = OsText::from_text("/tmp/x");
    assert_eq!(SentinelGuard::new(path.clone()).path, path);
}
