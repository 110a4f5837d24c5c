//! The names that a run goes by.

use pee::names::{program_of, variable};

#[test]
fn the_wrapper_is_called_after_the_program() {
    assert_eq!(program_of("tool-pee"), Some("tool"));
    assert_eq!(program_of("\u{e9}-pee-pee"), Some("\u{e9}-pee"));
    assert_eq!(program_of("-pee"), None);
    assert_eq!(program_of("pee"), None);
    assert_eq!(program_of("tool"), None);
    assert_eq!(program_of(""), None);
}

#[test]
fn variables_are_called_after_the_wrapper() {
    assert_eq!(variable("tool-pee", "EXEC"), "TOOL_PEE_EXEC");
    assert_eq!(variable("x2_\u{e9}Z", "QUIESCE_MS"), "X2_\u{e9}Z_QUIESCE_MS");
    assert_eq!(variable("", ""), "_");
}
