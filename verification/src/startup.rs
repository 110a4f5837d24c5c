//! What the program does with a command line before it spawns anything, and which
//! exit codes it has.

use vstd::prelude::*;
use crate::args::{ParsedArgs, Request};
use crate::json::Json;
use crate::lifecycle::Outcome;

verus! {

/// Why a command line that could be read is refused all the same.
#[derive(Debug, Clone, Copy, PartialEq, Eq, Structural)]
pub enum UsageError {
    IncompleteLifecycle,
    CleanupWithoutLifecycle,
    EmptyRunId,
}

impl UsageError {
    /// What is said of the error.
    pub open spec fn text(self) -> Seq<char> {
        match self {
            UsageError::IncompleteLifecycle =>
                "second-opinion run id, lifecycle path, and inference duration must be supplied together"@,
            UsageError::CleanupWithoutLifecycle =>
                "second-opinion cleanup durations require lifecycle mode"@,
            UsageError::EmptyRunId => "second-opinion run id must not be empty"@,
        }
    }

    /// What is said of the error.
    pub fn message(self) -> (message: &'static str)
        ensures
            message@ == self.text(),
    {
        match self {
            UsageError::IncompleteLifecycle =>
                "second-opinion run id, lifecycle path, and inference duration must be supplied together",
            UsageError::CleanupWithoutLifecycle =>
                "second-opinion cleanup durations require lifecycle mode",
            UsageError::EmptyRunId => "second-opinion run id must not be empty",
        }
    }
}

/// Whether a command line asks for all that a coordinated review needs.
pub open spec fn asks_for_all(request: Request) -> bool {
    request.run_id is Some && request.lifecycle_path is Some && request.inference_seconds is Some
}

/// Whether a command line asks for any of it.
pub open spec fn asks_for_any(request: Request) -> bool {
    request.run_id is Some || request.lifecycle_path is Some || request.inference_seconds is Some
}

/// What is wrong with a command line, the first thing first.
pub open spec fn usage_problem(request: Request) -> Option<UsageError> {
    if asks_for_any(request) && !asks_for_all(request) {
        Some(UsageError::IncompleteLifecycle)
    } else if request.cleanup_policy_supplied && !asks_for_all(request) {
        Some(UsageError::CleanupWithoutLifecycle)
    } else if request.run_id == Some(Seq::<char>::empty()) {
        Some(UsageError::EmptyRunId)
    } else {
        None
    }
}

/// Refuses a command line that asks for half a review.
pub fn check_usage(parsed: &ParsedArgs) -> (checked: Result<(), UsageError>)
    ensures
        match checked {
            Ok(_) => usage_problem(parsed@) is None,
            Err(error) => usage_problem(parsed@) == Some(error),
        },
{
    let any = parsed.run_id.is_some() || parsed.lifecycle_path.is_some()
        || parsed.inference_seconds.is_some();
    let all = parsed.run_id.is_some() && parsed.lifecycle_path.is_some()
        && parsed.inference_seconds.is_some();
    if any && !all {
        return Err(UsageError::IncompleteLifecycle);
    }
    if parsed.cleanup_policy_supplied && !all {
        return Err(UsageError::CleanupWithoutLifecycle);
    }
    if let Some(run_id) = &parsed.run_id {
        if run_id.as_str().is_empty() {
            assert(run_id@ =~= Seq::<char>::empty());
            return Err(UsageError::EmptyRunId);
        }
    }
    Ok(())
}

/// A command line that is not refused asks for a whole review, under a name, or
/// for nothing of one.
pub proof fn law_accepted_is_whole_or_nothing(request: Request)
    requires
        usage_problem(request) is None,
    ensures
        crate::config::coordination_for(request) is Some <==> asks_for_any(request),
        crate::config::coordination_for(request) matches Some(coordination)
            ==> coordination.run_id.len() > 0,
        request.cleanup_policy_supplied ==> crate::config::coordination_for(request) is Some,
{
    if let Some(coordination) = crate::config::coordination_for(request) {
        if coordination.run_id.len() == 0 {
            assert(coordination.run_id =~= Seq::<char>::empty());
        }
    }
}

/// What the program does with a command line.
#[derive(Debug, Clone, Copy, PartialEq, Eq, Structural)]
pub enum Plan {
    /// Say what it can do, and nothing else.
    Capabilities,
    Refuse(UsageError),
    /// Spawn the child.
    Run,
}

/// What the program does with a command line. It says what it can do whatever else
/// is asked of it.
pub fn plan(parsed: &ParsedArgs) -> (plan: Plan)
    ensures
        plan == (if parsed@.capabilities {
            Plan::Capabilities
        } else {
            match usage_problem(parsed@) {
                Some(error) => Plan::Refuse(error),
                None => Plan::Run,
            }
        }),
{
    if parsed.capabilities {
        return Plan::Capabilities;
    }
    match check_usage(parsed) {
        Ok(_) => Plan::Run,
        Err(error) => Plan::Refuse(error),
    }
}

/// What a wrapper of this name can do, in its version `version`.
pub open spec fn capabilities(wrapper: Seq<char>, version: Seq<char>) -> Json {
    Json::Object(
        Map::<Seq<char>, Json>::empty()
            .insert("wrapper"@, Json::Text(wrapper))
            .insert("wrapper_version"@, Json::Text(version))
            .insert("lifecycle_schema"@, Json::Unsigned(crate::lifecycle::SCHEMA_VERSION as u64))
            .insert("lifecycle"@, Json::Bool(true)),
    )
}

/// What the program says of what it can do.
pub fn capabilities_text(wrapper: &str, version: &str) -> (text: String)
    ensures
        text@ == crate::json::written(capabilities(wrapper@, version@)),
        crate::json::read(text@) == Some(capabilities(wrapper@, version@)),
{
    let mut members = crate::json::no_members();
    crate::json::insert(&mut members, "wrapper", crate::json::text_value(wrapper));
    crate::json::insert(&mut members, "wrapper_version", crate::json::text_value(version));
    crate::json::insert(
        &mut members,
        "lifecycle_schema",
        crate::json::number_value(crate::lifecycle::SCHEMA_VERSION as u64),
    );
    crate::json::insert(&mut members, "lifecycle", crate::json::bool_value(true));
    let value = crate::json::object_value(members);
    proof {
        reveal_with_fuel(crate::json::plain, 2);
    }
    crate::json::write(&value)
}

/// The program's exit code for the child's, where no review is coordinated.
pub fn exit_code(status: u32) -> (code: u8)
    ensures
        code == (if status <= u8::MAX {
            status as u8
        } else {
            1
        }),
{
    if status <= u8::MAX as u32 {
        status as u8
    } else {
        1
    }
}

/// Whether a review came of it.
pub open spec fn completed(outcome: Outcome) -> bool {
    outcome == Outcome::CompletedClean || outcome == Outcome::CompletedForcedCleanup
}

/// The program's exit code for the outcome of a review.
pub fn outcome_code(outcome: Outcome) -> (code: u8)
    ensures
        code == (if completed(outcome) {
            0u8
        } else {
            1u8
        }),
{
    match outcome {
        Outcome::CompletedClean => 0,
        Outcome::CompletedForcedCleanup => 0,
        _ => 1,
    }
}

/// What is refused, and why: half a review first, then a cleanup without a review, then a
/// review without a name; and nothing else is. Whoever asks what the wrapper can do is
/// told so, whatever else is asked for.
pub proof fn law_what_is_refused(parsed: &ParsedArgs, planned: Plan)
    requires
        call_ensures(plan, (parsed,), planned),
    ensures
        ({
            let given = (if parsed.run_id is Some {
                1int
            } else {
                0
            }) + (if parsed.lifecycle_path is Some {
                1int
            } else {
                0
            }) + (if parsed.inference_seconds is Some {
                1int
            } else {
                0
            });
            &&& planned == Plan::Capabilities <==> parsed.capabilities
            &&& planned == Plan::Refuse(UsageError::IncompleteLifecycle) <==> !parsed.capabilities
                && 0 < given < 3
            &&& planned == Plan::Refuse(UsageError::CleanupWithoutLifecycle) <==> (
            !parsed.capabilities && given == 0 && parsed.cleanup_policy_supplied)
            &&& planned == Plan::Refuse(UsageError::EmptyRunId) <==> (!parsed.capabilities && given
                == 3 && parsed.run_id->0@.len() == 0)
        }),
{
    if let Some(run_id) = parsed.run_id {
        if run_id@.len() == 0 {
            assert(run_id@ =~= Seq::<char>::empty());
        }
    }
}

/// What is said of each error.
pub proof fn law_usage_errors_say_what_is_wrong(error: UsageError, message: &'static str)
    requires
        call_ensures(UsageError::message, (error,), message),
    ensures
        message@ == (match error {
            UsageError::IncompleteLifecycle =>
                "second-opinion run id, lifecycle path, and inference duration must be supplied together"@,
            UsageError::CleanupWithoutLifecycle =>
                "second-opinion cleanup durations require lifecycle mode"@,
            UsageError::EmptyRunId => "second-opinion run id must not be empty"@,
        }),
{
}

/// What the wrapper says of itself: its name, its version, the version of the protocol of
/// its log, that it has one, and nothing else.
pub proof fn law_what_the_wrapper_says_of_itself(wrapper: &str, version: &str, text: String)
    requires
        call_ensures(capabilities_text, (wrapper, version), text),
    ensures
        ({
            let said = crate::json::read(text@);
            &&& said matches Some(json)
            &&& json.member("wrapper"@) == Some(Json::Text(wrapper@))
            &&& json.member("wrapper_version"@) == Some(Json::Text(version@))
            &&& json.member("lifecycle_schema"@) == Some(Json::Unsigned(1))
            &&& json.member("lifecycle"@) == Some(Json::Bool(true))
            &&& forall|key: Seq<char>| #[trigger]
                json.member(key) is Some ==> key == "wrapper"@ || key == "wrapper_version"@ || key
                    == "lifecycle_schema"@ || key == "lifecycle"@
        }),
{
    reveal_strlit("wrapper");
    reveal_strlit("wrapper_version");
    reveal_strlit("lifecycle_schema");
    reveal_strlit("lifecycle");
    assert("wrapper"@.len() == 7);
    assert("wrapper_version"@.len() == 15);
    assert("lifecycle_schema"@.len() == 16);
    assert("lifecycle"@.len() == 9);
}

/// The wrapper exits with the child's code where a byte holds it, and with 1 otherwise; so a
/// child that fails is never taken for one that did not.
pub proof fn law_exit_codes_are_handed_on(status: u32, code: u8)
    requires
        call_ensures(exit_code, (status,), code),
    ensures
        status < 256 ==> code == status,
        status >= 256 ==> code == 1,
        code == 0 <==> status == 0,
{
}

/// The wrapper exits without an error if and only if a review came of it.
pub proof fn law_outcomes_have_exit_codes(outcome: Outcome, code: u8)
    requires
        call_ensures(outcome_code, (outcome,), code),
    ensures
        code == 0 <==> outcome == Outcome::CompletedClean || outcome
            == Outcome::CompletedForcedCleanup,
        code == 0 || code == 1,
        completed(outcome) <==> code == 0,
{
}

} // verus!
