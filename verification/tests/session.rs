//! The machine behind a coordinated review, and what it has reached.

use pee::config::SecondOpinionConfig;
use pee::coordinator::Coordinator;
use pee::lifecycle::{Emitter, Outcome, Phase};
use pee::session::{Action, Event, Session};
use pee::text::OsText;
use pee::time::Duration;
use pee::transcript::Observation;

fn ms(n: u64) -> Duration {
    Duration::from_millis(n)
}

fn policy() -> SecondOpinionConfig {
    SecondOpinionConfig {
        run_id: "r".to_owned(),
        lifecycle_path: OsText::from_text("/l"),
        inference: ms(1_000),
        normal_cleanup: ms(100),
        forced_cleanup: ms(50),
    }
}

fn reply(text: &str, complete: bool, at: u64) -> Observation {
    Observation {
        text: text.to_owned(),
        complete,
        elapsed: ms(at),
    }
}

fn observed(text: &str, at: u64) -> Event {
    Event::Observation(Some(reply(text, true, at)))
}

/// Feeds events that each have to answer the action before them.
fn feed(session: &mut Session, events: Vec<(Action, Event)>, now: u64) {
    for (action, event) in events {
        assert_eq!(session.action(), action);
        session.step(event, ms(now));
    }
}

fn phases(session: &Session) -> Vec<String> {
    session
        .lines(0)
        .iter()
        .map(|line| {
            let value = serde_json::from_str::<serde_json::Value>(line).unwrap();
            value["phase"].as_str().unwrap().to_owned()
        })
        .collect()
}

/// A round in which nothing happens, up to the question whether the child is there.
fn quiet_round(session: &mut Session, now: u64) {
    if session.action() == Action::CheckPrompt {
        session.step(Event::Prompt(false), ms(now));
    }
    if session.action() == Action::Receive {
        session.step(Event::Observation(None), ms(now));
    }
    feed(
        session,
        vec![
            (Action::ListDescendants, Event::Descendants(Some(Vec::new()))),
            (Action::PollChild, Event::Exit(false)),
        ],
        now,
    );
}

#[test]
fn a_clean_review() {
    let mut session = Session::start(&policy(), ms(0));
    feed(
        &mut session,
        vec![
            (Action::CheckPrompt, Event::Prompt(true)),
            (Action::Receive, observed("text", 5)),
            (Action::ListDescendants, Event::Descendants(Some(vec![7]))),
            (Action::PollChild, Event::Exit(true)),
            (Action::ProbeTree, Event::Tree(true)),
            (Action::SignalStop, Event::Settled),
            (Action::Receive, observed("late", 6)),
            (Action::Receive, Event::Observation(None)),
        ],
        10,
    );
    assert_eq!(session.action(), Action::Finish);
    assert_eq!(session.outcome(), Some(Outcome::CompletedClean));
    assert_eq!(session.known(), &vec![7]);
    assert_eq!(
        phases(&session),
        vec![
            "launched",
            "prompt_submitted",
            "output_observed",
            "output_complete",
            "cleanup_started",
            "terminated"
        ]
    );
    assert_eq!(session.into_review().as_deref(), Some("text"));
}

#[test]
fn a_review_is_kept_back_until_the_end() {
    let mut session = Session::start(&policy(), ms(0));
    feed(
        &mut session,
        vec![
            (Action::CheckPrompt, Event::Prompt(true)),
            (Action::Receive, observed("text", 5)),
        ],
        10,
    );
    assert_eq!(session.outcome(), None);
    assert_eq!(session.into_review(), None);
}

#[test]
fn an_observation_waits_for_the_prompt() {
    let mut session = Session::start(&policy(), ms(0));
    feed(
        &mut session,
        vec![
            (Action::CheckPrompt, Event::Prompt(false)),
            (Action::Receive, observed("unasked", 1)),
            (Action::AwaitPrompt, Event::Prompt(false)),
            (Action::Receive, observed("asked", 2)),
            (Action::AwaitPrompt, Event::Prompt(true)),
        ],
        3,
    );
    assert_eq!(session.action(), Action::ListDescendants);
    assert_eq!(
        phases(&session),
        vec![
            "launched",
            "prompt_submitted",
            "output_observed",
            "output_complete",
            "cleanup_started"
        ]
    );
}

#[test]
fn inference_ends_behind_its_deadline_and_not_at_it() {
    let mut session = Session::start(&policy(), ms(0));
    quiet_round(&mut session, 1_000);
    feed(&mut session, vec![(Action::Sleep, Event::Woke)], 1_000);
    quiet_round(&mut session, 1_001);
    feed(
        &mut session,
        vec![
            (Action::SignalStop, Event::Settled),
            (Action::Receive, Event::Observation(None)),
            (Action::Terminate, Event::Terminated(true)),
            (Action::Sleep, Event::Woke),
            (Action::ListDescendants, Event::Descendants(Some(Vec::new()))),
            (Action::PollChild, Event::Exit(true)),
            (Action::ProbeTree, Event::Tree(true)),
            (Action::SignalStop, Event::Settled),
            (Action::Receive, Event::Observation(None)),
        ],
        1_010,
    );
    assert_eq!(session.outcome(), Some(Outcome::FailedIncomplete));
    assert!(session.lines(0).concat().contains("\"reason\":\"inference_deadline\""));
    assert_eq!(session.into_review(), None);
}

#[test]
fn a_reply_in_time_is_still_taken_behind_the_deadline() {
    let mut session = Session::start(&policy(), ms(0));
    feed(&mut session, vec![(Action::CheckPrompt, Event::Prompt(true))], 1);
    quiet_round(&mut session, 1_001);
    feed(
        &mut session,
        vec![
            (Action::SignalStop, Event::Settled),
            (Action::Receive, observed("just in time", 1_000)),
            (Action::Receive, observed("too late", 1_001)),
            (Action::Receive, Event::Observation(None)),
            (Action::Terminate, Event::Terminated(true)),
            (Action::Sleep, Event::Woke),
            (Action::ListDescendants, Event::Descendants(Some(Vec::new()))),
            (Action::PollChild, Event::Exit(true)),
            (Action::ProbeTree, Event::Tree(true)),
            (Action::SignalStop, Event::Settled),
            (Action::Receive, Event::Observation(None)),
        ],
        1_010,
    );
    assert_eq!(session.outcome(), Some(Outcome::CompletedForcedCleanup));
    assert_eq!(session.into_review().as_deref(), Some("just in time"));
}

#[test]
fn a_reply_that_is_too_late_is_no_review() {
    let mut session = Session::start(&policy(), ms(0));
    feed(
        &mut session,
        vec![
            (Action::CheckPrompt, Event::Prompt(true)),
            (Action::Receive, observed("late", 1_001)),
            (Action::Receive, Event::Observation(None)),
        ],
        1_002,
    );
    assert_eq!(phases(&session), vec!["launched", "prompt_submitted", "output_observed"]);
}

#[test]
fn the_cleanup_has_two_deadlines() {
    let mut session = Session::start(&policy(), ms(0));
    feed(
        &mut session,
        vec![
            (Action::CheckPrompt, Event::Prompt(true)),
            (Action::Receive, observed("text", 5)),
        ],
        10,
    );
    quiet_round(&mut session, 109);
    feed(&mut session, vec![(Action::Sleep, Event::Woke)], 109);
    quiet_round(&mut session, 110);
    feed(&mut session, vec![(Action::Terminate, Event::Terminated(true))], 159);
    feed(&mut session, vec![(Action::Sleep, Event::Woke)], 159);
    quiet_round(&mut session, 160);
    assert_eq!(session.outcome(), Some(Outcome::CleanupFailed));
    assert!(session.lines(0).concat().contains("\"reason\":\"process_group_present\""));
    assert_eq!(session.into_review(), None);
}

#[test]
fn a_child_that_left_processes_behind_is_not_gone() {
    let mut session = Session::start(&policy(), ms(0));
    feed(
        &mut session,
        vec![
            (Action::CheckPrompt, Event::Prompt(false)),
            (Action::Receive, Event::Observation(None)),
            (Action::ListDescendants, Event::Descendants(Some(vec![7, 8]))),
            (Action::PollChild, Event::Exit(true)),
            (Action::ProbeTree, Event::Tree(false)),
            (Action::Sleep, Event::Woke),
            (Action::CheckPrompt, Event::Prompt(false)),
            (Action::Receive, Event::Observation(None)),
            (Action::ListDescendants, Event::Descendants(Some(vec![9, 8]))),
            (Action::PollChild, Event::Exit(false)),
            (Action::ProbeTree, Event::Tree(true)),
        ],
        10,
    );
    assert_eq!(session.known(), &vec![7, 8, 9]);
    assert_eq!(session.action(), Action::SignalStop);
}

#[test]
fn a_failure_of_the_cleanup_withholds_the_review() {
    for (listed, killed) in [(false, true), (true, false)] {
        let mut session = Session::start(&policy(), ms(0));
        let found = if listed { Some(Vec::new()) } else { None };
        feed(
            &mut session,
            vec![
                (Action::CheckPrompt, Event::Prompt(true)),
                (Action::Receive, observed("text", 5)),
                (Action::ListDescendants, Event::Descendants(found)),
            ],
            10,
        );
        session.step(Event::Exit(false), ms(110));
        session.step(Event::Terminated(killed), ms(111));
        feed(
            &mut session,
            vec![
                (Action::Sleep, Event::Woke),
                (Action::ListDescendants, Event::Descendants(Some(Vec::new()))),
                (Action::PollChild, Event::Exit(true)),
                (Action::ProbeTree, Event::Tree(true)),
                (Action::SignalStop, Event::Settled),
                (Action::Receive, Event::Observation(None)),
            ],
            112,
        );
        assert_eq!(session.outcome(), Some(Outcome::CleanupFailed));
        assert_eq!(session.into_review(), None);
    }
}

#[test]
fn an_event_that_answers_nothing_changes_nothing() {
    let mut session = Session::start(&policy(), ms(0));
    session.step(Event::Woke, ms(5));
    session.step(Event::Tree(true), ms(5));
    session.step(observed("x", 1), ms(5));
    assert_eq!(session.action(), Action::CheckPrompt);
    assert_eq!(phases(&session), vec!["launched"]);
}

#[test]
fn the_log_does_not_depend_on_what_is_said() {
    let log = |text: &str| {
        let mut session = Session::start(&policy(), ms(0));
        session.step(Event::Prompt(true), ms(1));
        session.step(observed(text, 2), ms(3));
        session.lines(0)
    };
    assert_eq!(log("one"), log("quite another"));
}

#[test]
fn a_coordinator_logs_each_phase_once() {
    let mut lifecycle = Emitter::open("r".to_owned());
    let mut coordinator = Coordinator::new();
    assert!(coordinator.awaits_prompt());
    coordinator.emit_prompt_if_ready(false, &mut lifecycle, ms(1));
    assert!(lifecycle.records.is_empty());
    coordinator.emit_prompt_if_ready(true, &mut lifecycle, ms(2));
    coordinator.emit_prompt_if_ready(true, &mut lifecycle, ms(3));
    coordinator.record_observation(reply("a", false, 4), false, &mut lifecycle, ms(9), ms(4));
    assert!(coordinator.review().is_none());
    coordinator.record_observation(reply("b", true, 5), false, &mut lifecycle, ms(9), ms(5));
    coordinator.record_observation(reply("c", true, 6), false, &mut lifecycle, ms(9), ms(6));
    assert_eq!(coordinator.review().map(String::as_str), Some("b"));
    assert_eq!(coordinator.cleanup_started(), None);
    coordinator.begin_cleanup(&mut lifecycle, "why", ms(7));
    coordinator.begin_cleanup(&mut lifecycle, "again", ms(8));
    assert_eq!(coordinator.cleanup_started(), Some(ms(7)));
    let logged: Vec<(Phase, u64, String)> = lifecycle
        .records
        .iter()
        .map(|r| (r.phase, r.elapsed_ms, r.reason.clone()))
        .collect();
    assert_eq!(
        logged,
        vec![
            (Phase::PromptSubmitted, 2, String::new()),
            (Phase::OutputObserved, 4, String::new()),
            (Phase::OutputComplete, 5, String::new()),
            (Phase::CleanupStarted, 7, "why".to_owned()),
        ]
    );
    assert_eq!(coordinator.take_review().as_deref(), Some("b"));
    assert_eq!(coordinator.take_review(), None);
}

#[test]
fn a_coordinator_ignores_what_no_prompt_asked_for() {
    let mut lifecycle = Emitter::open("r".to_owned());
    let mut coordinator = Coordinator::new();
    coordinator.record_observation(reply("a", true, 1), false, &mut lifecycle, ms(9), ms(1));
    assert!(lifecycle.records.is_empty());
    coordinator.record_observation(reply("b", true, 2), true, &mut lifecycle, ms(9), ms(2));
    assert_eq!(lifecycle.records.len(), 3);
    assert_eq!(coordinator.take_review().as_deref(), Some("b"));
}

#[test]
fn a_coordinator_observes_nothing_in_the_cleanup() {
    let mut lifecycle = Emitter::open("r".to_owned());
    let mut coordinator = Coordinator::new();
    coordinator.begin_cleanup(&mut lifecycle, "", ms(1));
    coordinator.record_observation(reply("a", true, 2), true, &mut lifecycle, ms(9), ms(2));
    coordinator.emit_prompt_if_ready(true, &mut lifecycle, ms(3));
    assert_eq!(lifecycle.records.len(), 1);
    assert!(coordinator.review().is_none());
}
