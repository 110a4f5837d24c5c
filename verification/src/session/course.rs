//! The course of a coordinated review, event by event: what each event changes, what it
//! leaves as it is, and what is done next.

use vstd::prelude::*;
use crate::config::SecondOpinionConfig;
use crate::lifecycle::{Entry, Outcome, Phase};
use crate::session::{Action, Event, Happening, Point, Session, State, Why};
use crate::time::Duration;
use crate::transcript::Sighting;

verus! {

/// How long after `earlier` it is, in nanoseconds; not at all where it is before it.
pub open spec fn elapsed_between(earlier: Duration, now: Duration) -> int {
    if now.nanos >= earlier.nanos {
        now.nanos - earlier.nanos
    } else {
        0
    }
}

/// Whether an event says that something of the child is still there.
pub open spec fn is_still_there(state: State, event: Happening) -> bool {
    ||| state.at is Exit && event == Happening::Exit(false) && !state.exited
    ||| state.at is Tree && event == Happening::Tree(false)
}

/// The observation that an event makes count: one that comes in when the prompt is known
/// to be submitted, or one that waited for the prompt. None counts in the cleanup.
pub open spec fn counted(state: State, event: Happening) -> Option<Sighting> {
    if state.progress.cleanup_started is Some {
        None
    } else {
        match (state.at, event) {
            (Point::Receive(_), Happening::Observation(Some(sighting))) =>
                if state.progress.prompt_emitted {
                Some(sighting)
            } else {
                None
            },
            (Point::Held(_, sighting), Happening::Prompt(true)) => Some(sighting),
            _ => None,
        }
    }
}

/// Whether an event says that nothing is left to be observed, on the last pass.
pub open spec fn ends_the_last_pass(state: State, event: Happening) -> bool {
    event == Happening::Observation(None) && (state.at == Point::Receive(Some(Why::Exited))
        || state.at == Point::Receive(Some(Why::Deadline)))
}

/// The child is killed when the time that it has to go by itself is over, or when the time
/// for inference is; and never before.
pub proof fn law_killing_never_begins_early(state: State, event: Happening, now: Duration)
    requires
        state.forced_started is None,
        state.after(event, now).forced_started is Some,
    ensures
        ({
            let next = state.after(event, now);
            &&& next.forced_started == Some(now)
            &&& next.at is Terminate
            &&& if state.at == Point::Receive(Some(Why::Deadline)) {
                event == Happening::Observation(None)
            } else {
                &&& is_still_there(state, event)
                &&& state.progress.cleanup_started matches Some(started)
                &&& elapsed_between(started, now) >= state.normal_cleanup.nanos
            }
        }),
{
    match (state.at, event) {
        (Point::Receive(why), Happening::Observation(Some(sighting))) => {
            lemma_recording_kills_nobody(state, why, sighting, false, now);
        },
        (Point::Held(why, sighting), Happening::Prompt(arrived)) => {
            lemma_recording_kills_nobody(state, why, sighting, arrived, now);
        },
        _ => {},
    }
}

proof fn lemma_recording_kills_nobody(
    state: State,
    why: Option<Why>,
    sighting: Sighting,
    prompt: bool,
    now: Duration,
)
    ensures
        state.recorded(why, sighting, prompt, now).forced_started == state.forced_started,
        state.recorded(why, sighting, prompt, now).at !is Settle,
{
}

/// The inference is only given up when its time is over, something of the child is still
/// there, there is no review, and the cleanup has not begun.
pub proof fn law_inference_is_not_given_up_early(state: State, event: Happening, now: Duration)
    requires
        state.at.why() != Some(Why::Deadline),
        state.after(event, now).at.why() == Some(Why::Deadline),
    ensures
        state.after(event, now).at == Point::Settle(Why::Deadline),
        is_still_there(state, event),
        now.nanos > state.inference.nanos,
        state.progress.review is None,
        state.progress.cleanup_started is None,
{
    match (state.at, event) {
        (Point::Receive(why), Happening::Observation(Some(sighting))) => {
            lemma_recording_kills_nobody(state, why, sighting, false, now);
        },
        (Point::Held(why, sighting), Happening::Prompt(arrived)) => {
            lemma_recording_kills_nobody(state, why, sighting, arrived, now);
        },
        _ => {},
    }
}

/// Whether the time for inference was over at one of the events.
pub open spec fn was_late(events: Seq<(Happening, Duration)>, inference: Duration) -> bool {
    exists|i: int| 0 <= i < events.len() && (#[trigger] events[i]).1.nanos > inference.nanos
}

/// In every review: where anything was killed, the cleanup had begun by then, and either
/// the child had all its time to go by itself, or the time for inference was over.
pub proof fn law_whoever_is_killed_had_its_time(
    inference: Duration,
    normal_cleanup: Duration,
    forced_cleanup: Duration,
    launch: Duration,
    events: Seq<(Happening, Duration)>,
)
    ensures
        ({
            let state = State::launched(
                inference,
                normal_cleanup,
                forced_cleanup,
                launch,
            ).after_all(events);
            state.forced_started matches Some(killed) ==> {
                &&& state.progress.cleanup_started matches Some(started)
                &&& elapsed_between(started, killed) >= normal_cleanup.nanos || was_late(
                    events,
                    inference,
                )
            }
        }),
{
    crate::session::laws::law_every_review_is_sound(
        inference,
        normal_cleanup,
        forced_cleanup,
        launch,
        events,
    );
    lemma_had_its_time(
        State::launched(inference, normal_cleanup, forced_cleanup, launch),
        events,
    );
}

spec fn had_its_time(state: State, events: Seq<(Happening, Duration)>) -> bool {
    &&& state.at.why() == Some(Why::Deadline) ==> was_late(events, state.inference)
    &&& state.forced_started matches Some(killed) ==> (was_late(events, state.inference) || (
    state.progress.cleanup_started matches Some(started) && elapsed_between(started, killed)
        >= state.normal_cleanup.nanos))
}

proof fn lemma_had_its_time(start: State, events: Seq<(Happening, Duration)>)
    requires
        start.at is Prompt,
        start.forced_started is None,
    ensures
        had_its_time(start.after_all(events), events),
        start.holds_on_to(start.after_all(events)),
    decreases events.len(),
{
    if events.len() > 0 {
        let front = events.drop_last();
        let before = start.after_all(front);
        let (event, now) = events.last();
        lemma_had_its_time(start, front);
        let next = before.after(event, now);
        crate::session::laws::law_failures_stay(before, event, now);
        law_beginnings_stay(before, event, now);
        if was_late(front, start.inference) {
            let i = choose|i: int|
                0 <= i < front.len() && (#[trigger] front[i]).1.nanos > start.inference.nanos;
            assert(events[i] == front[i]);
        }
        if next.at.why() == Some(Why::Deadline) && before.at.why() != Some(Why::Deadline) {
            law_inference_is_not_given_up_early(before, event, now);
            assert(events[events.len() - 1].1 == now);
        }
        if next.forced_started is Some && before.forced_started is None {
            law_killing_never_begins_early(before, event, now);
        }
    }
}

/// What began once stays begun, at the time that it did.
pub proof fn law_beginnings_stay(state: State, event: Happening, now: Duration)
    ensures
        state.progress.cleanup_started is Some ==> state.after(
            event,
            now,
        ).progress.cleanup_started == state.progress.cleanup_started,
        state.forced_started is Some && state.at.why() != Some(Why::Deadline) ==> state.after(
            event,
            now,
        ).forced_started == state.forced_started,
{
    match (state.at, event) {
        (Point::Receive(why), Happening::Observation(Some(sighting))) => {
            lemma_recording_keeps_the_beginning(state, why, sighting, false, now);
        },
        (Point::Held(why, sighting), Happening::Prompt(arrived)) => {
            lemma_recording_keeps_the_beginning(state, why, sighting, arrived, now);
        },
        _ => {},
    }
}

proof fn lemma_recording_keeps_the_beginning(
    state: State,
    why: Option<Why>,
    sighting: Sighting,
    prompt: bool,
    now: Duration,
)
    ensures
        ({
            let next = state.recorded(why, sighting, prompt, now);
            &&& state.progress.cleanup_started is Some ==> next.progress.cleanup_started
                == state.progress.cleanup_started
            &&& next.forced_started == state.forced_started
        }),
{
}

/// What is done while something of the child is still there, by the clock alone: sleep
/// within the deadlines, and act as soon as one is over.
pub proof fn law_what_is_done_while_the_child_is_there(
    state: State,
    event: Happening,
    now: Duration,
)
    requires
        is_still_there(state, event),
    ensures
        ({
            let next = state.after(event, now);
            match state.progress.cleanup_started {
                None => if state.progress.review is None && now.nanos > state.inference.nanos {
                    next == (State { at: Point::Settle(Why::Deadline), ..state })
                } else {
                    next == (State { at: Point::Sleep, ..state })
                },
                Some(started) => match state.forced_started {
                    None => if elapsed_between(started, now) >= state.normal_cleanup.nanos {
                        next == (State {
                            forced_started: Some(now),
                            at: Point::Terminate,
                            ..state
                        })
                    } else {
                        next == (State { at: Point::Sleep, ..state })
                    },
                    Some(killed) => if elapsed_between(killed, now) >= state.forced_cleanup.nanos {
                        next.at == Point::Finished(Outcome::CleanupFailed)
                    } else {
                        next == (State { at: Point::Sleep, ..state })
                    },
                },
            }
        }),
{
}

/// What is done once the killing was tried: sleep, unless the time for it is over already.
pub proof fn law_what_is_done_behind_the_killing(state: State, ok: bool, now: Duration)
    requires
        state.at is Terminate,
        state.forced_started is Some,
    ensures
        ({
            let next = state.after(Happening::Terminated(ok), now);
            let over = elapsed_between(state.forced_started->0, now) >= state.forced_cleanup.nanos;
            &&& over ==> next.at == Point::Finished(Outcome::CleanupFailed)
            &&& !over ==> next.at is Sleep
            &&& next.forced_error == (state.forced_error || !ok)
        }),
{
}

/// A cleanup only fails for want of time when the time for the killing is over.
pub proof fn law_killing_is_not_given_up_early(state: State, event: Happening, now: Duration)
    requires
        state.wf(),
        state.at !is Finished,
        state.after(event, now).at is Finished,
        !state.after(event, now).absent,
    ensures
        state.after(event, now).at == Point::Finished(Outcome::CleanupFailed),
        is_still_there(state, event) || (state.at is Terminate && event is Terminated),
        state.forced_started matches Some(killed) && elapsed_between(killed, now)
            >= state.forced_cleanup.nanos,
{
    match (state.at, event) {
        (Point::Receive(why), Happening::Observation(Some(sighting))) => {
            lemma_recording_ends_nothing(state, why, sighting, false, now);
        },
        (Point::Held(why, sighting), Happening::Prompt(arrived)) => {
            lemma_recording_ends_nothing(state, why, sighting, arrived, now);
        },
        _ => {},
    }
}

proof fn lemma_recording_ends_nothing(
    state: State,
    why: Option<Why>,
    sighting: Sighting,
    prompt: bool,
    now: Duration,
)
    ensures
        state.recorded(why, sighting, prompt, now).at !is Finished,
{
}

/// A review ends at once when nothing of the child is left and nothing is left to be
/// observed: well where there is a review and the cleanup met no error, in the one way or
/// the other by whether anything was killed.
pub proof fn law_how_a_review_ends(state: State, now: Duration)
    requires
        state.at == Point::Receive(Some(Why::Exited)),
    ensures
        state.after(Happening::Observation(None), now).at == Point::Finished(
            if state.forced_error || state.tracking_failed {
                Outcome::CleanupFailed
            } else if state.progress.review is None {
                Outcome::FailedIncomplete
            } else if state.forced_started is Some {
                Outcome::CompletedForcedCleanup
            } else {
                Outcome::CompletedClean
            },
        ),
{
}

/// What each event says of the processes is what is noted, and nothing else is: an exit, an
/// absence, a listing that failed, a killing that failed.
pub proof fn law_what_is_noted_of_the_processes(state: State, event: Happening, now: Duration)
    ensures
        ({
            let next = state.after(event, now);
            &&& next.exited == (state.exited || (state.at is Exit && event == Happening::Exit(
                true,
            )))
            &&& next.absent == (state.absent || (state.at is Tree && event == Happening::Tree(
                true,
            )))
            &&& next.tracking_failed == (state.tracking_failed || (state.at is Descendants && event
                == Happening::Descendants(None)))
            &&& next.forced_error == (state.forced_error || (state.at is Terminate && event
                == Happening::Terminated(false)))
        }),
{
    match (state.at, event) {
        (Point::Receive(why), Happening::Observation(Some(sighting))) => {
            lemma_recording_notes_nothing(state, why, sighting, false, now);
        },
        (Point::Held(why, sighting), Happening::Prompt(arrived)) => {
            lemma_recording_notes_nothing(state, why, sighting, arrived, now);
        },
        _ => {},
    }
}

proof fn lemma_recording_notes_nothing(
    state: State,
    why: Option<Why>,
    sighting: Sighting,
    prompt: bool,
    now: Duration,
)
    ensures
        ({
            let next = state.recorded(why, sighting, prompt, now);
            &&& next.exited == state.exited
            &&& next.absent == state.absent
            &&& next.tracking_failed == state.tracking_failed
            &&& next.forced_error == state.forced_error
        }),
{
}

/// A process is known to descend from the child if and only if it was listed as such, then
/// or before.
pub proof fn law_who_is_listed_is_known(
    state: State,
    found: Seq<u32>,
    now: Duration,
    pid: u32,
)
    requires
        state.at is Descendants,
    ensures
        state.after(Happening::Descendants(Some(found)), now).known.contains(pid)
            <==> state.known.contains(pid) || found.contains(pid),
{
    crate::processes::law_known_processes_are_kept(state.known, found);
    assert(crate::processes::joined_with(state.known, found).contains(pid) <==> state.known.contains(
        pid,
    ) || found.contains(pid));
}

/// The first observation that counts, ended the turn and came in time becomes the review,
/// and nothing else does.
pub proof fn law_a_timely_reply_becomes_the_review(state: State, event: Happening, now: Duration)
    requires
        state.wf(),
    ensures
        state.after(event, now).progress.review == (match counted(state, event) {
            Some(sighting) if state.progress.review is None && sighting.complete
                && sighting.elapsed.nanos <= state.inference.nanos => Some(sighting.text),
            _ => state.progress.review,
        }),
{
    lemma_progress(state, event, now);
}

/// The prompt is known to be submitted once it is said to be, and output is known to be
/// there once an observation counts; neither in the cleanup.
pub proof fn law_what_is_known_of_the_prompt(state: State, event: Happening, now: Duration)
    requires
        state.wf(),
    ensures
        state.after(event, now).progress.prompt_emitted == (state.progress.prompt_emitted || (
        state.progress.cleanup_started is None && event == Happening::Prompt(true) && (
        state.at is Prompt || state.at is Held))),
        state.after(event, now).progress.output_emitted == (state.progress.output_emitted
            || counted(state, event) is Some),
{
    lemma_progress(state, event, now);
}

/// The cleanup begins with the review, or when nothing is left to be observed on the last
/// pass; at that very time, and never otherwise.
pub proof fn law_when_the_cleanup_begins(state: State, event: Happening, now: Duration)
    requires
        state.wf(),
    ensures
        state.after(event, now).progress.cleanup_started == (match state.progress.cleanup_started {
            Some(started) => Some(started),
            None => if ends_the_last_pass(state, event) || (state.at.why() is None && state.after(
                event,
                now,
            ).progress.review is Some) {
                Some(now)
            } else {
                None
            },
        }),
{
    lemma_progress(state, event, now);
}

proof fn lemma_progress(state: State, event: Happening, now: Duration)
    requires
        state.wf(),
    ensures
        ({
            let progress = state.progress;
            let next = state.after(event, now).progress;
            &&& next.review == (match counted(state, event) {
                Some(sighting) if progress.review is None && sighting.complete
                    && sighting.elapsed.nanos <= state.inference.nanos => Some(sighting.text),
                _ => progress.review,
            })
            &&& next.prompt_emitted == (progress.prompt_emitted || (progress.cleanup_started is None
                && event == Happening::Prompt(true) && (state.at is Prompt || state.at is Held)))
            &&& next.output_emitted == (progress.output_emitted || counted(state, event) is Some)
            &&& next.cleanup_started == (match progress.cleanup_started {
                Some(started) => Some(started),
                None => if ends_the_last_pass(state, event) || (state.at.why() is None
                    && next.review is Some) {
                    Some(now)
                } else {
                    None
                },
            })
        }),
{
    match (state.at, event) {
        (Point::Receive(why), Happening::Observation(Some(sighting))) => {
            lemma_recorded_progress(state, why, sighting, false, now);
        },
        (Point::Held(why, sighting), Happening::Prompt(arrived)) => {
            lemma_recorded_progress(state, why, sighting, arrived, now);
        },
        _ => {},
    }
}

proof fn lemma_recorded_progress(
    state: State,
    why: Option<Why>,
    sighting: Sighting,
    prompt: bool,
    now: Duration,
)
    requires
        state.progress.review is Some ==> state.progress.cleanup_started is Some || why is Some,
    ensures
        ({
            let progress = state.progress;
            let next = state.recorded(why, sighting, prompt, now).progress;
            let counts = progress.cleanup_started is None && (progress.prompt_emitted || prompt);
            &&& next.review == (if counts && progress.review is None && sighting.complete
                && sighting.elapsed.nanos <= state.inference.nanos {
                Some(sighting.text)
            } else {
                progress.review
            })
            &&& next.prompt_emitted == (progress.prompt_emitted || counts)
            &&& next.output_emitted == (progress.output_emitted || counts)
            &&& next.cleanup_started == (match progress.cleanup_started {
                Some(started) => Some(started),
                None => if why is None && next.review is Some {
                    Some(now)
                } else {
                    None
                },
            })
        }),
{
}

/// What is done next, action by action.
pub proof fn law_what_is_done_next(state: State, event: Happening, now: Duration)
    requires
        state.wf(),
    ensures
        ({
            let next = state.after(event, now);
            let collect = if next.progress.cleanup_started is None {
                Point::Receive(None)
            } else {
                Point::Descendants
            };
            let unasked = state.progress.cleanup_started is None && !state.progress.prompt_emitted;
            match (state.at, event) {
                (Point::Prompt, Happening::Prompt(_)) => next.at == collect,
                (Point::Receive(why), Happening::Observation(Some(sighting))) => if unasked {
                    next == (State { at: Point::Held(why, sighting), ..state })
                } else if why is Some {
                    next.at == state.at
                } else {
                    next.at == collect
                },
                (Point::Held(why, _), Happening::Prompt(_)) => next.at == (if why is Some {
                    Point::Receive(why)
                } else {
                    collect
                }),
                (Point::Receive(None), Happening::Observation(None)) => next.at is Descendants,
                (Point::Receive(Some(Why::Exited)), Happening::Observation(None)) =>
                    next.at is Finished,
                (Point::Receive(Some(Why::Deadline)), Happening::Observation(None)) => next.at
                    is Terminate && next.forced_started == Some(now),
                (Point::Descendants, Happening::Descendants(_)) => next.at is Exit,
                (Point::Exit, Happening::Exit(exited)) => exited || state.exited ==> next.at is Tree,
                (Point::Tree, Happening::Tree(true)) => next.at == Point::Settle(Why::Exited),
                (Point::Tree, Happening::Tree(false)) => true,
                (Point::Settle(why), Happening::Settled) => next.at == Point::Receive(Some(why)),
                (Point::Terminate, Happening::Terminated(_)) => true,
                (Point::Sleep, Happening::Woke) => next.at == (if unasked {
                    Point::Prompt
                } else {
                    collect
                }),
                _ => next == state,
            }
        }),
{
    match (state.at, event) {
        (Point::Receive(why), Happening::Observation(Some(sighting))) => {
            lemma_recorded_next(state, why, sighting, false, now);
        },
        (Point::Held(why, sighting), Happening::Prompt(arrived)) => {
            lemma_recorded_next(state, why, sighting, arrived, now);
        },
        _ => {},
    }
}

proof fn lemma_recorded_next(
    state: State,
    why: Option<Why>,
    sighting: Sighting,
    prompt: bool,
    now: Duration,
)
    ensures
        ({
            let next = state.recorded(why, sighting, prompt, now);
            next.at == (if why is Some {
                Point::Receive(why)
            } else if next.progress.cleanup_started is None {
                Point::Receive(None)
            } else {
                Point::Descendants
            })
        }),
{
}

/// What an event has to do for each action.
pub proof fn law_actions(session: &Session, action: Action)
    requires
        call_ensures(Session::action, (session,), action),
    ensures
        action == (match session@.at {
            Point::Prompt => Action::CheckPrompt,
            Point::Receive(_) => Action::Receive,
            Point::Held(_, _) => Action::AwaitPrompt,
            Point::Descendants => Action::ListDescendants,
            Point::Exit => Action::PollChild,
            Point::Tree => Action::ProbeTree,
            Point::Settle(_) => Action::SignalStop,
            Point::Terminate => Action::Terminate,
            Point::Sleep => Action::Sleep,
            Point::Finished(_) => Action::Finish,
        }),
{
}

/// A review starts with the question whether the prompt was submitted, with its deadlines
/// as they were asked for, nothing reached, and its launch in the log.
pub proof fn law_how_a_review_starts(
    policy: &SecondOpinionConfig,
    now: Duration,
    session: Session,
)
    requires
        call_ensures(Session::start, (policy, now), session),
    ensures
        session.run_id() == policy.run_id@,
        ({
            let state = session@;
            &&& state.at is Prompt
            &&& state.inference == policy.inference
            &&& state.normal_cleanup == policy.normal_cleanup
            &&& state.forced_cleanup == policy.forced_cleanup
            &&& state.progress.review is None && state.progress.cleanup_started is None
            &&& !state.progress.prompt_emitted && !state.progress.output_emitted
            &&& state.forced_started is None && !state.forced_error && !state.tracking_failed
            &&& !state.exited && !state.absent && state.known.len() == 0
            &&& state.log.len() == 1
            &&& state.log[0] == Entry {
                phase: Phase::Launched,
                elapsed_ms: now.millis(),
                outcome: None,
                reason: Seq::empty(),
            }
        }),
{
}

/// What is handed out is the review, if and only if the outcome says that one came of it.
pub proof fn law_what_is_handed_out(session: Session, review: Option<String>)
    requires
        call_ensures(Session::into_review, (session,), review),
    ensures
        session@.at == Point::Finished(Outcome::CompletedClean) || session@.at == Point::Finished(
            Outcome::CompletedForcedCleanup,
        ) ==> crate::text::text_view(review) == session@.progress.review,
        !(session@.at == Point::Finished(Outcome::CompletedClean) || session@.at == Point::Finished(
            Outcome::CompletedForcedCleanup,
        )) ==> review is None,
{
}

/// A record of the present.
pub open spec fn at_present(
    phase: Phase,
    outcome: Option<Outcome>,
    reason: Seq<char>,
    now: Duration,
) -> Entry {
    Entry { phase, elapsed_ms: now.millis(), outcome, reason }
}

/// A record, where there is one.
pub open spec fn one_if(condition: bool, entry: Entry) -> Seq<Entry> {
    if condition {
        seq![entry]
    } else {
        Seq::empty()
    }
}

/// The records that tell two moments of a review apart: what was reached in between, in
/// the order of the phases, and with the reasons for the cleanup and for the end.
pub open spec fn records_between(
    state: State,
    next: State,
    cleanup_reason: Seq<char>,
    now: Duration,
) -> Seq<Entry> {
    let none = Seq::<char>::empty();
    one_if(
        next.progress.prompt_emitted && !state.progress.prompt_emitted,
        at_present(Phase::PromptSubmitted, None, none, now),
    ) + one_if(
        next.progress.output_emitted && !state.progress.output_emitted,
        at_present(Phase::OutputObserved, None, none, now),
    ) + one_if(
        next.progress.review is Some && state.progress.review is None,
        at_present(Phase::OutputComplete, None, none, now),
    ) + one_if(
        next.progress.cleanup_started is Some && state.progress.cleanup_started is None,
        at_present(Phase::CleanupStarted, None, cleanup_reason, now),
    ) + one_if(
        next.at is Finished && state.at !is Finished,
        at_present(
            Phase::Terminated,
            next.at.outcome(),
            if next.absent {
                "process_group_absent"@
            } else {
                "process_group_present"@
            },
            now,
        ),
    )
}

/// What is logged for an event is what was reached by it, and nothing else: each phase with
/// the time of the event, the cleanup with its reason, and the end with its outcome and
/// whether anything of the child is left.
pub proof fn law_what_is_logged(state: State, event: Happening, now: Duration)
    requires
        state.wf(),
    ensures
        state.after(event, now).log == state.log + records_between(
            state,
            state.after(event, now),
            if state.at == Point::Receive(Some(Why::Exited)) {
                "child_exited"@
            } else if state.at == Point::Receive(Some(Why::Deadline)) {
                "inference_deadline"@
            } else {
                Seq::empty()
            },
            now,
        ),
{
    let next = state.after(event, now);
    match (state.at, event) {
        (Point::Receive(why), Happening::Observation(Some(sighting))) => {
            if state.progress.awaits_prompt() {
                lemma_nothing_between(state, next, Seq::empty(), now);
            } else {
                lemma_recorded_log(state, why, sighting, false, now);
            }
            lemma_reason_is_moot(state, next, Seq::empty(), "child_exited"@, now);
            lemma_reason_is_moot(state, next, Seq::empty(), "inference_deadline"@, now);
        },
        (Point::Held(why, sighting), Happening::Prompt(arrived)) => {
            lemma_recorded_log(state, why, sighting, arrived, now);
        },
        (Point::Receive(why), Happening::Observation(None)) => {
            lemma_drained_log(state, why, now);
        },
        (Point::Prompt, Happening::Prompt(ready)) => {
            assert(next.log =~= state.log + records_between(state, next, Seq::empty(), now));
        },
        (Point::Exit, Happening::Exit(_)) => {
            lemma_checked_log(state, next, now);
        },
        (Point::Tree, Happening::Tree(_)) => {
            lemma_checked_log(state, next, now);
        },
        (Point::Terminate, Happening::Terminated(_)) => {
            lemma_checked_log(state, next, now);
        },
        _ => {
            let reason = if state.at == Point::Receive(Some(Why::Exited)) {
                "child_exited"@
            } else if state.at == Point::Receive(Some(Why::Deadline)) {
                "inference_deadline"@
            } else {
                Seq::empty()
            };
            lemma_nothing_between(state, next, reason, now);
        },
    }
}

proof fn lemma_nothing_between(state: State, next: State, reason: Seq<char>, now: Duration)
    requires
        next.progress == state.progress,
        next.log == state.log,
        next.at is Finished ==> state.at is Finished,
    ensures
        next.log == state.log + records_between(state, next, reason, now),
{
    assert(next.log =~= state.log + records_between(state, next, reason, now));
}

proof fn lemma_reason_is_moot(
    state: State,
    next: State,
    one: Seq<char>,
    other: Seq<char>,
    now: Duration,
)
    ensures
        next.progress.cleanup_started is None || state.progress.cleanup_started is Some
            ==> records_between(state, next, one, now) == records_between(state, next, other, now),
{
}

proof fn lemma_checked_log(state: State, next: State, now: Duration)
    requires
        next.progress == state.progress,
        !next.absent ==> (next.at is Finished ==> next.log == state.log.push(
            State::last_entry(next.at.outcome()->0, "process_group_present"@, now),
        )),
        next.at !is Finished ==> next.log == state.log,
        state.at !is Finished,
        next.at is Finished ==> !next.absent,
    ensures
        next.log == state.log + records_between(state, next, Seq::empty(), now),
{
    assert(next.log =~= state.log + records_between(state, next, Seq::empty(), now));
}

proof fn lemma_recorded_log(
    state: State,
    why: Option<Why>,
    sighting: Sighting,
    prompt: bool,
    now: Duration,
)
    requires
        state.at !is Finished,
        state.progress.review is Some ==> state.progress.cleanup_started is Some || why is Some,
        state.progress.wf(),
    ensures
        ({
            let next = state.recorded(why, sighting, prompt, now);
            &&& next.log == state.log + records_between(state, next, Seq::empty(), now)
            &&& why is Some ==> next.progress.cleanup_started == state.progress.cleanup_started
        }),
{
    let next = state.recorded(why, sighting, prompt, now);
    lemma_recorded_next(state, why, sighting, prompt, now);
    lemma_recorded_progress(state, why, sighting, prompt, now);
    let (progress, first) = state.progress.observed(sighting, prompt, state.inference, now);
    let (_, second) = progress.cleaning(Seq::empty(), now);
    let added = if why is None && progress.review is Some {
        first + second
    } else {
        first
    };
    assert(next.log =~= state.log + added);
    assert(added =~= records_between(state, next, Seq::empty(), now));
}

proof fn lemma_drained_log(state: State, why: Option<Why>, now: Duration)
    requires
        state.wf(),
        state.at == Point::Receive(why),
    ensures
        ({
            let next = state.drained(why, now);
            let reason = match why {
                Some(Why::Exited) => "child_exited"@,
                Some(Why::Deadline) => "inference_deadline"@,
                None => Seq::empty(),
            };
            next.log == state.log + records_between(state, next, reason, now)
        }),
{
    let next = state.drained(why, now);
    let reason = match why {
        Some(Why::Exited) => "child_exited"@,
        Some(Why::Deadline) => "inference_deadline"@,
        None => Seq::empty(),
    };
    assert(next.log =~= state.log + records_between(state, next, reason, now));
}

/// One step goes on by one event, at its time, and nothing else; the run keeps its name.
pub proof fn law_what_one_step_does(
    session: &mut Session,
    event: Event,
    now: Duration,
)
    requires
        call_ensures(Session::step, (session, event, now), ()),
    ensures
        final(session).run_id() == old(session).run_id(),
        final(session)@ == old(session)@.after(
            match event {
                Event::Prompt(ready) => Happening::Prompt(ready),
                Event::Observation(None) => Happening::Observation(None),
                Event::Observation(Some(observation)) => Happening::Observation(
                    Some(
                        Sighting {
                            text: observation.text@,
                            complete: observation.complete,
                            elapsed: observation.elapsed,
                        },
                    ),
                ),
                Event::Descendants(None) => Happening::Descendants(None),
                Event::Descendants(Some(found)) => Happening::Descendants(Some(found@)),
                Event::Exit(exited) => Happening::Exit(exited),
                Event::Tree(absent) => Happening::Tree(absent),
                Event::Settled => Happening::Settled,
                Event::Terminated(ok) => Happening::Terminated(ok),
                Event::Woke => Happening::Woke,
            },
            now,
        ),
{
}

/// What can be asked of a review: who is known, how it ended, and the lines of its log.
pub proof fn law_what_can_be_asked(
    session: &Session,
    known: &Vec<u32>,
    outcome: Option<Outcome>,
    written: usize,
    lines: Vec<String>,
)
    requires
        call_ensures(Session::known, (session,), known),
        call_ensures(Session::outcome, (session,), outcome),
        call_ensures(Session::lines, (session, written), lines),
    ensures
        known@ == session@.known,
        outcome == session@.at.outcome(),
        outcome is Some <==> session@.at is Finished,
        written <= session@.log.len() ==> lines@.len() == session@.log.len() - written,
        forall|k: int|
            0 <= k < lines@.len() ==> (#[trigger] lines@[k])@ == session@.log[written + k].line(
                session.run_id(),
            ),
{
    let views = lines@.map_values(|l: String| l@);
    assert(views.len() == lines@.len());
    assert forall|k: int| 0 <= k < lines@.len() implies (#[trigger] lines@[k])@
        == session@.log[written + k].line(session.run_id()) by {
        assert(views[k] == lines@[k]@);
    }
}

/// Nobody is found but where descendants are listed.
pub proof fn law_nobody_else_is_known(state: State, event: Happening, now: Duration)
    requires
        state.at !is Descendants || event !is Descendants || event == Happening::Descendants(None),
    ensures
        state.after(event, now).known == state.known,
{
    crate::session::laws::lemma_nobody_else_is_found(state, event, now);
}

} // verus!
