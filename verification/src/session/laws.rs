//! What holds of every coordinated review, whatever happens in it.

use vstd::prelude::*;
use crate::coordinator::Progress;
use crate::lifecycle::{Entry, Outcome, Phase};
use crate::session::{Happening, Point, State, Why};
use crate::time::Duration;
use crate::transcript::Sighting;

verus! {

impl Point {
    /// Why observations are taken in a last time, if this is a part of that.
    pub open spec fn why(self) -> Option<Why> {
        match self {
            Point::Receive(why) => why,
            Point::Held(why, _) => why,
            Point::Settle(why) => Some(why),
            _ => None,
        }
    }

    /// How the review ended, if this is the end.
    pub open spec fn outcome(self) -> Option<Outcome> {
        match self {
            Point::Finished(outcome) => Some(outcome),
            _ => None,
        }
    }
}

/// Whether a log lists the phases that were reached, each once and in their order,
/// with the last where it is over; and whether nothing but that last record has
/// an outcome.
pub open spec fn is_log_of(log: Seq<Entry>, progress: Progress, outcome: Option<Outcome>) -> bool {
    &&& crate::coordinator::phases(log) == progress.path() + crate::coordinator::when(
        outcome is Some,
        Phase::Terminated,
    )
    &&& forall|i: int|
        0 <= i < log.len() ==> (#[trigger] log[i]).outcome == (if log[i].phase
            == Phase::Terminated {
            outcome
        } else {
            None
        })
}

impl State {
    /// What holds of every review at every moment.
    pub open spec fn wf(self) -> bool {
        &&& self.progress.wf()
        &&& is_log_of(self.log, self.progress, self.at.outcome())
        &&& self.stages_follow()
        // Nobody is known twice.
        &&& self.known.no_duplicates()
    }

    /// How the moment fits what came before it.
    pub open spec fn stages_follow(self) -> bool {
        // The killing is a part of the cleanup, and so is the end.
        &&& self.forced_started is Some ==> self.progress.cleanup_started is Some
        &&& self.at is Terminate ==> self.forced_started is Some
        &&& self.at is Finished ==> self.progress.cleanup_started is Some
        // What waits for the prompt needs it.
        &&& self.at is Held ==> self.progress.awaits_prompt()
        &&& self.at == Point::Receive(None) ==> self.progress.cleanup_started is None
        // A review is followed by the cleanup.
        &&& self.progress.review is Some && self.progress.cleanup_started is None
            ==> self.at.why() is Some
        // The time for inference only ends where the cleanup has not begun.
        &&& self.at.why() == Some(Why::Deadline) ==> self.progress.cleanup_started is None
        // The end is only near when nothing of the child is left.
        &&& self.at is Tree ==> self.exited
        &&& self.at.why() == Some(Why::Exited) ==> self.exited && self.absent
        &&& self.absent ==> self.at.why() == Some(Why::Exited) || self.at is Finished
        // A review ends with nothing of the child left, in the way that its course
        // says; or else with a failed cleanup.
        &&& self.at matches Point::Finished(outcome) ==> if self.absent {
            self.exited && outcome == self.outcome()
        } else {
            outcome == Outcome::CleanupFailed
        }
    }

    /// What follows a list of events, each with its time.
    pub open spec fn after_all(self, events: Seq<(Happening, Duration)>) -> State
        decreases events.len(),
    {
        if events.len() == 0 {
            self
        } else {
            self.after_all(events.drop_last()).after(events.last().0, events.last().1)
        }
    }
}

/// Records without an outcome, for phases that are reached, keep the log true.
proof fn lemma_log_goes_on(
    log: Seq<Entry>,
    progress: Progress,
    next: Progress,
    added: Seq<Entry>,
)
    requires
        is_log_of(log, progress, None),
        crate::coordinator::phases(log + added) == next.path(),
        forall|i: int| 0 <= i < added.len() ==> (#[trigger] added[i]).outcome is None,
    ensures
        is_log_of(log + added, next, None),
{
    let whole = log + added;
    assert(next.path() + crate::coordinator::when(false, Phase::Terminated) =~= next.path());
    assert forall|i: int| 0 <= i < whole.len() implies (#[trigger] whole[i]).outcome is None by {
        if i < log.len() {
            assert(whole[i] == log[i]);
        } else {
            assert(whole[i] == added[i - log.len()]);
        }
    }
}

/// The steps of the progress keep the log true.
proof fn lemma_steps_keep_the_log(
    state: State,
    prompt: bool,
    sighting: Sighting,
    reason: Seq<char>,
    now: Duration,
)
    requires
        state.progress.wf(),
        is_log_of(state.log, state.progress, None),
    ensures
        ({
            let next = state.with(state.progress.prompted(prompt, now));
            next.progress.wf() && is_log_of(next.log, next.progress, None)
        }),
        ({
            let next = state.with(state.progress.observed(sighting, prompt, state.inference, now));
            next.progress.wf() && is_log_of(next.log, next.progress, None)
        }),
        ({
            let next = state.with(state.progress.cleaning(reason, now));
            next.progress.wf() && is_log_of(next.log, next.progress, None)
        }),
{
    let progress = state.progress;
    assert(progress.path() + crate::coordinator::when(false, Phase::Terminated)
        =~= progress.path());
    crate::coordinator::law_log_follows_the_progress(
        progress,
        state.log,
        prompt,
        sighting,
        state.inference,
        reason,
        now,
    );
    let (next, added) = progress.prompted(prompt, now);
    lemma_log_goes_on(state.log, progress, next, added);
    let (next, added) = progress.observed(sighting, prompt, state.inference, now);
    lemma_log_goes_on(state.log, progress, next, added);
    let (next, added) = progress.cleaning(reason, now);
    lemma_log_goes_on(state.log, progress, next, added);
}

/// The last record completes the log.
proof fn lemma_last_record(
    log: Seq<Entry>,
    progress: Progress,
    outcome: Outcome,
    reason: Seq<char>,
    now: Duration,
)
    requires
        is_log_of(log, progress, None),
    ensures
        is_log_of(log.push(State::last_entry(outcome, reason, now)), progress, Some(outcome)),
{
    let whole = log.push(State::last_entry(outcome, reason, now));
    let path = progress.path();
    assert(path + crate::coordinator::when(false, Phase::Terminated) =~= path);
    assert(crate::coordinator::phases(whole) =~= path + crate::coordinator::when(
        true,
        Phase::Terminated,
    ));
    assert forall|i: int| 0 <= i < log.len() implies (#[trigger] whole[i]).phase
        != Phase::Terminated && whole[i].outcome is None by {
        assert(whole[i] == log[i]);
        assert(crate::coordinator::phases(log)[i] == path[i]);
    }
}

/// The checks of a round keep a review sound.
proof fn lemma_checks_keep_wf(state: State, now: Duration)
    requires
        state.wf(),
        state.at is Exit || state.at is Tree,
    ensures
        state.check_inference(now).wf(),
{
    lemma_last_record(
        state.log,
        state.progress,
        Outcome::CleanupFailed,
        "process_group_present"@,
        now,
    );
}

/// What is taken in keeps a review sound.
proof fn lemma_recording_keeps_wf(
    state: State,
    why: Option<Why>,
    sighting: Sighting,
    prompt: bool,
    now: Duration,
)
    requires
        state.wf(),
        state.at == Point::Receive(why) || state.at == Point::Held(why, sighting),
    ensures
        state.recorded(why, sighting, prompt, now).wf(),
{
    lemma_steps_keep_the_log(state, prompt, sighting, Seq::empty(), now);
    let next = state.with(state.progress.observed(sighting, prompt, state.inference, now));
    lemma_steps_keep_the_log(next, prompt, sighting, Seq::empty(), now);
}

/// The end of what is taken in keeps a review sound.
proof fn lemma_draining_keeps_wf(state: State, why: Option<Why>, now: Duration)
    requires
        state.wf(),
        state.at == Point::Receive(why),
    ensures
        state.drained(why, now).wf(),
{
    let any = Sighting { text: Seq::empty(), complete: false, elapsed: now };
    lemma_steps_keep_the_log(state, false, any, "child_exited"@, now);
    lemma_steps_keep_the_log(state, false, any, "inference_deadline"@, now);
    let next = state.with(state.progress.cleaning("child_exited"@, now));
    lemma_last_record(next.log, next.progress, next.outcome(), "process_group_absent"@, now);
}

/// One more event keeps a review sound.
proof fn lemma_after_keeps_wf(state: State, event: Happening, now: Duration)
    requires
        state.wf(),
    ensures
        state.after(event, now).wf(),
{
    match (state.at, event) {
        (Point::Prompt, Happening::Prompt(ready)) => {
            let any = Sighting { text: Seq::empty(), complete: false, elapsed: now };
            lemma_steps_keep_the_log(state, ready, any, Seq::empty(), now);
        },
        (Point::Receive(why), Happening::Observation(Some(sighting))) => {
            lemma_recording_keeps_wf(state, why, sighting, false, now);
        },
        (Point::Receive(why), Happening::Observation(None)) => {
            lemma_draining_keeps_wf(state, why, now);
        },
        (Point::Held(why, sighting), Happening::Prompt(arrived)) => {
            lemma_recording_keeps_wf(state, why, sighting, arrived, now);
        },
        (Point::Descendants, Happening::Descendants(Some(found))) => {
            crate::processes::law_known_processes_are_kept(state.known, found);
        },
        (Point::Exit, Happening::Exit(_)) => {
            lemma_checks_keep_wf(state, now);
        },
        (Point::Tree, Happening::Tree(_)) => {
            lemma_checks_keep_wf(state, now);
        },
        (Point::Terminate, Happening::Terminated(_)) => {
            lemma_last_record(
                state.log,
                state.progress,
                Outcome::CleanupFailed,
                "process_group_present"@,
                now,
            );
        },
        _ => {},
    }
}

/// Any number of events keeps a review sound.
proof fn lemma_after_all_keeps_wf(state: State, events: Seq<(Happening, Duration)>)
    requires
        state.wf(),
    ensures
        state.after_all(events).wf(),
    decreases events.len(),
{
    if events.len() > 0 {
        let front = events.drop_last();
        lemma_after_all_keeps_wf(state, front);
        lemma_after_keeps_wf(state.after_all(front), events.last().0, events.last().1);
    }
}

/// Whatever happens in a review, in whatever order and at whatever times, it
/// stays sound: its log is in order, its outcome is right, the phases of its
/// cleanup follow each other, and no process is known twice.
pub proof fn law_every_review_is_sound(
    inference: Duration,
    normal_cleanup: Duration,
    forced_cleanup: Duration,
    launch: Duration,
    events: Seq<(Happening, Duration)>,
)
    ensures
        State::launched(inference, normal_cleanup, forced_cleanup, launch).after_all(events).wf(),
{
    let start = State::launched(inference, normal_cleanup, forced_cleanup, launch);
    assert(crate::coordinator::phases(start.log) =~= start.progress.path()
        + crate::coordinator::when(start.at is Finished, Phase::Terminated));
    lemma_after_all_keeps_wf(start, events);
}

/// The end is final: nothing that happens behind it changes a review.
pub proof fn law_the_end_is_final(state: State, event: Happening, now: Duration)
    requires
        state.at is Finished,
    ensures
        state.after(event, now) == state,
{
}

/// A review is handed out exactly where it ended well; by then nothing of the
/// child is left, and nothing went wrong in the cleanup.
pub proof fn law_a_review_is_released_after_the_cleanup(state: State)
    requires
        state.wf(),
    ensures
        state.released() is Some <==> (state.at matches Point::Finished(outcome)
            && crate::startup::completed(outcome)),
        state.released() is Some ==> {
            &&& state.released() == state.progress.review
            &&& state.exited && state.absent
            &&& !state.forced_error && !state.tracking_failed
        },
{
}

/// The outcome says what the course of a review was.
pub proof fn law_the_outcome_tells_the_course(state: State)
    requires
        state.wf(),
    ensures
        state.at == Point::Finished(Outcome::CompletedClean) ==> state.absent
            && state.progress.review is Some && state.forced_started is None,
        state.at == Point::Finished(Outcome::CompletedForcedCleanup) ==> state.absent
            && state.progress.review is Some && state.forced_started is Some,
        state.at == Point::Finished(Outcome::FailedIncomplete) ==> state.absent
            && state.progress.review is None,
        state.at == Point::Finished(Outcome::CleanupFailed) ==> !state.absent || state.forced_error
            || state.tracking_failed,
{
}

/// A review only goes to sleep within its deadlines: the one for inference until
/// the cleanup begins, the one for the child to go by itself until it is killed,
/// and the one for the killing from there on.
pub proof fn law_deadlines_are_kept(state: State, event: Happening, now: Duration)
    requires
        state.wf(),
        state.at !is Sleep,
        state.after(event, now).at is Sleep,
    ensures
        ({
            let next = state.after(event, now);
            &&& next.progress.cleanup_started is None ==> now.nanos <= next.inference.nanos
            &&& next.progress.cleanup_started matches Some(started) ==> next.forced_started is Some
                || now.after(started) < next.normal_cleanup.nanos
            &&& next.forced_started matches Some(started) ==> now.after(started)
                < next.forced_cleanup.nanos
        }),
{
}

/// Nobody is found but where descendants are listed.
pub(crate) proof fn lemma_nobody_else_is_found(state: State, event: Happening, now: Duration)
    requires
        state.at !is Descendants || event !is Descendants || event == Happening::Descendants(None),
    ensures
        state.after(event, now).known == state.known,
{
}

/// A process that is known to descend from the child stays known.
pub proof fn law_who_is_known_stays_known(state: State, event: Happening, now: Duration, pid: u32)
    requires
        state.known.contains(pid),
    ensures
        state.after(event, now).known.contains(pid),
{
    match (state.at, event) {
        (Point::Descendants, Happening::Descendants(Some(found))) => {
            crate::processes::law_known_processes_are_kept(state.known, found);
            assert(crate::processes::joined_with(state.known, found).contains(pid));
        },
        _ => {
            lemma_nobody_else_is_found(state, event, now);
        },
    }
}

impl State {
    /// Whether what went wrong so far is still wrong in `next`, and the deadlines
    /// are the same.
    pub open spec fn holds_on_to(self, next: State) -> bool {
        &&& self.tracking_failed ==> next.tracking_failed
        &&& self.forced_error ==> next.forced_error
        &&& self.exited ==> next.exited
        &&& next.inference == self.inference
        &&& next.normal_cleanup == self.normal_cleanup
        &&& next.forced_cleanup == self.forced_cleanup
    }
}

/// What went wrong in the cleanup stays wrong, and the deadlines stay what they
/// were.
pub proof fn law_failures_stay(state: State, event: Happening, now: Duration)
    ensures
        state.holds_on_to(state.after(event, now)),
{
    match (state.at, event) {
        (Point::Receive(why), Happening::Observation(Some(sighting))) => {
            assert(state.holds_on_to(state.recorded(why, sighting, false, now)));
        },
        (Point::Held(why, sighting), Happening::Prompt(arrived)) => {
            assert(state.holds_on_to(state.recorded(why, sighting, arrived, now)));
        },
        (Point::Receive(why), Happening::Observation(None)) => {
            assert(state.holds_on_to(state.drained(why, now)));
        },
        (Point::Exit, Happening::Exit(_)) => {
            assert(state.holds_on_to(state.check_inference(now)));
        },
        (Point::Tree, Happening::Tree(_)) => {
            assert(state.holds_on_to(state.check_inference(now)));
        },
        _ => {},
    }
}

/// The log only grows.
pub proof fn law_the_log_only_grows(state: State, event: Happening, now: Duration)
    ensures
        state.log.is_prefix_of(state.after(event, now).log),
{
    let added = lemma_added_is_present(state, event, now);
    assert(state.log =~= (state.log + added).subrange(0, state.log.len() as int));
}

/// Where the processes could once not be listed, or the killing once met an error,
/// the review is kept back for good.
pub proof fn law_a_failed_cleanup_withholds_the_review(
    state: State,
    events: Seq<(Happening, Duration)>,
)
    requires
        state.wf(),
        state.tracking_failed || state.forced_error,
    ensures
        state.after_all(events).released() is None,
{
    lemma_after_all_holds_on(state, events);
    lemma_after_all_keeps_wf(state, events);
    law_a_review_is_released_after_the_cleanup(state.after_all(events));
}

proof fn lemma_after_all_holds_on(state: State, events: Seq<(Happening, Duration)>)
    ensures
        state.holds_on_to(state.after_all(events)),
    decreases events.len(),
{
    if events.len() > 0 {
        let front = events.drop_last();
        lemma_after_all_holds_on(state, front);
        law_failures_stay(state.after_all(front), events.last().0, events.last().1);
    }
}

/// Whether something was observed among the events.
pub open spec fn was_observed(events: Seq<(Happening, Duration)>, sighting: Sighting) -> bool {
    exists|i: int|
        0 <= i < events.len() && (#[trigger] events[i]).0 == Happening::Observation(Some(sighting))
}

/// The review is a reply that was observed, that ended the turn, and that did so
/// within the time for inference.
pub proof fn law_the_review_was_observed_in_time(
    inference: Duration,
    normal_cleanup: Duration,
    forced_cleanup: Duration,
    launch: Duration,
    events: Seq<(Happening, Duration)>,
)
    ensures
        ({
            let state = State::launched(
                inference,
                normal_cleanup,
                forced_cleanup,
                launch,
            ).after_all(events);
            state.progress.review matches Some(text) ==> exists|sighting: Sighting| #[trigger]
                was_observed(events, sighting) && sighting.text == text
                    && sighting.completed_within(inference)
        }),
{
    lemma_what_is_kept_was_observed(
        State::launched(inference, normal_cleanup, forced_cleanup, launch),
        events,
    );
}

/// Whether everything that a review keeps was observed among the events.
spec fn keeps_what_was_observed(state: State, events: Seq<(Happening, Duration)>) -> bool {
    &&& state.progress.review matches Some(text) ==> exists|sighting: Sighting| #[trigger]
        was_observed(events, sighting) && sighting.text == text && sighting.completed_within(
            state.inference,
        )
    &&& state.at matches Point::Held(_, sighting) ==> was_observed(events, sighting)
}

proof fn lemma_what_is_kept_was_observed(start: State, events: Seq<(Happening, Duration)>)
    requires
        start.progress.review is None,
        start.at !is Held,
    ensures
        keeps_what_was_observed(start.after_all(events), events),
        start.after_all(events).inference == start.inference,
    decreases events.len(),
{
    if events.len() > 0 {
        let front = events.drop_last();
        let before = start.after_all(front);
        let (event, now) = events.last();
        lemma_what_is_kept_was_observed(start, front);
        law_failures_stay(before, event, now);
        assert forall|sighting: Sighting| #[trigger]
            was_observed(front, sighting) implies was_observed(events, sighting) by {
            let i = choose|i: int|
                0 <= i < front.len() && (#[trigger] front[i]).0 == Happening::Observation(
                    Some(sighting),
                );
            assert(events[i] == front[i]);
        }
        match (before.at, event) {
            (Point::Receive(why), Happening::Observation(Some(sighting))) => {
                assert(events[events.len() - 1].0 == event);
                assert(was_observed(events, sighting));
                lemma_recorded_review(before, why, sighting, false, now);
            },
            (Point::Held(why, sighting), Happening::Prompt(arrived)) => {
                assert(was_observed(events, sighting));
                lemma_recorded_review(before, why, sighting, arrived, now);
            },
            _ => {
                lemma_nothing_else_is_recorded(before, event, now);
            },
        }
    }
}

/// A new review is what was just taken in.
proof fn lemma_recorded_review(
    state: State,
    why: Option<Why>,
    sighting: Sighting,
    prompt: bool,
    now: Duration,
)
    ensures
        ({
            let next = state.recorded(why, sighting, prompt, now);
            &&& next.at !is Held
            &&& next.progress.review == state.progress.review || (next.progress.review == Some(
                sighting.text,
            ) && sighting.completed_within(state.inference))
        }),
{
}

/// No event but an observation, or the prompt that one waited for, changes the
/// review or what waits.
proof fn lemma_nothing_else_is_recorded(state: State, event: Happening, now: Duration)
    requires
        !(state.at is Receive && event matches Happening::Observation(Some(_))),
        !(state.at is Held && event is Prompt),
    ensures
        ({
            let next = state.after(event, now);
            &&& next.progress.review == state.progress.review
            &&& next.at is Held ==> next.at == state.at
        }),
{
    match (state.at, event) {
        (Point::Receive(why), Happening::Observation(None)) => {
            assert(state.drained(why, now).at !is Held);
        },
        _ => {},
    }
}

/// An observation without what it says.
pub open spec fn without_text(sighting: Sighting) -> Sighting {
    Sighting { text: Seq::empty(), ..sighting }
}

impl Happening {
    /// The event without what a reply says.
    pub open spec fn without_text(self) -> Happening {
        match self {
            Happening::Observation(Some(sighting)) => Happening::Observation(
                Some(without_text(sighting)),
            ),
            _ => self,
        }
    }
}

impl State {
    /// The review without what its replies say.
    pub open spec fn without_text(self) -> State {
        State {
            progress: Progress {
                review: match self.progress.review {
                    Some(_) => Some(Seq::empty()),
                    None => None,
                },
                ..self.progress
            },
            at: match self.at {
                Point::Held(why, sighting) => Point::Held(why, without_text(sighting)),
                _ => self.at,
            },
            ..self
        }
    }
}

/// Events without what the replies among them say.
pub open spec fn without_texts(events: Seq<(Happening, Duration)>) -> Seq<(Happening, Duration)> {
    events.map_values(|event: (Happening, Duration)| (event.0.without_text(), event.1))
}

/// What a reply says does not matter to the course of a review.
proof fn lemma_texts_do_not_matter(state: State, event: Happening, now: Duration)
    ensures
        state.after(event, now).without_text() == state.without_text().after(
            event.without_text(),
            now,
        ),
{
    match (state.at, event) {
        (Point::Receive(why), Happening::Observation(Some(sighting))) => {
            lemma_recorded_text_does_not_matter(state, why, sighting, false, now);
        },
        (Point::Held(why, sighting), Happening::Prompt(arrived)) => {
            lemma_recorded_text_does_not_matter(state, why, sighting, arrived, now);
        },
        (Point::Receive(why), Happening::Observation(None)) => {
            lemma_drained_text_does_not_matter(state, why, now);
        },
        (Point::Exit, Happening::Exit(_)) => {
            lemma_checked_text_does_not_matter(state, now);
        },
        (Point::Tree, Happening::Tree(_)) => {
            lemma_checked_text_does_not_matter(state, now);
        },
        _ => {},
    }
}

proof fn lemma_recorded_text_does_not_matter(
    state: State,
    why: Option<Why>,
    sighting: Sighting,
    prompt: bool,
    now: Duration,
)
    ensures
        state.recorded(why, sighting, prompt, now).without_text() == state.without_text().recorded(
            why,
            without_text(sighting),
            prompt,
            now,
        ),
{
}

proof fn lemma_drained_text_does_not_matter(state: State, why: Option<Why>, now: Duration)
    ensures
        state.drained(why, now).without_text() == state.without_text().drained(why, now),
{
}

proof fn lemma_checked_text_does_not_matter(state: State, now: Duration)
    requires
        state.at is Exit || state.at is Tree,
    ensures
        state.check_inference(now).without_text() == state.without_text().check_inference(now),
{
}

/// The log is content-free: two reviews that differ in nothing but what the
/// replies say have the same log, and end in the same way.
pub proof fn law_the_log_is_content_free(
    start: State,
    events: Seq<(Happening, Duration)>,
    other: Seq<(Happening, Duration)>,
)
    requires
        without_texts(events) == without_texts(other),
    ensures
        start.after_all(events).log == start.after_all(other).log,
        start.after_all(events).at.outcome() == start.after_all(other).at.outcome(),
{
    lemma_no_text_matters(start, events);
    lemma_no_text_matters(start, other);
    let ended = start.after_all(events).without_text();
    assert(ended == start.after_all(other).without_text());
    assert(ended.log == start.after_all(events).log);
    assert(ended.at.outcome() == start.after_all(events).at.outcome());
}

proof fn lemma_no_text_matters(start: State, events: Seq<(Happening, Duration)>)
    ensures
        start.after_all(events).without_text() == start.without_text().after_all(
            without_texts(events),
        ),
    decreases events.len(),
{
    let blind = without_texts(events);
    if events.len() > 0 {
        let front = events.drop_last();
        lemma_no_text_matters(start, front);
        lemma_texts_do_not_matter(start.after_all(front), events.last().0, events.last().1);
        assert(blind.drop_last() =~= without_texts(front));
    }
}

/// Whether no record of a log is younger than the one behind it, nor younger than
/// `now`.
pub open spec fn is_timed(log: Seq<Entry>, now: Duration) -> bool {
    &&& forall|i: int, j: int|
        0 <= i < j < log.len() ==> (#[trigger] log[i]).elapsed_ms <= (#[trigger] log[j]).elapsed_ms
    &&& forall|i: int| 0 <= i < log.len() ==> (#[trigger] log[i]).elapsed_ms <= now.millis()
}

/// Whether no event comes before `launch`, or before the event in front of it.
pub open spec fn in_turn(launch: Duration, events: Seq<(Happening, Duration)>) -> bool {
    &&& forall|i: int, j: int|
        0 <= i < j < events.len() ==> (#[trigger] events[i]).1.nanos <= (
        #[trigger] events[j]).1.nanos
    &&& forall|i: int| 0 <= i < events.len() ==> launch.nanos <= (#[trigger] events[i]).1.nanos
}

/// Records of the present go on with a log in time.
proof fn lemma_present_records(log: Seq<Entry>, added: Seq<Entry>, before: Duration, now: Duration)
    requires
        is_timed(log, before),
        before.nanos <= now.nanos,
        forall|i: int| 0 <= i < added.len() ==> (#[trigger] added[i]).elapsed_ms == now.millis(),
    ensures
        is_timed(log + added, now),
{
    crate::time::law_counting_keeps_the_order(before, now);
    let whole = log + added;
    assert forall|i: int| 0 <= i < whole.len() implies (#[trigger] whole[i]).elapsed_ms
        <= now.millis() && (i >= log.len() ==> whole[i].elapsed_ms == now.millis()) by {
        if i < log.len() {
            assert(whole[i] == log[i]);
        } else {
            assert(whole[i] == added[i - log.len()]);
        }
    }
    assert forall|i: int, j: int| 0 <= i < j < whole.len() implies (#[trigger] whole[i]).elapsed_ms
        <= (#[trigger] whole[j]).elapsed_ms by {
        if j < log.len() {
            assert(whole[i] == log[i] && whole[j] == log[j]);
        }
    }
}

/// What an event adds to the log is of its time.
proof fn lemma_added_is_present(state: State, event: Happening, now: Duration) -> (added: Seq<Entry>)
    ensures
        state.after(event, now).log == state.log + added,
        forall|i: int| 0 <= i < added.len() ==> (#[trigger] added[i]).elapsed_ms == now.millis(),
{
    let next = state.after(event, now);
    let none = Seq::<Entry>::empty();
    assert(state.log + none =~= state.log);
    match (state.at, event) {
        (Point::Prompt, Happening::Prompt(ready)) => state.progress.prompted(ready, now).1,
        (Point::Receive(why), Happening::Observation(Some(sighting))) => {
            if state.progress.awaits_prompt() {
                none
            } else {
                lemma_recorded_is_present(state, why, sighting, false, now)
            }
        },
        (Point::Held(why, sighting), Happening::Prompt(arrived)) => {
            lemma_recorded_is_present(state, why, sighting, arrived, now)
        },
        (Point::Receive(why), Happening::Observation(None)) => {
            lemma_drained_is_present(state, why, now)
        },
        _ => {
            if next.log == state.log {
                none
            } else {
                let added = seq![State::last_entry(
                    Outcome::CleanupFailed,
                    "process_group_present"@,
                    now,
                )];
                assert(next.log =~= state.log + added);
                added
            }
        },
    }
}

proof fn lemma_recorded_is_present(
    state: State,
    why: Option<Why>,
    sighting: Sighting,
    prompt: bool,
    now: Duration,
) -> (added: Seq<Entry>)
    ensures
        state.recorded(why, sighting, prompt, now).log == state.log + added,
        forall|i: int| 0 <= i < added.len() ==> (#[trigger] added[i]).elapsed_ms == now.millis(),
{
    let (progress, first) = state.progress.observed(sighting, prompt, state.inference, now);
    let (_, second) = progress.cleaning(Seq::empty(), now);
    if why is None && progress.review is Some {
        assert(state.log + first + second =~= state.log + (first + second));
        first + second
    } else {
        first
    }
}

proof fn lemma_drained_is_present(state: State, why: Option<Why>, now: Duration) -> (added: Seq<
    Entry,
>)
    ensures
        state.drained(why, now).log == state.log + added,
        forall|i: int| 0 <= i < added.len() ==> (#[trigger] added[i]).elapsed_ms == now.millis(),
{
    match why {
        None => {
            assert(state.log + Seq::empty() =~= state.log);
            Seq::empty()
        },
        Some(Why::Exited) => {
            let step = state.progress.cleaning("child_exited"@, now);
            let last = state.with(step).ended(now).log.last();
            assert((state.log + step.1).push(last) =~= state.log + step.1.push(last));
            step.1.push(last)
        },
        Some(Why::Deadline) => state.progress.cleaning("inference_deadline"@, now).1,
    }
}

/// As long as time does not run backwards, neither does the log.
pub proof fn law_the_log_is_in_time(
    inference: Duration,
    normal_cleanup: Duration,
    forced_cleanup: Duration,
    launch: Duration,
    events: Seq<(Happening, Duration)>,
)
    requires
        in_turn(launch, events),
    ensures
        is_timed(
            State::launched(inference, normal_cleanup, forced_cleanup, launch).after_all(
                events,
            ).log,
            if events.len() > 0 {
                events.last().1
            } else {
                launch
            },
        ),
    decreases events.len(),
{
    let start = State::launched(inference, normal_cleanup, forced_cleanup, launch);
    if events.len() > 0 {
        let front = events.drop_last();
        let (event, now) = events.last();
        law_the_log_is_in_time(inference, normal_cleanup, forced_cleanup, launch, front);
        let before = start.after_all(front);
        let added = lemma_added_is_present(before, event, now);
        if front.len() > 0 {
            assert(front.last() == events[events.len() - 2]);
            lemma_present_records(before.log, added, front.last().1, now);
        } else {
            assert(events.last() == events[events.len() - 1]);
            lemma_present_records(before.log, added, launch, now);
        }
    }
}

} // verus!
