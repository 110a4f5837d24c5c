//! How far a coordinated review has come, and which phases are logged on the
//! way.

use vstd::prelude::*;
use crate::lifecycle::{Emitter, Entry, Phase};
use crate::time::Duration;
use crate::transcript::{Observation, Sighting};

verus! {

/// What a review has reached so far.
pub struct Coordinator {
    prompt_emitted: bool,
    output_emitted: bool,
    review: Option<String>,
    cleanup_started: Option<Duration>,
}

/// A [`Coordinator`] with its text as a sequence.
pub struct Progress {
    /// Whether the prompt is known to be submitted.
    pub prompt_emitted: bool,
    /// Whether a reply was observed.
    pub output_emitted: bool,
    /// The reply that ended the turn in time.
    pub review: Option<Seq<char>>,
    /// When the cleanup began, as the time since the launch.
    pub cleanup_started: Option<Duration>,
}

impl View for Coordinator {
    type V = Progress;

    closed spec fn view(&self) -> Progress {
        Progress {
            prompt_emitted: self.prompt_emitted,
            output_emitted: self.output_emitted,
            review: crate::text::text_view(self.review),
            cleanup_started: self.cleanup_started,
        }
    }
}

/// A record without an outcome.
pub open spec fn entry(phase: Phase, reason: Seq<char>, now: Duration) -> Entry {
    Entry { phase, elapsed_ms: now.millis(), outcome: None, reason }
}

/// A list of one element, or of none.
pub open spec fn when<T>(condition: bool, element: T) -> Seq<T> {
    if condition {
        seq![element]
    } else {
        Seq::empty()
    }
}

impl Progress {
    /// Nothing was reached yet.
    pub open spec fn initial() -> Progress {
        Progress {
            prompt_emitted: false,
            output_emitted: false,
            review: None,
            cleanup_started: None,
        }
    }

    /// A reply is only observed behind a prompt, and a review is a reply.
    pub open spec fn wf(self) -> bool {
        &&& self.output_emitted ==> self.prompt_emitted
        &&& self.review is Some ==> self.output_emitted
    }

    /// Whether it matters that the prompt was submitted.
    pub open spec fn awaits_prompt(self) -> bool {
        self.cleanup_started is None && !self.prompt_emitted
    }

    /// What follows once it is known whether the prompt was submitted: the
    /// progress, and what is logged.
    pub open spec fn prompted(self, ready: bool, now: Duration) -> (Progress, Seq<Entry>) {
        if self.awaits_prompt() && ready {
            (
                Progress { prompt_emitted: true, ..self },
                seq![entry(Phase::PromptSubmitted, Seq::empty(), now)],
            )
        } else {
            (self, Seq::empty())
        }
    }

    /// Whether an observation is put aside: the cleanup began before it, or
    /// there is no prompt that it could answer.
    pub open spec fn ignores(self, prompt: bool) -> bool {
        self.cleanup_started is Some || (!self.prompt_emitted && !prompt)
    }

    /// Whether an observation is the review.
    pub open spec fn is_review(self, sighting: Sighting, inference: Duration) -> bool {
        sighting.completed_within(inference) && self.review is None
    }

    /// What follows an observation: the progress, and what is logged. `prompt`
    /// says whether the prompt turned out to be submitted, where that was not
    /// known.
    pub open spec fn observed(
        self,
        sighting: Sighting,
        prompt: bool,
        inference: Duration,
        now: Duration,
    ) -> (Progress, Seq<Entry>) {
        if self.ignores(prompt) {
            (self, Seq::empty())
        } else {
            (
                Progress {
                    prompt_emitted: true,
                    output_emitted: true,
                    review: if self.is_review(sighting, inference) {
                        Some(sighting.text)
                    } else {
                        self.review
                    },
                    ..self
                },
                when(!self.prompt_emitted, entry(Phase::PromptSubmitted, Seq::empty(), now)) + when(
                    !self.output_emitted,
                    entry(Phase::OutputObserved, Seq::empty(), now),
                ) + when(
                    self.is_review(sighting, inference),
                    entry(Phase::OutputComplete, Seq::empty(), now),
                ),
            )
        }
    }

    /// What follows the beginning of the cleanup: the progress, and what is
    /// logged. It begins once.
    pub open spec fn cleaning(self, reason: Seq<char>, now: Duration) -> (Progress, Seq<Entry>) {
        if self.cleanup_started is None {
            (
                Progress { cleanup_started: Some(now), ..self },
                seq![entry(Phase::CleanupStarted, reason, now)],
            )
        } else {
            (self, Seq::empty())
        }
    }

    /// The phases that are logged on the way to this progress, without the last.
    pub open spec fn path(self) -> Seq<Phase> {
        seq![Phase::Launched] + when(self.prompt_emitted, Phase::PromptSubmitted) + when(
            self.output_emitted,
            Phase::OutputObserved,
        ) + when(self.review is Some, Phase::OutputComplete) + when(
            self.cleanup_started is Some,
            Phase::CleanupStarted,
        )
    }
}

/// The phases of a log.
pub open spec fn phases(log: Seq<Entry>) -> Seq<Phase> {
    log.map_values(|e: Entry| e.phase)
}

impl Coordinator {
    pub fn new() -> (coordinator: Coordinator)
        ensures
            coordinator@ == Progress::initial(),
    {
        Coordinator {
            prompt_emitted: false,
            output_emitted: false,
            review: None,
            cleanup_started: None,
        }
    }

    /// The reply that ended the turn in time.
    pub fn review(&self) -> (review: Option<&String>)
        ensures
            match review {
                Some(text) => self@.review == Some(text@),
                None => self@.review is None,
            },
    {
        match &self.review {
            Some(text) => Some(text),
            None => None,
        }
    }

    /// Takes the review out.
    pub fn take_review(&mut self) -> (review: Option<String>)
        ensures
            crate::text::text_view(review) == old(self)@.review,
            final(self)@ == (Progress { review: None, ..old(self)@ }),
    {
        self.review.take()
    }

    /// When the cleanup began, as the time since the launch.
    pub fn cleanup_started(&self) -> (started: Option<Duration>)
        ensures
            started == self@.cleanup_started,
    {
        self.cleanup_started
    }

    /// Whether it matters that the prompt was submitted.
    pub fn awaits_prompt(&self) -> (awaits: bool)
        ensures
            awaits == self@.awaits_prompt(),
    {
        self.cleanup_started.is_none() && !self.prompt_emitted
    }

    /// Logs the prompt, once it is submitted. `now` is the time since the
    /// launch.
    pub fn emit_prompt_if_ready(&mut self, ready: bool, lifecycle: &mut Emitter, now: Duration)
        ensures
            final(self)@ == old(self)@.prompted(ready, now).0,
            final(lifecycle).log() == old(lifecycle).log() + old(self)@.prompted(ready, now).1,
            final(lifecycle).run_id == old(lifecycle).run_id,
    {
        proof {
            crate::text::lemma_empty_literal();
        }
        if self.cleanup_started.is_none() && !self.prompt_emitted && ready {
            lifecycle.emit(Phase::PromptSubmitted, None, "", now);
            self.prompt_emitted = true;
        }
        assert(lifecycle.log() =~= old(lifecycle).log() + old(self)@.prompted(ready, now).1);
    }

    /// Takes an observation in. Where it is not yet known that the prompt was
    /// submitted, `prompt` says whether it turned out to be.
    pub fn record_observation(
        &mut self,
        observation: Observation,
        prompt: bool,
        lifecycle: &mut Emitter,
        inference: Duration,
        now: Duration,
    )
        ensures
            final(self)@ == old(self)@.observed(observation@, prompt, inference, now).0,
            final(lifecycle).log() == old(lifecycle).log() + old(self)@.observed(
                observation@,
                prompt,
                inference,
                now,
            ).1,
            final(lifecycle).run_id == old(lifecycle).run_id,
    {
        let ghost start = lifecycle.log();
        let ghost first = when(
            !self.prompt_emitted,
            entry(Phase::PromptSubmitted, Seq::empty(), now),
        );
        let ghost second = when(
            !self.output_emitted,
            entry(Phase::OutputObserved, Seq::empty(), now),
        );
        let ghost third = when(
            self@.is_review(observation@, inference),
            entry(Phase::OutputComplete, Seq::empty(), now),
        );
        proof {
            crate::text::lemma_empty_literal();
            assert(start + Seq::empty() =~= start);
        }
        if self.cleanup_started.is_some() {
            return;
        }
        if !self.prompt_emitted {
            if !prompt {
                return;
            }
            lifecycle.emit(Phase::PromptSubmitted, None, "", now);
            self.prompt_emitted = true;
        }
        assert(lifecycle.log() =~= start + first);
        if !self.output_emitted {
            lifecycle.emit(Phase::OutputObserved, None, "", now);
            self.output_emitted = true;
        }
        assert(lifecycle.log() =~= start + first + second);
        if crate::transcript::completed_within(&observation, inference) && self.review.is_none() {
            lifecycle.emit(Phase::OutputComplete, None, "", now);
            self.review = Some(observation.text);
        }
        assert(lifecycle.log() =~= start + (first + second + third));
    }

    /// Begins the cleanup, if it has not begun. `now` is the time since the
    /// launch.
    pub fn begin_cleanup(&mut self, lifecycle: &mut Emitter, reason: &str, now: Duration)
        ensures
            final(self)@ == old(self)@.cleaning(reason@, now).0,
            final(lifecycle).log() == old(lifecycle).log() + old(self)@.cleaning(reason@, now).1,
            final(lifecycle).run_id == old(lifecycle).run_id,
    {
        if self.cleanup_started.is_none() {
            lifecycle.emit(Phase::CleanupStarted, None, reason, now);
            self.cleanup_started = Some(now);
        }
        assert(lifecycle.log() =~= old(lifecycle).log() + old(self)@.cleaning(reason@, now).1);
    }
}

/// Each way on keeps the log true to the progress: it lists the phases that
/// were reached, in their order, each once.
pub proof fn law_log_follows_the_progress(
    progress: Progress,
    log: Seq<Entry>,
    ready: bool,
    sighting: Sighting,
    inference: Duration,
    reason: Seq<char>,
    now: Duration,
)
    requires
        progress.wf(),
        phases(log) == progress.path(),
    ensures
        ({
            let (next, added) = progress.prompted(ready, now);
            next.wf() && phases(log + added) == next.path()
        }),
        ({
            let (next, added) = progress.observed(sighting, ready, inference, now);
            next.wf() && phases(log + added) == next.path()
        }),
        ({
            let (next, added) = progress.cleaning(reason, now);
            next.wf() && phases(log + added) == next.path()
        }),
{
    let (next, added) = progress.prompted(ready, now);
    assert(phases(log + added) =~= next.path());
    let (next, added) = progress.observed(sighting, ready, inference, now);
    assert(phases(log + added) =~= next.path());
    let (next, added) = progress.cleaning(reason, now);
    assert(phases(log + added) =~= next.path());
}

/// Whether each phase stands behind those that come before it.
pub open spec fn in_order(path: Seq<Phase>) -> bool {
    forall|i: int, j: int|
        0 <= i < j < path.len() ==> (#[trigger] path[i]).rank() < (#[trigger] path[j]).rank()
}

/// The phases on the way to any progress are in their order, each once, and a
/// later phase of the reply is not there without the earlier ones.
pub proof fn law_phases_are_in_order(progress: Progress)
    requires
        progress.wf(),
    ensures
        in_order(progress.path()),
        in_order(progress.path().push(Phase::Terminated)),
        progress.path().contains(Phase::OutputObserved) ==> progress.path().contains(
            Phase::PromptSubmitted,
        ),
        progress.path().contains(Phase::OutputComplete) ==> progress.path().contains(
            Phase::OutputObserved,
        ),
{
    let path = progress.path();
    if progress.prompt_emitted {
        assert(path[1] == Phase::PromptSubmitted);
    }
    if progress.output_emitted {
        assert(path[2] == Phase::OutputObserved);
    }
    assert(path.contains(Phase::OutputObserved) ==> progress.output_emitted);
    assert(path.contains(Phase::OutputComplete) ==> progress.review is Some);
}

/// The first reply that ends the turn in time is the review, and it stays so
/// whatever is observed behind it.
pub proof fn law_first_review_stays(
    progress: Progress,
    sighting: Sighting,
    prompt: bool,
    inference: Duration,
    now: Duration,
)
    ensures
        progress.review is Some ==> progress.observed(sighting, prompt, inference, now).0.review
            == progress.review,
        progress.review is None ==> (progress.observed(
            sighting,
            prompt,
            inference,
            now,
        ).0.review matches Some(text) ==> text == sighting.text && sighting.complete
            && sighting.elapsed.nanos <= inference.nanos),
{
}

/// Once the cleanup began, an observation changes nothing and logs nothing.
pub proof fn law_nothing_is_observed_in_the_cleanup(
    progress: Progress,
    sighting: Sighting,
    prompt: bool,
    inference: Duration,
    now: Duration,
)
    requires
        progress.cleanup_started is Some,
    ensures
        progress.observed(sighting, prompt, inference, now) == (progress, Seq::<Entry>::empty()),
{
}

/// The log is content-free: what is logged does not depend on what the reply
/// says.
pub proof fn law_log_is_content_free(
    progress: Progress,
    sighting: Sighting,
    other_text: Seq<char>,
    prompt: bool,
    inference: Duration,
    now: Duration,
)
    ensures
        progress.observed(sighting, prompt, inference, now).1 == progress.observed(
            Sighting { text: other_text, ..sighting },
            prompt,
            inference,
            now,
        ).1,
{
}

/// A prompt that is submitted is noted and logged once, and not once the cleanup began;
/// nothing else changes.
pub proof fn law_a_prompt_is_noted_once(progress: Progress, ready: bool, now: Duration)
    ensures
        ({
            let (next, added) = progress.prompted(ready, now);
            let noted = ready && progress.cleanup_started is None && !progress.prompt_emitted;
            &&& next.prompt_emitted == (progress.prompt_emitted || noted)
            &&& next.output_emitted == progress.output_emitted
            &&& next.review == progress.review
            &&& next.cleanup_started == progress.cleanup_started
            &&& added.len() == (if noted {
                1int
            } else {
                0
            })
            &&& noted ==> added[0] == Entry {
                phase: Phase::PromptSubmitted,
                elapsed_ms: now.millis(),
                outcome: None,
                reason: Seq::empty(),
            }
        }),
{
}

/// An observation counts while the cleanup has not begun and the prompt is known to be
/// submitted, by now at the latest. The first one that counts is logged as output, and
/// the first one that counts, ended the turn and came in time is the review.
pub proof fn law_what_an_observation_does(
    progress: Progress,
    sighting: Sighting,
    prompt: bool,
    inference: Duration,
    now: Duration,
)
    ensures
        ({
            let (next, added) = progress.observed(sighting, prompt, inference, now);
            let counts = progress.cleanup_started is None && (progress.prompt_emitted || prompt);
            let submitted = counts && !progress.prompt_emitted;
            let first = counts && !progress.output_emitted;
            let review = counts && progress.review is None && sighting.complete
                && sighting.elapsed.nanos <= inference.nanos;
            let logged = |phase: Phase|
                Entry { phase, elapsed_ms: now.millis(), outcome: None, reason: Seq::empty() };
            &&& next.prompt_emitted == (progress.prompt_emitted || counts)
            &&& next.output_emitted == (progress.output_emitted || counts)
            &&& next.review == (if review {
                Some(sighting.text)
            } else {
                progress.review
            })
            &&& next.cleanup_started == progress.cleanup_started
            &&& added == when(submitted, logged(Phase::PromptSubmitted)) + when(
                first,
                logged(Phase::OutputObserved),
            ) + when(review, logged(Phase::OutputComplete))
        }),
{
    let (_, added) = progress.observed(sighting, prompt, inference, now);
    assert(Seq::<Entry>::empty() + Seq::<Entry>::empty() + Seq::<Entry>::empty()
        =~= Seq::<Entry>::empty());
}

/// The cleanup begins once, at the time that it is told to, and is logged with its reason;
/// nothing else changes.
pub proof fn law_the_cleanup_begins_once(progress: Progress, reason: Seq<char>, now: Duration)
    ensures
        ({
            let (next, added) = progress.cleaning(reason, now);
            &&& next.cleanup_started == (match progress.cleanup_started {
                Some(started) => Some(started),
                None => Some(now),
            })
            &&& next.prompt_emitted == progress.prompt_emitted
            &&& next.output_emitted == progress.output_emitted
            &&& next.review == progress.review
            &&& added.len() == (if progress.cleanup_started is None {
                1int
            } else {
                0
            })
            &&& progress.cleanup_started is None ==> added[0] == Entry {
                phase: Phase::CleanupStarted,
                elapsed_ms: now.millis(),
                outcome: None,
                reason,
            }
        }),
{
}

/// A list of one element or none, by its length.
pub proof fn law_when_is_one_or_none<T>(condition: bool, element: T)
    ensures
        condition ==> when(condition, element) == seq![element],
        !condition ==> when(condition, element).len() == 0,
{
}

/// It matters whether the prompt was submitted as long as that is not known, and the
/// cleanup has not begun.
pub proof fn law_when_the_prompt_matters(coordinator: &Coordinator, awaits: bool)
    requires
        call_ensures(Coordinator::awaits_prompt, (coordinator,), awaits),
    ensures
        awaits <==> coordinator@.cleanup_started is None && !coordinator@.prompt_emitted,
{
}

/// Nothing was reached at first.
pub proof fn law_nothing_is_reached_at_first(coordinator: Coordinator)
    requires
        call_ensures(Coordinator::new, (), coordinator),
    ensures
        !coordinator@.prompt_emitted,
        !coordinator@.output_emitted,
        coordinator@.review is None,
        coordinator@.cleanup_started is None,
{
}

/// Asking for the prompt is one step of the progress, with what it logs.
pub proof fn law_what_asking_for_the_prompt_does(
    coordinator: &mut Coordinator,
    lifecycle: &mut Emitter,
    ready: bool,
    now: Duration,
)
    requires
        call_ensures(Coordinator::emit_prompt_if_ready, (coordinator, ready, lifecycle, now), ()),
    ensures
        final(coordinator)@ == old(coordinator)@.prompted(ready, now).0,
        final(lifecycle).log() == old(lifecycle).log() + old(coordinator)@.prompted(ready, now).1,
{
}

/// An observation that is recorded is one step of the progress, with what it logs.
pub proof fn law_what_recording_does(
    coordinator: &mut Coordinator,
    observation: Observation,
    prompt: bool,
    lifecycle: &mut Emitter,
    inference: Duration,
    now: Duration,
)
    requires
        call_ensures(
            Coordinator::record_observation,
            (coordinator, observation, prompt, lifecycle, inference, now),
            (),
        ),
    ensures
        ({
            let step = old(coordinator)@.observed(
                Sighting {
                    text: observation.text@,
                    complete: observation.complete,
                    elapsed: observation.elapsed,
                },
                prompt,
                inference,
                now,
            );
            &&& final(coordinator)@ == step.0
            &&& final(lifecycle).log() == old(lifecycle).log() + step.1
        }),
{
}

/// The beginning of the cleanup is one step of the progress, with what it logs.
pub proof fn law_what_beginning_the_cleanup_does(
    coordinator: &mut Coordinator,
    lifecycle: &mut Emitter,
    reason: &str,
    now: Duration,
)
    requires
        call_ensures(Coordinator::begin_cleanup, (coordinator, lifecycle, reason, now), ()),
    ensures
        final(coordinator)@ == old(coordinator)@.cleaning(reason@, now).0,
        final(lifecycle).log() == old(lifecycle).log() + old(coordinator)@.cleaning(reason@, now).1,
{
}

/// A review that is taken out is the one that was there, and is there no longer.
pub proof fn law_a_review_is_taken_out_once(coordinator: &mut Coordinator, review: Option<String>)
    requires
        call_ensures(Coordinator::take_review, (coordinator,), review),
    ensures
        crate::text::text_view(review) == old(coordinator)@.review,
        final(coordinator)@.review is None,
        final(coordinator)@.prompt_emitted == old(coordinator)@.prompt_emitted,
        final(coordinator)@.output_emitted == old(coordinator)@.output_emitted,
        final(coordinator)@.cleanup_started == old(coordinator)@.cleanup_started,
{
}

} // verus!
