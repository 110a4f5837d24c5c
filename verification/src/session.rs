//! A coordinated review from its launch to its end, as a machine that says what
//! is done next and is told what came of it.

use vstd::prelude::*;
use crate::config::SecondOpinionConfig;
use crate::coordinator::{Coordinator, Progress};
use crate::lifecycle::{Emitter, Entry, Outcome, Phase};
use crate::time::Duration;
use crate::transcript::{Observation, Sighting};

pub mod course;
pub mod laws;

verus! {

/// How long [`Action::AwaitPrompt`] waits at most, in milliseconds.
pub const PROMPT_GRACE_MS: u64 = 50;

/// How long [`Action::SignalStop`] lets everything settle, in milliseconds.
pub const DRAIN_GRACE_MS: u64 = 120;

/// How long [`Action::Sleep`] sleeps, in milliseconds.
pub const POLL_INTERVAL_MS: u64 = 20;

/// Why the observations that are left are taken in one last time.
#[derive(Debug, Clone, Copy, PartialEq, Eq, Structural)]
pub enum Why {
    /// The child and all that descends from it are gone.
    Exited,
    /// The time for inference is over.
    Deadline,
}

/// What is done next.
#[derive(Debug, Clone, Copy, PartialEq, Eq, Structural)]
pub enum Action {
    /// See whether the prompt was submitted.
    CheckPrompt,
    /// Take the next observation, if there is one.
    Receive,
    /// Wait for the prompt to be submitted, for [`PROMPT_GRACE_MS`] at most.
    AwaitPrompt,
    /// List the processes that descend from the child.
    ListDescendants,
    /// See whether the child has exited.
    PollChild,
    /// See whether the child and all that is known to descend from it are gone.
    ProbeTree,
    /// Tell everything to stop, and give it [`DRAIN_GRACE_MS`].
    SignalStop,
    /// Kill the child and all that is known to descend from it.
    Terminate,
    /// Sleep for [`POLL_INTERVAL_MS`].
    Sleep,
    /// The review is over.
    Finish,
}

/// What came of an [`Action`].
#[derive(Debug)]
pub enum Event {
    /// Whether the prompt was submitted.
    Prompt(bool),
    Observation(Option<Observation>),
    /// The processes, or nothing where they could not be listed.
    Descendants(Option<Vec<u32>>),
    /// Whether the child has exited.
    Exit(bool),
    /// Whether nothing of the child is left.
    Tree(bool),
    Settled,
    /// Whether the killing went without an error.
    Terminated(bool),
    Woke,
}

/// An [`Event`] with its contents as sequences.
pub enum Happening {
    Prompt(bool),
    Observation(Option<Sighting>),
    Descendants(Option<Seq<u32>>),
    Exit(bool),
    Tree(bool),
    Settled,
    Terminated(bool),
    Woke,
}

impl View for Event {
    type V = Happening;

    open spec fn view(&self) -> Happening {
        match self {
            Event::Prompt(ready) => Happening::Prompt(*ready),
            Event::Observation(observation) => Happening::Observation(
                crate::transcript::sighting(*observation),
            ),
            Event::Descendants(found) => Happening::Descendants(
                match found {
                    Some(list) => Some(list@),
                    None => None,
                },
            ),
            Event::Exit(exited) => Happening::Exit(*exited),
            Event::Tree(absent) => Happening::Tree(*absent),
            Event::Settled => Happening::Settled,
            Event::Terminated(ok) => Happening::Terminated(*ok),
            Event::Woke => Happening::Woke,
        }
    }
}

/// Where a review is.
enum Stage {
    Prompt,
    Receive(Option<Why>),
    Held(Option<Why>, Observation),
    Descendants,
    Exit,
    Tree,
    Settle(Why),
    Terminate,
    Sleep,
    Finished(Outcome),
}

/// Where a review is: which of the actions is under way, and what has to be
/// kept in the meantime.
pub enum Point {
    Prompt,
    Receive(Option<Why>),
    /// An observation is there, and waits for the prompt.
    Held(Option<Why>, Sighting),
    Descendants,
    Exit,
    Tree,
    Settle(Why),
    Terminate,
    Sleep,
    Finished(Outcome),
}

impl Stage {
    spec fn view(&self) -> Point {
        match self {
            Stage::Prompt => Point::Prompt,
            Stage::Receive(why) => Point::Receive(*why),
            Stage::Held(why, observation) => Point::Held(*why, observation@),
            Stage::Descendants => Point::Descendants,
            Stage::Exit => Point::Exit,
            Stage::Tree => Point::Tree,
            Stage::Settle(why) => Point::Settle(*why),
            Stage::Terminate => Point::Terminate,
            Stage::Sleep => Point::Sleep,
            Stage::Finished(outcome) => Point::Finished(*outcome),
        }
    }
}

impl Point {
    /// What is done next.
    pub open spec fn action(self) -> Action {
        match self {
            Point::Prompt => Action::CheckPrompt,
            Point::Receive(_) => Action::Receive,
            Point::Held(_, _) => Action::AwaitPrompt,
            Point::Descendants => Action::ListDescendants,
            Point::Exit => Action::PollChild,
            Point::Tree => Action::ProbeTree,
            Point::Settle(_) => Action::SignalStop,
            Point::Terminate => Action::Terminate,
            Point::Sleep => Action::Sleep,
            Point::Finished(_) => Action::Finish,
        }
    }
}

/// Everything that a review depends on. All times are times since the launch.
#[verifier::ext_equal]
pub struct State {
    pub progress: Progress,
    pub log: Seq<Entry>,
    pub inference: Duration,
    pub normal_cleanup: Duration,
    pub forced_cleanup: Duration,
    /// When the killing began.
    pub forced_started: Option<Duration>,
    /// Whether the killing met an error.
    pub forced_error: bool,
    /// Whether the processes could once not be listed.
    pub tracking_failed: bool,
    pub exited: bool,
    /// Whether nothing of the child was left.
    pub absent: bool,
    /// The processes that are known to descend from the child.
    pub known: Seq<u32>,
    pub at: Point,
}

impl State {
    /// A review that was just launched.
    pub open spec fn launched(
        inference: Duration,
        normal_cleanup: Duration,
        forced_cleanup: Duration,
        now: Duration,
    ) -> State {
        State {
            progress: Progress::initial(),
            log: seq![crate::coordinator::entry(Phase::Launched, Seq::empty(), now)],
            inference,
            normal_cleanup,
            forced_cleanup,
            forced_started: None,
            forced_error: false,
            tracking_failed: false,
            exited: false,
            absent: false,
            known: Seq::empty(),
            at: Point::Prompt,
        }
    }

    /// The review that is handed out: it is kept back until it is over, and kept
    /// for good where it did not end well.
    pub open spec fn released(self) -> Option<Seq<char>> {
        match self.at {
            Point::Finished(outcome) => if crate::startup::completed(outcome) {
                self.progress.review
            } else {
                None
            },
            _ => None,
        }
    }

    /// The state with another progress, and more in the log.
    pub open spec fn with(self, step: (Progress, Seq<Entry>)) -> State {
        State { progress: step.0, log: self.log + step.1, ..self }
    }

    /// A round begins.
    pub open spec fn round(self) -> State {
        if self.progress.awaits_prompt() {
            State { at: Point::Prompt, ..self }
        } else {
            self.receiving()
        }
    }

    /// Observations are taken until the cleanup begins.
    pub open spec fn receiving(self) -> State {
        if self.progress.cleanup_started is None {
            State { at: Point::Receive(None), ..self }
        } else {
            State { at: Point::Descendants, ..self }
        }
    }

    /// An observation is taken in. A review begins the cleanup at once, unless
    /// this is the last time that observations are taken.
    pub open spec fn recorded(
        self,
        why: Option<Why>,
        sighting: Sighting,
        prompt: bool,
        now: Duration,
    ) -> State {
        let next = self.with(self.progress.observed(sighting, prompt, self.inference, now));
        match why {
            Some(_) => State { at: Point::Receive(why), ..next },
            None => if next.progress.review is Some {
                next.with(next.progress.cleaning(Seq::empty(), now)).receiving()
            } else {
                next.receiving()
            },
        }
    }

    /// There is no observation left.
    pub open spec fn drained(self, why: Option<Why>, now: Duration) -> State {
        match why {
            None => State { at: Point::Descendants, ..self },
            Some(Why::Exited) => self.with(self.progress.cleaning("child_exited"@, now)).ended(now),
            Some(Why::Deadline) => {
                let next = self.with(self.progress.cleaning("inference_deadline"@, now));
                State { forced_started: Some(now), at: Point::Terminate, ..next }
            },
        }
    }

    /// How a review ends when nothing of the child is left.
    pub open spec fn outcome(self) -> Outcome {
        if self.forced_error || self.tracking_failed {
            Outcome::CleanupFailed
        } else if self.progress.review is None {
            Outcome::FailedIncomplete
        } else if self.forced_started is Some {
            Outcome::CompletedForcedCleanup
        } else {
            Outcome::CompletedClean
        }
    }

    /// The last record of a review.
    pub open spec fn last_entry(outcome: Outcome, reason: Seq<char>, now: Duration) -> Entry {
        Entry {
            phase: Phase::Terminated,
            elapsed_ms: now.millis(),
            outcome: Some(outcome),
            reason,
        }
    }

    /// The review is over, and nothing of the child is left.
    pub open spec fn ended(self, now: Duration) -> State {
        State {
            log: self.log.push(
                State::last_entry(self.outcome(), "process_group_absent"@, now),
            ),
            at: Point::Finished(self.outcome()),
            ..self
        }
    }

    /// The child is still there: is the time for inference over?
    pub open spec fn check_inference(self, now: Duration) -> State {
        if self.progress.review is None && self.progress.cleanup_started is None && now.nanos
            > self.inference.nanos {
            State { at: Point::Settle(Why::Deadline), ..self }
        } else {
            self.check_cleanup(now)
        }
    }

    /// Is the time over that the child has to go by itself?
    pub open spec fn check_cleanup(self, now: Duration) -> State {
        match self.progress.cleanup_started {
            Some(started) => if self.forced_started is None && now.after(started)
                >= self.normal_cleanup.nanos {
                State { forced_started: Some(now), at: Point::Terminate, ..self }
            } else {
                self.check_forced(now)
            },
            None => State { at: Point::Sleep, ..self },
        }
    }

    /// Is the time over that the killing may take?
    pub open spec fn check_forced(self, now: Duration) -> State {
        if self.forced_started matches Some(started) && now.after(started)
            >= self.forced_cleanup.nanos {
            State {
                log: self.log.push(
                    State::last_entry(Outcome::CleanupFailed, "process_group_present"@, now),
                ),
                at: Point::Finished(Outcome::CleanupFailed),
                ..self
            }
        } else {
            State { at: Point::Sleep, ..self }
        }
    }

    /// What follows an event. One that does not answer what is under way changes
    /// nothing.
    pub open spec fn after(self, event: Happening, now: Duration) -> State {
        match (self.at, event) {
            (Point::Prompt, Happening::Prompt(ready)) => self.with(
                self.progress.prompted(ready, now),
            ).receiving(),
            (Point::Receive(why), Happening::Observation(Some(sighting))) =>
                if self.progress.awaits_prompt() {
                State { at: Point::Held(why, sighting), ..self }
            } else {
                self.recorded(why, sighting, false, now)
            },
            (Point::Receive(why), Happening::Observation(None)) => self.drained(why, now),
            (Point::Held(why, sighting), Happening::Prompt(arrived)) => self.recorded(
                why,
                sighting,
                arrived,
                now,
            ),
            (Point::Descendants, Happening::Descendants(Some(found))) => State {
                known: crate::processes::joined_with(self.known, found),
                at: Point::Exit,
                ..self
            },
            (Point::Descendants, Happening::Descendants(None)) => State {
                tracking_failed: true,
                at: Point::Exit,
                ..self
            },
            (Point::Exit, Happening::Exit(exited)) => if self.exited || exited {
                State { exited: true, at: Point::Tree, ..self }
            } else {
                self.check_inference(now)
            },
            (Point::Tree, Happening::Tree(absent)) => if absent {
                State { absent: true, at: Point::Settle(Why::Exited), ..self }
            } else {
                self.check_inference(now)
            },
            (Point::Settle(why), Happening::Settled) => State {
                at: Point::Receive(Some(why)),
                ..self
            },
            (Point::Terminate, Happening::Terminated(ok)) => State {
                forced_error: self.forced_error || !ok,
                ..self
            }.check_forced(now),
            (Point::Sleep, Happening::Woke) => self.round(),
            _ => self,
        }
    }
}

/// A coordinated review.
pub struct Session {
    coordinator: Coordinator,
    lifecycle: Emitter,
    inference: Duration,
    normal_cleanup: Duration,
    forced_cleanup: Duration,
    forced_started: Option<Duration>,
    forced_error: bool,
    tracking_failed: bool,
    exited: bool,
    absent: bool,
    known: Vec<u32>,
    stage: Stage,
}

impl View for Session {
    type V = State;

    closed spec fn view(&self) -> State {
        State {
            progress: self.coordinator@,
            log: self.lifecycle.log(),
            inference: self.inference,
            normal_cleanup: self.normal_cleanup,
            forced_cleanup: self.forced_cleanup,
            forced_started: self.forced_started,
            forced_error: self.forced_error,
            tracking_failed: self.tracking_failed,
            exited: self.exited,
            absent: self.absent,
            known: self.known@,
            at: self.stage.view(),
        }
    }
}

impl Session {
    /// The name that the review was given.
    pub closed spec fn run_id(&self) -> Seq<char> {
        self.lifecycle.run_id@
    }

    /// A review that was just launched, `now` being the time since the launch.
    pub fn start(policy: &SecondOpinionConfig, now: Duration) -> (session: Session)
        ensures
            session@ == State::launched(
                policy.inference,
                policy.normal_cleanup,
                policy.forced_cleanup,
                now,
            ),
            session.run_id() == policy.run_id@,
    {
        proof {
            crate::text::lemma_empty_literal();
        }
        let mut lifecycle = Emitter::open(policy.run_id.clone());
        lifecycle.emit(Phase::Launched, None, "", now);
        let session = Session {
            coordinator: Coordinator::new(),
            lifecycle,
            inference: policy.inference,
            normal_cleanup: policy.normal_cleanup,
            forced_cleanup: policy.forced_cleanup,
            forced_started: None,
            forced_error: false,
            tracking_failed: false,
            exited: false,
            absent: false,
            known: Vec::new(),
            stage: Stage::Prompt,
        };
        assert(session@ =~= State::launched(
            policy.inference,
            policy.normal_cleanup,
            policy.forced_cleanup,
            now,
        ));
        session
    }

    /// What is done next.
    pub fn action(&self) -> (action: Action)
        ensures
            action == self@.at.action(),
    {
        match &self.stage {
            Stage::Prompt => Action::CheckPrompt,
            Stage::Receive(_) => Action::Receive,
            Stage::Held(_, _) => Action::AwaitPrompt,
            Stage::Descendants => Action::ListDescendants,
            Stage::Exit => Action::PollChild,
            Stage::Tree => Action::ProbeTree,
            Stage::Settle(_) => Action::SignalStop,
            Stage::Terminate => Action::Terminate,
            Stage::Sleep => Action::Sleep,
            Stage::Finished(_) => Action::Finish,
        }
    }

    /// The processes that are known to descend from the child.
    pub fn known(&self) -> (known: &Vec<u32>)
        ensures
            known@ == self@.known,
    {
        &self.known
    }

    /// The lines of the log behind the first `written` ones.
    pub fn lines(&self, written: usize) -> (lines: Vec<String>)
        ensures
            lines@.map_values(|l: String| l@) == crate::lifecycle::lines_from(
                self@.log,
                self.run_id(),
                written as int,
            ),
            forall|k: int|
                0 <= k < lines@.len() ==> crate::json::read((#[trigger] lines@[k])@.drop_last())
                    == Some(self@.log[written + k].json(self.run_id())),
    {
        self.lifecycle.lines(written)
    }

    /// How the review ended, once it has.
    pub fn outcome(&self) -> (outcome: Option<Outcome>)
        ensures
            match outcome {
                Some(o) => self@.at == Point::Finished(o),
                None => self@.at !is Finished,
            },
    {
        match &self.stage {
            Stage::Finished(outcome) => Some(*outcome),
            _ => None,
        }
    }

    /// Hands the review out, if it may be.
    pub fn into_review(self) -> (review: Option<String>)
        ensures
            crate::text::text_view(review) == self@.released(),
    {
        let mut session = self;
        match session.stage {
            Stage::Finished(Outcome::CompletedClean) => session.coordinator.take_review(),
            Stage::Finished(Outcome::CompletedForcedCleanup) => session.coordinator.take_review(),
            _ => None,
        }
    }

    /// Goes on with what came of the action that is under way. `now` is the time
    /// since the launch.
    #[verifier::spinoff_prover]
    #[verifier::rlimit(50)]
    pub fn step(&mut self, event: Event, now: Duration)
        ensures
            final(self)@ == old(self)@.after(event@, now),
            final(self).run_id() == old(self).run_id(),
    {
        let mut stage = Stage::Sleep;
        std::mem::swap(&mut stage, &mut self.stage);
        match (stage, event) {
            (Stage::Prompt, Event::Prompt(ready)) => {
                self.coordinator.emit_prompt_if_ready(ready, &mut self.lifecycle, now);
                self.receive();
            },
            (Stage::Receive(why), Event::Observation(Some(observation))) => {
                if self.coordinator.awaits_prompt() {
                    self.stage = Stage::Held(why, observation);
                } else {
                    self.record(why, observation, false, now);
                }
            },
            (Stage::Receive(why), Event::Observation(None)) => {
                self.drained(why, now);
            },
            (Stage::Held(why, observation), Event::Prompt(arrived)) => {
                self.record(why, observation, arrived, now);
            },
            (Stage::Descendants, Event::Descendants(Some(found))) => {
                crate::processes::extend(&mut self.known, &found);
                self.stage = Stage::Exit;
            },
            (Stage::Descendants, Event::Descendants(None)) => {
                self.tracking_failed = true;
                self.stage = Stage::Exit;
            },
            (Stage::Exit, Event::Exit(exited)) => {
                if exited {
                    self.exited = true;
                }
                if self.exited {
                    self.stage = Stage::Tree;
                } else {
                    self.check_inference(now);
                }
            },
            (Stage::Tree, Event::Tree(absent)) => {
                if absent {
                    self.absent = true;
                    self.stage = Stage::Settle(Why::Exited);
                } else {
                    self.check_inference(now);
                }
            },
            (Stage::Settle(why), Event::Settled) => {
                self.stage = Stage::Receive(Some(why));
            },
            (Stage::Terminate, Event::Terminated(ok)) => {
                if !ok {
                    self.forced_error = true;
                }
                self.check_forced(now);
            },
            (Stage::Sleep, Event::Woke) => {
                self.round();
            },
            (stage, _) => {
                self.stage = stage;
            },
        }
    }

    fn round(&mut self)
        ensures
            final(self)@ == old(self)@.round(),
            final(self).run_id() == old(self).run_id(),
    {
        if self.coordinator.awaits_prompt() {
            self.stage = Stage::Prompt;
        } else {
            self.receive();
        }
    }

    fn receive(&mut self)
        ensures
            final(self)@ == old(self)@.receiving(),
            final(self).run_id() == old(self).run_id(),
    {
        if self.coordinator.cleanup_started().is_none() {
            self.stage = Stage::Receive(None);
        } else {
            self.stage = Stage::Descendants;
        }
    }

    fn record(&mut self, why: Option<Why>, observation: Observation, prompt: bool, now: Duration)
        ensures
            final(self)@ == old(self)@.recorded(why, observation@, prompt, now),
            final(self).run_id() == old(self).run_id(),
    {
        self.coordinator.record_observation(
            observation,
            prompt,
            &mut self.lifecycle,
            self.inference,
            now,
        );
        if why.is_some() {
            self.stage = Stage::Receive(why);
        } else {
            if self.coordinator.review().is_some() {
                proof {
                    crate::text::lemma_empty_literal();
                }
                self.coordinator.begin_cleanup(&mut self.lifecycle, "", now);
            }
            self.receive();
        }
    }

    fn drained(&mut self, why: Option<Why>, now: Duration)
        ensures
            final(self)@ == old(self)@.drained(why, now),
            final(self).run_id() == old(self).run_id(),
    {
        match why {
            None => {
                self.stage = Stage::Descendants;
            },
            Some(Why::Exited) => {
                self.coordinator.begin_cleanup(&mut self.lifecycle, "child_exited", now);
                self.end(now);
            },
            Some(Why::Deadline) => {
                self.coordinator.begin_cleanup(&mut self.lifecycle, "inference_deadline", now);
                self.forced_started = Some(now);
                self.stage = Stage::Terminate;
            },
        }
    }

    fn end(&mut self, now: Duration)
        ensures
            final(self)@ == old(self)@.ended(now),
            final(self).run_id() == old(self).run_id(),
    {
        let failed = self.forced_error || self.tracking_failed;
        let outcome = match (self.coordinator.review(), self.forced_started.is_some(), failed) {
            (Some(_), false, false) => Outcome::CompletedClean,
            (Some(_), true, false) => Outcome::CompletedForcedCleanup,
            (_, _, true) => Outcome::CleanupFailed,
            (None, _, false) => Outcome::FailedIncomplete,
        };
        self.lifecycle.emit(Phase::Terminated, Some(outcome), "process_group_absent", now);
        self.stage = Stage::Finished(outcome);
    }

    fn check_inference(&mut self, now: Duration)
        ensures
            final(self)@ == old(self)@.check_inference(now),
            final(self).run_id() == old(self).run_id(),
    {
        if self.coordinator.review().is_none() && self.coordinator.cleanup_started().is_none()
            && now.nanos > self.inference.nanos {
            self.stage = Stage::Settle(Why::Deadline);
        } else {
            self.check_cleanup(now);
        }
    }

    fn check_cleanup(&mut self, now: Duration)
        ensures
            final(self)@ == old(self)@.check_cleanup(now),
            final(self).run_id() == old(self).run_id(),
    {
        match self.coordinator.cleanup_started() {
            Some(started) => {
                if self.forced_started.is_none() && now.since(started).nanos
                    >= self.normal_cleanup.nanos {
                    self.forced_started = Some(now);
                    self.stage = Stage::Terminate;
                } else {
                    self.check_forced(now);
                }
            },
            None => {
                self.stage = Stage::Sleep;
            },
        }
    }

    fn check_forced(&mut self, now: Duration)
        ensures
            final(self)@ == old(self)@.check_forced(now),
            final(self).run_id() == old(self).run_id(),
    {
        match self.forced_started {
            Some(started) => {
                if now.since(started).nanos >= self.forced_cleanup.nanos {
                    self.lifecycle.emit(
                        Phase::Terminated,
                        Some(Outcome::CleanupFailed),
                        "process_group_present",
                        now,
                    );
                    self.stage = Stage::Finished(Outcome::CleanupFailed);
                } else {
                    self.stage = Stage::Sleep;
                }
            },
            None => {
                self.stage = Stage::Sleep;
            },
        }
    }
}

} // verus!
