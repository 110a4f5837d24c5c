//! The content-free lifecycle protocol of a coordinated one-shot review: one
//! JSON record per line for each phase that the review reaches.

use vstd::prelude::*;
use crate::json::Json;
use crate::time::Duration;

verus! {

/// The version of the protocol that the records follow.
pub const SCHEMA_VERSION: u8 = 1;

/// A step of a review, in the order in which reviews pass them.
#[derive(Debug, Clone, Copy, PartialEq, Eq, Structural)]
pub enum Phase {
    Launched,
    PromptSubmitted,
    OutputObserved,
    OutputComplete,
    CleanupStarted,
    Terminated,
}

impl Phase {
    /// The name of the phase in a record.
    pub open spec fn name(self) -> Seq<char> {
        match self {
            Phase::Launched => "launched"@,
            Phase::PromptSubmitted => "prompt_submitted"@,
            Phase::OutputObserved => "output_observed"@,
            Phase::OutputComplete => "output_complete"@,
            Phase::CleanupStarted => "cleanup_started"@,
            Phase::Terminated => "terminated"@,
        }
    }

    /// Where the phase stands among the others.
    pub open spec fn rank(self) -> int {
        match self {
            Phase::Launched => 0,
            Phase::PromptSubmitted => 1,
            Phase::OutputObserved => 2,
            Phase::OutputComplete => 3,
            Phase::CleanupStarted => 4,
            Phase::Terminated => 5,
        }
    }

    /// The name of the phase in a record.
    pub fn as_str(self) -> (name: &'static str)
        ensures
            name@ == self.name(),
    {
        match self {
            Phase::Launched => "launched",
            Phase::PromptSubmitted => "prompt_submitted",
            Phase::OutputObserved => "output_observed",
            Phase::OutputComplete => "output_complete",
            Phase::CleanupStarted => "cleanup_started",
            Phase::Terminated => "terminated",
        }
    }
}

/// How a review ended.
#[derive(Debug, Clone, Copy, PartialEq, Eq, Structural)]
pub enum Outcome {
    CompletedClean,
    CompletedForcedCleanup,
    FailedIncomplete,
    CleanupFailed,
}

impl Outcome {
    /// The name of the outcome in a record.
    pub open spec fn name(self) -> Seq<char> {
        match self {
            Outcome::CompletedClean => "completed_clean"@,
            Outcome::CompletedForcedCleanup => "completed_forced_cleanup"@,
            Outcome::FailedIncomplete => "failed_incomplete"@,
            Outcome::CleanupFailed => "cleanup_failed"@,
        }
    }

    /// The name of the outcome in a record.
    pub fn as_str(self) -> (name: &'static str)
        ensures
            name@ == self.name(),
    {
        match self {
            Outcome::CompletedClean => "completed_clean",
            Outcome::CompletedForcedCleanup => "completed_forced_cleanup",
            Outcome::FailedIncomplete => "failed_incomplete",
            Outcome::CleanupFailed => "cleanup_failed",
        }
    }
}

/// One record of the log.
#[derive(Debug)]
pub struct Record {
    pub phase: Phase,
    pub elapsed_ms: u64,
    pub outcome: Option<Outcome>,
    pub reason: String,
}

/// A [`Record`] with its text as a sequence.
pub struct Entry {
    pub phase: Phase,
    pub elapsed_ms: u64,
    pub outcome: Option<Outcome>,
    pub reason: Seq<char>,
}

impl View for Record {
    type V = Entry;

    open spec fn view(&self) -> Entry {
        Entry {
            phase: self.phase,
            elapsed_ms: self.elapsed_ms,
            outcome: self.outcome,
            reason: self.reason@,
        }
    }
}

impl Entry {
    /// The members of the record: the outcome and the reason only where there
    /// is one.
    pub open spec fn json(self, run_id: Seq<char>) -> Json {
        let always = Map::<Seq<char>, Json>::empty()
            .insert("schema_version"@, Json::Unsigned(SCHEMA_VERSION as u64))
            .insert("run_id"@, Json::Text(run_id))
            .insert("phase"@, Json::Text(self.phase.name()))
            .insert("elapsed_ms"@, Json::Unsigned(self.elapsed_ms));
        let with_outcome = match self.outcome {
            Some(outcome) => always.insert("outcome"@, Json::Text(outcome.name())),
            None => always,
        };
        if self.reason.len() > 0 {
            Json::Object(with_outcome.insert("reason"@, Json::Text(self.reason)))
        } else {
            Json::Object(with_outcome)
        }
    }

    /// The record as a line of the log, with its line break.
    pub open spec fn line(self, run_id: Seq<char>) -> Seq<char> {
        crate::json::written(self.json(run_id)).push('\n')
    }
}

impl Record {
    /// The record as a line of the log, with its line break.
    pub fn line(&self, run_id: &str) -> (line: String)
        ensures
            line@ == self@.line(run_id@),
            forall|i: int| 0 <= i < line@.len() - 1 ==> line@[i] != '\n',
            crate::json::read(line@.drop_last()) == Some(self@.json(run_id@)),
    {
        let mut record = crate::json::no_members();
        crate::json::insert(
            &mut record,
            "schema_version",
            crate::json::number_value(SCHEMA_VERSION as u64),
        );
        crate::json::insert(&mut record, "run_id", crate::json::text_value(run_id));
        crate::json::insert(&mut record, "phase", crate::json::text_value(self.phase.as_str()));
        crate::json::insert(&mut record, "elapsed_ms", crate::json::number_value(self.elapsed_ms));
        if let Some(outcome) = self.outcome {
            crate::json::insert(&mut record, "outcome", crate::json::text_value(outcome.as_str()));
        }
        if !self.reason.as_str().is_empty() {
            crate::json::insert(
                &mut record,
                "reason",
                crate::json::text_value(self.reason.as_str()),
            );
        }
        let value = crate::json::object_value(record);
        let mut line = crate::json::write(&value);
        let ghost unbroken = line@;
        line.push('\n');
        proof {
            reveal_with_fuel(crate::json::plain, 2);
            assert(line@.drop_last() =~= unbroken);
            assert forall|i: int| 0 <= i < line@.len() - 1 implies line@[i] != '\n' by {
                assert(line@[i] == unbroken[i]);
            }
        }
        line
    }
}

/// The log of one review.
#[derive(Debug)]
pub struct Emitter {
    pub run_id: String,
    pub records: Vec<Record>,
}

impl Emitter {
    /// The records so far.
    pub open spec fn log(&self) -> Seq<Entry> {
        self.records@.map_values(|r: Record| r@)
    }

    /// An empty log for the review called `run_id`.
    pub fn open(run_id: String) -> (emitter: Emitter)
        ensures
            emitter.run_id == run_id,
            emitter.log() == Seq::<Entry>::empty(),
    {
        let emitter = Emitter { run_id, records: Vec::new() };
        assert(emitter.log() =~= Seq::<Entry>::empty());
        emitter
    }

    /// Adds a record. `elapsed` is the time since the launch.
    pub fn emit(&mut self, phase: Phase, outcome: Option<Outcome>, reason: &str, elapsed: Duration)
        ensures
            final(self).run_id == old(self).run_id,
            final(self).log() == old(self).log().push(
                Entry { phase, elapsed_ms: elapsed.millis(), outcome, reason: reason@ },
            ),
    {
        let record = Record {
            phase,
            elapsed_ms: elapsed.saturating_millis(),
            outcome,
            reason: reason.to_owned(),
        };
        let ghost entry = record@;
        self.records.push(record);
        assert(self.log() =~= old(self).log().push(entry));
    }

    /// The lines of the records that stand behind the first `written` ones.
    pub fn lines(&self, written: usize) -> (lines: Vec<String>)
        ensures
            lines@.map_values(|l: String| l@) == lines_from(self.log(), self.run_id@, written as int),
            forall|k: int|
                0 <= k < lines@.len() ==> crate::json::read((#[trigger] lines@[k])@.drop_last())
                    == Some(self.log()[written + k].json(self.run_id@)),
    {
        let mut lines: Vec<String> = Vec::new();
        let mut i: usize = written;
        let ghost rest = lines_from(self.log(), self.run_id@, written as int);
        while i < self.records.len()
            invariant
                written <= i,
                i <= self.records@.len() || i == written,
                lines@.len() == i - written,
                rest == lines_from(self.log(), self.run_id@, written as int),
                forall|k: int| 0 <= k < lines@.len() ==> (#[trigger] lines@[k])@ == rest[k],
                forall|k: int|
                    0 <= k < lines@.len() ==> crate::json::read((#[trigger] lines@[k])@.drop_last())
                        == Some(self.log()[written + k].json(self.run_id@)),
            decreases self.records@.len() - i,
        {
            lines.push(self.records[i].line(self.run_id.as_str()));
            assert(self.log()[i as int] == self.records@[i as int]@);
            i = i + 1;
        }
        assert(lines@.map_values(|l: String| l@) =~= rest);
        lines
    }
}

/// The lines of the records that stand behind the first `written` ones.
pub open spec fn lines_from(log: Seq<Entry>, run_id: Seq<char>, written: int) -> Seq<Seq<char>> {
    Seq::new(
        (if written < log.len() {
            log.len() - written
        } else {
            0
        }) as nat,
        |k: int| log[written + k].line(run_id),
    )
}

/// Whether something that took `elapsed` came in time. To the nanosecond: what
/// takes exactly as long as the deadline does.
pub fn within_deadline(elapsed: Duration, deadline: Duration) -> (within: bool)
    ensures
        within == (elapsed.nanos <= deadline.nanos),
{
    elapsed.nanos <= deadline.nanos
}

/// The names of the phases in a record.
pub proof fn law_phases_have_names(phase: Phase, name: &'static str)
    requires
        call_ensures(Phase::as_str, (phase,), name),
    ensures
        name@ == (match phase {
            Phase::Launched => "launched"@,
            Phase::PromptSubmitted => "prompt_submitted"@,
            Phase::OutputObserved => "output_observed"@,
            Phase::OutputComplete => "output_complete"@,
            Phase::CleanupStarted => "cleanup_started"@,
            Phase::Terminated => "terminated"@,
        }),
        name@ == phase.name(),
{
}

/// The names of the outcomes in a record.
pub proof fn law_outcomes_have_names(outcome: Outcome, name: &'static str)
    requires
        call_ensures(Outcome::as_str, (outcome,), name),
    ensures
        name@ == (match outcome {
            Outcome::CompletedClean => "completed_clean"@,
            Outcome::CompletedForcedCleanup => "completed_forced_cleanup"@,
            Outcome::FailedIncomplete => "failed_incomplete"@,
            Outcome::CleanupFailed => "cleanup_failed"@,
        }),
        name@ == outcome.name(),
{
}

/// Different phases have different names, and so have different outcomes.
pub proof fn law_names_tell_apart(a: Phase, b: Phase, x: Outcome, y: Outcome)
    ensures
        a.name() == b.name() ==> a == b,
        x.name() == y.name() ==> x == y,
{
    reveal_strlit("launched");
    reveal_strlit("prompt_submitted");
    reveal_strlit("output_observed");
    reveal_strlit("output_complete");
    reveal_strlit("cleanup_started");
    reveal_strlit("terminated");
    reveal_strlit("completed_clean");
    reveal_strlit("completed_forced_cleanup");
    reveal_strlit("failed_incomplete");
    reveal_strlit("cleanup_failed");
    assert(a.name()[0] == b.name()[0] || a.name() != b.name());
    assert(a.name()[7] == b.name()[7] || a.name() != b.name());
    assert(a.name().len() == b.name().len() || a.name() != b.name());
    assert(x.name().len() == y.name().len() || x.name() != y.name());
}

/// A record says the version of the protocol, the run, the phase and the time; the outcome
/// and the reason only where there is one; and nothing else.
pub proof fn law_what_a_record_says(entry: Entry, run_id: Seq<char>)
    ensures
        ({
            let record = entry.json(run_id);
            &&& record is Object
            &&& record.member("schema_version"@) == Some(Json::Unsigned(1))
            &&& record.member("run_id"@) == Some(Json::Text(run_id))
            &&& record.member("phase"@) == Some(Json::Text(entry.phase.name()))
            &&& record.member("elapsed_ms"@) == Some(Json::Unsigned(entry.elapsed_ms))
            &&& record.member("outcome"@) == (match entry.outcome {
                Some(outcome) => Some(Json::Text(outcome.name())),
                None => None,
            })
            &&& record.member("reason"@) == (if entry.reason.len() > 0 {
                Some(Json::Text(entry.reason))
            } else {
                None
            })
            &&& forall|key: Seq<char>| #[trigger]
                record.member(key) is Some ==> key == "schema_version"@ || key == "run_id"@ || key
                    == "phase"@ || key == "elapsed_ms"@ || key == "outcome"@ || key == "reason"@
        }),
{
    reveal_strlit("schema_version");
    reveal_strlit("run_id");
    reveal_strlit("phase");
    reveal_strlit("elapsed_ms");
    reveal_strlit("outcome");
    reveal_strlit("reason");
    assert("schema_version"@.len() == 14);
    assert("run_id"@.len() == 6 && "reason"@.len() == 6);
    assert("phase"@.len() == 5);
    assert("elapsed_ms"@.len() == 10);
    assert("outcome"@.len() == 7);
    assert("run_id"@[1] == 'u' && "reason"@[1] == 'e');
    assert("run_id"@ != "reason"@);
}

/// The lines of a log are one line per record that is not yet written, in their order:
/// what is written bit by bit is what would be written at once.
pub proof fn law_lines_are_written_once(log: Seq<Entry>, more: Seq<Entry>, run_id: Seq<char>)
    ensures
        lines_from(log, run_id, 0).len() == log.len(),
        forall|i: int|
            0 <= i < log.len() ==> #[trigger] lines_from(log, run_id, 0)[i] == log[i].line(run_id),
        lines_from(log + more, run_id, 0) == lines_from(log, run_id, 0) + lines_from(
            log + more,
            run_id,
            log.len() as int,
        ),
        lines_from(log + more, run_id, log.len() as int) == lines_from(more, run_id, 0),
{
    let whole = log + more;
    assert(lines_from(whole, run_id, log.len() as int) =~= lines_from(more, run_id, 0));
    assert(lines_from(whole, run_id, 0) =~= lines_from(log, run_id, 0) + lines_from(
        whole,
        run_id,
        log.len() as int,
    ));
}

/// Something comes in time up to the deadline, and not a nanosecond later.
pub proof fn law_in_time_is_up_to_the_deadline(elapsed: Duration, deadline: Duration, within: bool)
    requires
        call_ensures(within_deadline, (elapsed, deadline), within),
    ensures
        within <==> elapsed.nanos <= deadline.nanos,
{
}

/// A record is one line: it ends with a line break, has no other, and reads back as what the
/// record says.
pub proof fn law_a_record_is_one_line(record: &Record, run_id: &str, line: String)
    requires
        call_ensures(Record::line, (record, run_id), line),
    ensures
        line@.len() > 0 && line@.last() == '\n',
        forall|i: int| 0 <= i < line@.len() - 1 ==> line@[i] != '\n',
        crate::json::read(line@.drop_last()) == Some(record@.json(run_id@)),
{
}

/// A record that is emitted is the last one of the log, as it was asked for and with the
/// whole milliseconds since the launch; those before it stay.
pub proof fn law_what_is_emitted(
    emitter: &mut Emitter,
    phase: Phase,
    outcome: Option<Outcome>,
    reason: &str,
    elapsed: Duration,
)
    requires
        call_ensures(Emitter::emit, (emitter, phase, outcome, reason, elapsed), ()),
    ensures
        ({
            let before = old(emitter).log();
            let log = final(emitter).log();
            &&& log.len() == before.len() + 1
            &&& log.drop_last() == before
            &&& log.last().phase == phase
            &&& log.last().outcome == outcome
            &&& log.last().reason == reason@
            &&& elapsed.nanos < 1_000_000 * (u64::MAX + 1) ==> log.last().elapsed_ms == elapsed.nanos
                / 1_000_000
        }),
        final(emitter).run_id == old(emitter).run_id,
{
    assert(final(emitter).log().drop_last() =~= old(emitter).log());
}

/// A log starts empty, under the name of its run.
pub proof fn law_how_a_log_starts(run_id: String, emitter: Emitter)
    requires
        call_ensures(Emitter::open, (run_id,), emitter),
    ensures
        emitter.run_id@ == run_id@,
        emitter.log().len() == 0,
{
}

/// The lines of a log are those of its records behind the first ones, one for each.
pub proof fn law_which_lines_are_given(emitter: &Emitter, written: usize, lines: Vec<String>)
    requires
        call_ensures(Emitter::lines, (emitter, written), lines),
    ensures
        written <= emitter.log().len() ==> lines@.len() == emitter.log().len() - written,
        written > emitter.log().len() ==> lines@.len() == 0,
        forall|k: int|
            0 <= k < lines@.len() ==> (#[trigger] lines@[k])@ == emitter.log()[written + k].line(
                emitter.run_id@,
            ),
{
    let views = lines@.map_values(|l: String| l@);
    assert(views.len() == lines@.len());
    assert forall|k: int| 0 <= k < lines@.len() implies (#[trigger] lines@[k])@
        == emitter.log()[written + k].line(emitter.run_id@) by {
        assert(views[k] == lines@[k]@);
    }
}

/// Records are what they are seen as.
pub proof fn law_records_are_entries(record: Record)
    ensures
        record@.phase == record.phase && record@.elapsed_ms == record.elapsed_ms,
        record@.outcome == record.outcome && record@.reason == record.reason@,
{
}

} // verus!
