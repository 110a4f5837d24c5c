//! The session transcript, one JSON value per line: what is looked for, what is
//! read out of a line, and what goes to standard output in each format.

use vstd::prelude::*;
use serde_json::Value;
use crate::args::OutputFormat;
use crate::json::Json;
use crate::text::OsText;
use crate::time::Duration;

pub mod laws;

verus! {

/// How long to wait before the transcript is looked for or read again, in
/// milliseconds.
pub const POLL_INTERVAL_MS: u64 = 100;

/// A reply of the assistant with visible text, seen `elapsed` after the launch.
#[derive(Debug, Clone, PartialEq, Eq)]
pub struct Observation {
    pub text: String,
    /// Whether the assistant's turn ended with it.
    pub complete: bool,
    pub elapsed: Duration,
}

/// An [`Observation`] with its text as a sequence.
pub struct Sighting {
    pub text: Seq<char>,
    pub complete: bool,
    pub elapsed: Duration,
}

impl View for Observation {
    type V = Sighting;

    open spec fn view(&self) -> Sighting {
        Sighting { text: self.text@, complete: self.complete, elapsed: self.elapsed }
    }
}

/// An observation that may be missing, with its text as a sequence.
pub open spec fn sighting(observation: Option<Observation>) -> Option<Sighting> {
    match observation {
        Some(o) => Some(o@),
        None => None,
    }
}

impl Sighting {
    /// Whether the turn ended, and in time.
    pub open spec fn completed_within(self, deadline: Duration) -> bool {
        self.complete && self.elapsed.nanos <= deadline.nanos
    }
}

/// Whether the turn ended, and in time.
pub fn completed_within(observation: &Observation, deadline: Duration) -> (completed: bool)
    ensures
        completed == observation@.completed_within(deadline),
{
    observation.complete && crate::lifecycle::within_deadline(observation.elapsed, deadline)
}

/// The text, or nothing at all where it is missing.
pub open spec fn or_empty(text: Option<Seq<char>>) -> Seq<char> {
    match text {
        Some(s) => s,
        None => Seq::empty(),
    }
}

/// The `text` members of the blocks, one behind the other.
pub open spec fn block_texts(blocks: Seq<Json>) -> Seq<char>
    decreases blocks.len(),
{
    if blocks.len() == 0 {
        Seq::empty()
    } else {
        block_texts(blocks.drop_last()) + or_empty(blocks.last().member_text("text"@))
    }
}

/// The visible text of a message content: that of its blocks, or the content
/// itself where it is a string.
pub open spec fn content_text(content: Json) -> Seq<char> {
    match content.items() {
        Some(blocks) => block_texts(blocks),
        None => or_empty(content.text()),
    }
}

/// The visible text of the message in a transcript entry.
pub open spec fn message_text(entry: Json) -> Seq<char> {
    match entry.member("message"@) {
        Some(message) => match message.member("content"@) {
            Some(content) => content_text(content),
            None => Seq::empty(),
        },
        None => Seq::empty(),
    }
}

/// The visible text of the message in a transcript entry.
pub fn extract_message_text(entry: &Value) -> (text: String)
    ensures
        text@ == message_text(crate::json::tree(*entry)),
{
    let message = match crate::json::get(entry, "message") {
        Some(message) => message,
        None => {
            return String::new();
        },
    };
    let content = match crate::json::get(message, "content") {
        Some(content) => content,
        None => {
            return String::new();
        },
    };
    if let Some(blocks) = content.as_array() {
        let ghost all = crate::json::trees(blocks@);
        let mut text = String::new();
        let mut i: usize = 0;
        proof {
            assert(all.take(0) =~= Seq::empty());
        }
        while i < blocks.len()
            invariant
                i <= blocks@.len(),
                all == crate::json::trees(blocks@),
                text@ == block_texts(all.take(i as int)),
            decreases blocks@.len() - i,
        {
            let ghost before = text@;
            let ghost upto = all.take(i + 1);
            if let Some(block) = crate::json::get_text(&blocks[i], "text") {
                text.append(block);
            }
            proof {
                assert(upto.drop_last() =~= all.take(i as int));
                assert(upto.last() == crate::json::tree(blocks@[i as int]));
                assert(text@ =~= before + or_empty(upto.last().member_text("text"@)));
            }
            i = i + 1;
        }
        proof {
            assert(all.take(i as int) =~= all);
        }
        return text;
    }
    match content.as_str() {
        Some(text) => text.to_owned(),
        None => String::new(),
    }
}

/// What is seen in a transcript entry: an assistant's message with visible text.
pub open spec fn seen(entry: Json, elapsed: Duration) -> Option<Sighting> {
    match entry.member("message"@) {
        Some(message) => if entry.member_text("type"@) == Some("assistant"@)
            && message.member_text("type"@) == Some("message"@) && !crate::text::blank(
            message_text(entry),
        ) {
            Some(
                Sighting {
                    text: message_text(entry),
                    complete: message.member_text("stop_reason"@) == Some("end_turn"@),
                    elapsed,
                },
            )
        } else {
            None
        },
        None => None,
    }
}

/// What is seen in a transcript entry.
pub fn observe_value(entry: &Value, elapsed: Duration) -> (observation: Option<Observation>)
    ensures
        sighting(observation) == seen(crate::json::tree(*entry), elapsed),
{
    if !crate::text::is_text(crate::json::get_text(entry, "type"), "assistant") {
        return None;
    }
    let message = match crate::json::get(entry, "message") {
        Some(message) => message,
        None => {
            return None;
        },
    };
    if !crate::text::is_text(crate::json::get_text(message, "type"), "message") {
        return None;
    }
    let text = extract_message_text(entry);
    if crate::text::is_blank(text.as_str()) {
        return None;
    }
    let complete = crate::text::is_text(crate::json::get_text(message, "stop_reason"), "end_turn");
    Some(Observation { text, complete, elapsed })
}

/// What is seen in a line: nothing where it is not JSON.
pub open spec fn seen_in(entry: Option<Json>, elapsed: Duration) -> Option<Sighting> {
    match entry {
        Some(entry) => seen(entry, elapsed),
        None => None,
    }
}

/// What is seen in a line of the transcript.
pub fn observe_line(line: &str, elapsed: Duration) -> (observation: Option<Observation>)
    ensures
        sighting(observation) == seen_in(crate::json::read(line@), elapsed),
{
    match crate::json::parse(line) {
        Some(entry) => observe_value(&entry, elapsed),
        None => None,
    }
}

/// Whether an entry is the summary of a session.
pub open spec fn is_result(entry: Json) -> bool {
    entry.member_text("type"@) == Some("result"@)
}

/// Whether an entry carries a message of the assistant.
pub open spec fn is_message(entry: Json) -> bool {
    &&& entry.member_text("type"@) == Some("assistant"@)
    &&& entry.member("message"@) matches Some(message)
    &&& message.member_text("type"@) == Some("message"@)
}

/// The text of an entry that is printed: that of a result always, and that of the
/// assistant's message where there is any.
pub open spec fn printed_text(entry: Json) -> Option<Seq<char>> {
    if is_result(entry) {
        Some(or_empty(entry.member_text("result"@)))
    } else if is_message(entry) && message_text(entry).len() > 0 {
        Some(message_text(entry))
    } else {
        None
    }
}

/// What is printed for a line, without the line break. `entry` is what the line
/// reads as. Streaming prints every line as it is; the other formats print only
/// the lines whose text is printed, the line itself or that text.
pub open spec fn printed(line: Seq<char>, entry: Option<Json>, format: OutputFormat) -> Option<
    Seq<char>,
> {
    match format {
        OutputFormat::StreamJson => Some(line),
        _ => match entry {
            Some(entry) => match printed_text(entry) {
                Some(text) => Some(
                    if format == OutputFormat::Json {
                        line
                    } else {
                        text
                    },
                ),
                None => None,
            },
            None => None,
        },
    }
}

/// The text of an entry that is printed.
pub fn handle_value(entry: &Value) -> (text: Option<String>)
    ensures
        crate::text::text_view(text) == printed_text(crate::json::tree(*entry)),
{
    if crate::text::is_text(crate::json::get_text(entry, "type"), "result") {
        return match crate::json::get_text(entry, "result") {
            Some(result) => Some(result.to_owned()),
            None => Some(String::new()),
        };
    }
    if !crate::text::is_text(crate::json::get_text(entry, "type"), "assistant") {
        return None;
    }
    let message = match crate::json::get(entry, "message") {
        Some(message) => message,
        None => {
            return None;
        },
    };
    if !crate::text::is_text(crate::json::get_text(message, "type"), "message") {
        return None;
    }
    let text = extract_message_text(entry);
    if text.as_str().is_empty() {
        None
    } else {
        Some(text)
    }
}

/// What is printed for a line of the transcript, without the line break.
pub fn handle_line(line: &str, format: OutputFormat) -> (output: Option<String>)
    ensures
        crate::text::text_view(output) == printed(line@, crate::json::read(line@), format),
{
    if let OutputFormat::StreamJson = format {
        return Some(line.to_owned());
    }
    let entry = match crate::json::parse(line) {
        Some(entry) => entry,
        None => {
            return None;
        },
    };
    match handle_value(&entry) {
        Some(text) => match format {
            OutputFormat::Json => Some(line.to_owned()),
            _ => Some(text),
        },
        None => None,
    }
}

/// The directory in which a program holds a directory per project, where the home
/// directory is known.
pub open spec fn projects_in(home: Option<Seq<u8>>, program: Seq<char>) -> Option<Seq<u8>> {
    match home {
        Some(home) => if home.len() > 0 {
            Some(
                crate::text::joined(
                    home,
                    vstd::utf8::encode_utf8(crate::names::transcripts_name(program)),
                ),
            )
        } else {
            None
        },
        None => None,
    }
}

/// The directory whose entries are searched for the transcript. `home` is what
/// the environment says, if anything.
pub fn find(home: Option<OsText>, program: &str) -> (projects: Option<OsText>)
    ensures
        crate::text::os_view(projects) == projects_in(crate::text::os_view(home), program@),
{
    match home {
        Some(home) => if home.is_empty() {
            None
        } else {
            let name = crate::text::join3(".", program, "/projects");
            Some(crate::text::join_path(&home, name.as_str()))
        },
        None => None,
    }
}

/// Where the transcript of a session is, if it is in this project's directory.
pub fn candidate(project: &OsText, session_id: &str) -> (path: OsText)
    ensures
        path@ == crate::text::joined(
            project@,
            vstd::utf8::encode_utf8(session_id@ + ".jsonl"@),
        ),
{
    let target = crate::text::join3("", session_id, ".jsonl");
    proof {
        reveal_strlit("");
        assert(target@ =~= session_id@ + ".jsonl"@);
    }
    crate::text::join_path(project, target.as_str())
}

/// What a text is without the line breaks at its end.
pub open spec fn unbroken(text: Seq<char>) -> Seq<char>
    decreases text.len(),
{
    if text.len() > 0 && text.last() == '\n' {
        unbroken(text.drop_last())
    } else {
        text
    }
}

/// `count` line breaks.
pub open spec fn breaks(count: nat) -> Seq<char> {
    Seq::new(count, |i: int| '\n')
}

proof fn lemma_unbroken_with_breaks(text: Seq<char>, count: nat)
    requires
        text.len() > 0 ==> text.last() != '\n',
    ensures
        unbroken(text + breaks(count)) == text,
    decreases count,
{
    let whole = text + breaks(count);
    if count == 0 {
        assert(whole =~= text);
    } else {
        assert(whole.last() == '\n');
        assert(whole.drop_last() =~= text + breaks((count - 1) as nat));
        lemma_unbroken_with_breaks(text, (count - 1) as nat);
    }
}

/// The line in a text that ends with a line break, without the break.
pub open spec fn line_in(text: Seq<char>) -> Option<Seq<char>> {
    if text.len() > 0 && text.last() == '\n' {
        Some(unbroken(text))
    } else {
        None
    }
}

fn whole_line(text: &str) -> (line: Option<String>)
    ensures
        crate::text::text_view(line) == line_in(text@),
{
    let mut line = String::new();
    let mut pending: usize = 0;
    let length: usize = text.unicode_len();
    proof {
        assert(Seq::<char>::empty() + breaks(0) =~= text@.take(0));
    }
    for c in it: text.chars()
        invariant
            it.seq() == text@,
            length == text@.len(),
            pending <= it.index() <= length,
            line@ + breaks(pending as nat) == text@.take(it.index() as int),
            line@.len() > 0 ==> line@.last() != '\n',
    {
        let ghost i = it.index() as int;
        let ghost done = text@.take(i);
        assert(text@.take(i + 1) =~= done.push(c));
        if c == '\n' {
            pending = pending + 1;
            assert(line@ + breaks(pending as nat) =~= done.push(c));
        } else {
            while pending > 0
                invariant
                    line@ + breaks(pending as nat) == done,
                decreases pending,
            {
                let ghost before = line@;
                line.push('\n');
                assert(line@ + breaks((pending - 1) as nat) =~= before + breaks(pending as nat));
                pending = pending - 1;
            }
            assert(line@ =~= done);
            line.push(c);
            assert(line@ + breaks(0) =~= done.push(c));
        }
    }
    proof {
        assert(text@.take(text@.len() as int) =~= text@);
        lemma_unbroken_with_breaks(line@, pending as nat);
        if pending > 0 {
            assert(text@.last() == breaks(pending as nat).last());
        } else {
            assert(text@ =~= line@);
        }
    }
    if pending > 0 {
        Some(line)
    } else {
        None
    }
}

/// Where the lines of the transcript go.
#[derive(Debug, Clone, Copy, PartialEq, Eq, Structural)]
pub enum Sink {
    /// To standard output, in a format.
    Print(OutputFormat),
    /// To whoever waits for observations; nothing is printed.
    Observe,
}

/// What follows the transcript of a session from its discovery to its end.
#[derive(Debug)]
pub struct Tailer {
    pub sink: Sink,
    /// What was read behind the last whole line.
    pub pending: String,
    /// Whether the child is gone and only what it left behind is still read.
    pub final_pass: bool,
}

/// What is done next.
#[derive(Debug)]
pub enum Step {
    /// Sleep for [`POLL_INTERVAL_MS`], and look for the transcript again.
    SearchAgain,
    /// Read more of the transcript.
    Read,
    /// Sleep for [`POLL_INTERVAL_MS`], and read more of the transcript.
    ReadAgain,
    /// Print the text as a line, and read more.
    Print(String),
    /// Hand the observation over, and read more.
    Deliver(Observation),
    /// Stop.
    Finish,
}

/// A [`Step`] with its texts as sequences.
pub enum Move {
    SearchAgain,
    Read,
    ReadAgain,
    Print(Seq<char>),
    Deliver(Sighting),
    Finish,
}

impl View for Step {
    type V = Move;

    open spec fn view(&self) -> Move {
        match self {
            Step::SearchAgain => Move::SearchAgain,
            Step::Read => Move::Read,
            Step::ReadAgain => Move::ReadAgain,
            Step::Print(text) => Move::Print(text@),
            Step::Deliver(observation) => Move::Deliver(observation@),
            Step::Finish => Move::Finish,
        }
    }
}

/// Prints the transcript in `format`.
pub fn run(format: OutputFormat) -> (tailer: Tailer)
    ensures
        tailer.sink == Sink::Print(format),
        tailer.pending@ == Seq::<char>::empty(),
        !tailer.final_pass,
{
    Tailer { sink: Sink::Print(format), pending: String::new(), final_pass: false }
}

/// Observes the transcript without printing it.
pub fn run_observed() -> (tailer: Tailer)
    ensures
        tailer.sink == Sink::Observe,
        tailer.pending@ == Seq::<char>::empty(),
        !tailer.final_pass,
{
    Tailer { sink: Sink::Observe, pending: String::new(), final_pass: false }
}

/// What is done with a whole line. `entry` is what it reads as.
pub open spec fn line_move(
    sink: Sink,
    line: Seq<char>,
    entry: Option<Json>,
    elapsed: Duration,
) -> Move {
    match sink {
        Sink::Print(format) => match printed(line, entry, format) {
            Some(text) => Move::Print(text),
            None => Move::Read,
        },
        Sink::Observe => match seen_in(entry, elapsed) {
            Some(sighting) => Move::Deliver(sighting),
            None => Move::Read,
        },
    }
}

/// What is done where there is no whole line to read.
pub open spec fn idle_move(final_pass: bool, stopped: bool) -> Move {
    if final_pass {
        Move::Finish
    } else if stopped {
        Move::Read
    } else {
        Move::ReadAgain
    }
}

/// What is left over of a text, once its whole line is taken out.
pub open spec fn left_over(text: Seq<char>) -> Seq<char> {
    if line_in(text) is Some {
        Seq::empty()
    } else {
        text
    }
}

/// The whole line that a chunk completes, behind what was pending. A chunk without
/// anything in it completes none.
pub open spec fn line_taken(pending: Seq<char>, chunk: Seq<char>) -> Option<Seq<char>> {
    if chunk.len() > 0 {
        line_in(pending + chunk)
    } else {
        None
    }
}

/// What is pending behind a chunk.
pub open spec fn pending_behind(pending: Seq<char>, chunk: Seq<char>) -> Seq<char> {
    if chunk.len() > 0 {
        left_over(pending + chunk)
    } else {
        pending
    }
}

impl Tailer {
    /// What is done once the transcript was looked for. `stopped` says whether
    /// the child is gone.
    pub fn searched(&self, found: bool, stopped: bool) -> (step: Step)
        ensures
            step@ == (if found {
                Move::Read
            } else if stopped {
                Move::Finish
            } else {
                Move::SearchAgain
            }),
    {
        if found {
            Step::Read
        } else if stopped {
            Step::Finish
        } else {
            Step::SearchAgain
        }
    }

    /// What is done with `chunk`, which is what the transcript goes on with up to
    /// and with the next line break, or to its end. It is empty where nothing is
    /// left to read. `stopped` says whether the child is gone, and `elapsed` is
    /// the time since the launch.
    pub fn tail(&mut self, chunk: &str, stopped: bool, elapsed: Duration) -> (step: Step)
        ensures
            final(self).sink == old(self).sink,
            final(self).pending@ == pending_behind(old(self).pending@, chunk@),
            match line_taken(old(self).pending@, chunk@) {
                Some(line) => {
                    &&& step@ == line_move(
                        old(self).sink,
                        line,
                        crate::json::read(line),
                        elapsed,
                    )
                    &&& final(self).final_pass == old(self).final_pass
                },
                None => {
                    &&& step@ == idle_move(old(self).final_pass, stopped)
                    &&& final(self).final_pass == (old(self).final_pass || stopped)
                },
            },
    {
        if !chunk.is_empty() {
            self.pending.append(chunk);
            if let Some(line) = whole_line(self.pending.as_str()) {
                self.pending = String::new();
                return match self.sink {
                    Sink::Print(format) => match handle_line(line.as_str(), format) {
                        Some(text) => Step::Print(text),
                        None => Step::Read,
                    },
                    Sink::Observe => match observe_line(line.as_str(), elapsed) {
                        Some(observation) => Step::Deliver(observation),
                        None => Step::Read,
                    },
                };
            }
        }
        if self.final_pass {
            return Step::Finish;
        }
        if stopped {
            self.final_pass = true;
            return Step::Read;
        }
        Step::ReadAgain
    }
}

/// Whether a chunk has a line break at its end at most.
pub open spec fn one_line(chunk: Seq<char>) -> bool {
    forall|i: int| 0 <= i < chunk.len() - 1 ==> #[trigger] chunk[i] != '\n'
}

/// The whole lines in what was pending and the chunks behind it.
pub open spec fn lines_of(pending: Seq<char>, chunks: Seq<Seq<char>>) -> Seq<Seq<char>>
    decreases chunks.len(),
{
    if chunks.len() == 0 {
        Seq::empty()
    } else {
        let behind = lines_of(pending_behind(pending, chunks[0]), chunks.skip(1));
        match line_taken(pending, chunks[0]) {
            Some(line) => seq![line] + behind,
            None => behind,
        }
    }
}

/// What stands behind the last whole line.
pub open spec fn rest_of(pending: Seq<char>, chunks: Seq<Seq<char>>) -> Seq<char>
    decreases chunks.len(),
{
    if chunks.len() == 0 {
        pending
    } else {
        rest_of(pending_behind(pending, chunks[0]), chunks.skip(1))
    }
}

/// The lines and the rest come about chunk by chunk: one more chunk adds the line
/// that it completes, if any, and leaves pending what is behind it. So they are what
/// the calls of [`Tailer::tail`] take out and leave, one after the other.
pub proof fn law_lines_come_chunk_by_chunk(
    pending: Seq<char>,
    chunks: Seq<Seq<char>>,
    chunk: Seq<char>,
)
    ensures
        lines_of(pending, chunks.push(chunk)) == (match line_taken(
            rest_of(pending, chunks),
            chunk,
        ) {
            Some(line) => lines_of(pending, chunks).push(line),
            None => lines_of(pending, chunks),
        }),
        rest_of(pending, chunks.push(chunk)) == pending_behind(rest_of(pending, chunks), chunk),
    decreases chunks.len(),
{
    let whole = chunks.push(chunk);
    if chunks.len() == 0 {
        let none = whole.skip(1);
        assert(none.len() == 0);
        assert(lines_of(pending_behind(pending, chunk), none) =~= Seq::empty());
        assert(rest_of(pending_behind(pending, chunk), none) == pending_behind(pending, chunk));
        if let Some(line) = line_taken(pending, chunk) {
            assert(seq![line] + Seq::<Seq<char>>::empty() =~= Seq::empty().push(line));
        }
    } else {
        let left = pending_behind(pending, chunks[0]);
        let behind = chunks.skip(1);
        assert(whole[0] == chunks[0]);
        assert(whole.skip(1) =~= behind.push(chunk));
        law_lines_come_chunk_by_chunk(left, behind, chunk);
        if let Some(first) = line_taken(pending, chunks[0]) {
            if let Some(line) = line_taken(rest_of(pending, chunks), chunk) {
                assert(seq![first] + lines_of(left, behind).push(line) =~= (seq![first] + lines_of(
                    left,
                    behind,
                )).push(line));
            }
        }
    }
}

/// The lines, each with a line break, one behind the other.
pub open spec fn with_breaks(lines: Seq<Seq<char>>) -> Seq<char>
    decreases lines.len(),
{
    if lines.len() == 0 {
        Seq::empty()
    } else {
        lines[0].push('\n') + with_breaks(lines.skip(1))
    }
}

/// The chunks, one behind the other.
pub open spec fn all_of(chunks: Seq<Seq<char>>) -> Seq<char>
    decreases chunks.len(),
{
    if chunks.len() == 0 {
        Seq::empty()
    } else {
        chunks[0] + all_of(chunks.skip(1))
    }
}

/// Nothing of the transcript is lost, changed or taken out of its order,
/// however it came in: the lines that are handled, with their breaks, and what
/// is still pending are what was read.
pub proof fn law_lines_are_what_was_read(pending: Seq<char>, chunks: Seq<Seq<char>>)
    requires
        !pending.contains('\n'),
        forall|i: int| 0 <= i < chunks.len() ==> one_line(#[trigger] chunks[i]),
    ensures
        with_breaks(lines_of(pending, chunks)) + rest_of(pending, chunks) == pending + all_of(
            chunks,
        ),
        !rest_of(pending, chunks).contains('\n'),
    decreases chunks.len(),
{
    if chunks.len() == 0 {
        assert(with_breaks(lines_of(pending, chunks)) + rest_of(pending, chunks) =~= pending
            + all_of(chunks));
    } else {
        let text = pending + chunks[0];
        let left = pending_behind(pending, chunks[0]);
        let behind = chunks.skip(1);
        assert(one_line(chunks[0]));
        assert forall|i: int| 0 <= i < text.len() - 1 implies text[i] != '\n' by {
            if i < pending.len() {
                assert(pending.contains(pending[i]));
            } else {
                assert(text[i] == chunks[0][i - pending.len()]);
            }
        }
        assert(!left.contains('\n')) by {
            if chunks[0].len() > 0 && line_in(text) is None && left.contains('\n') {
                let i = choose|i: int| 0 <= i < text.len() && text[i] == '\n';
                assert(i == text.len() - 1);
            }
        }
        assert forall|i: int| 0 <= i < behind.len() implies one_line(#[trigger] behind[i]) by {
            assert(behind[i] == chunks[i + 1]);
        }
        law_lines_are_what_was_read(left, behind);
        assert(pending + all_of(chunks) =~= text + all_of(behind));
        if let Some(line) = line_taken(pending, chunks[0]) {
            reveal_with_fuel(unbroken, 2);
            assert(text.drop_last().len() > 0 ==> text.drop_last().last() != '\n');
            assert(line.push('\n') =~= text);
            let lines = lines_of(pending, chunks);
            assert(lines[0] == line);
            assert(lines.skip(1) =~= lines_of(left, behind));
            assert(left + all_of(behind) =~= all_of(behind));
            assert(with_breaks(lines) + rest_of(pending, chunks) =~= text + (with_breaks(
                lines.skip(1),
            ) + rest_of(left, behind)));
        }
    }
}

/// Streaming prints every line, as it is.
pub proof fn law_streaming_is_verbatim(line: Seq<char>, entry: Option<Json>)
    ensures
        printed(line, entry, OutputFormat::StreamJson) == Some(line),
{
}

/// The two other formats print for the same lines, and only for those that read
/// as a result or as a message of the assistant with visible text.
pub proof fn law_formats_agree_on_the_lines(line: Seq<char>, entry: Option<Json>)
    ensures
        printed(line, entry, OutputFormat::Json) is Some <==> printed(
            line,
            entry,
            OutputFormat::Text,
        ) is Some,
        printed(line, entry, OutputFormat::Json) is Some <==> (entry matches Some(e) && (is_result(
            e,
        ) || (is_message(e) && message_text(e).len() > 0))),
        printed(line, entry, OutputFormat::Json) matches Some(output) ==> output == line,
{
}

/// What is observed is what the text format prints for the same line.
pub proof fn law_observed_text_is_the_printed_text(line: Seq<char>, entry: Json, elapsed: Duration)
    ensures
        seen(entry, elapsed) matches Some(sighting) ==> printed(
            line,
            Some(entry),
            OutputFormat::Text,
        ) == Some(sighting.text),
{
    reveal_strlit("assistant");
    reveal_strlit("result");
    if let Some(sighting) = seen(entry, elapsed) {
        assert("assistant"@.len() != "result"@.len());
        assert(!is_result(entry));
    }
}

} // verus!
