//! What reading a transcript is for, in terms of the JSON that its lines hold.

use vstd::prelude::*;
use crate::args::OutputFormat;
use crate::json::Json;
use crate::text::OsText;
use crate::time::Duration;
use crate::transcript::{Move, Observation, Sighting, Sink, Step, Tailer};

verus! {

/// Whether `json` is an object with `value` under `key`.
pub open spec fn under(json: Json, key: Seq<char>, value: Json) -> bool {
    json matches Json::Object(members) && members.contains_pair(key, value)
}

/// Whether `json` is an object with nothing under `key`, or no object at all.
pub open spec fn lacks(json: Json, key: Seq<char>) -> bool {
    forall|value: Json| !#[trigger] under(json, key, value)
}

/// Whether an entry holds a message with this content.
pub open spec fn with_content(entry: Json, content: Json) -> bool {
    exists|message: Json| #[trigger]
        under(entry, "message"@, message) && under(message, "content"@, content)
}

proof fn lemma_member(json: Json, key: Seq<char>)
    ensures
        forall|value: Json| #[trigger] under(json, key, value) <==> json.member(key) == Some(value),
        lacks(json, key) <==> json.member(key) is None,
{
    if let Some(value) = json.member(key) {
        assert(under(json, key, value));
    }
}

/// A reply completes the turn if and only if the message's stop reason is the string
/// `end_turn`; no other reason, and no missing one, does.
pub proof fn law_only_end_turn_completes(entry: Json, message: Json, elapsed: Duration)
    requires
        under(entry, "message"@, message),
    ensures
        crate::transcript::seen(entry, elapsed) matches Some(sighting) ==> (sighting.complete
            <==> under(message, "stop_reason"@, Json::Text("end_turn"@))),
{
    lemma_member(entry, "message"@);
    lemma_member(message, "stop_reason"@);
    assert(entry.member("message"@) == Some(message));
}

/// A reply is seen if and only if the entry is the assistant's, the message in it is a
/// message, and something other than white space is in its text. What is seen is that
/// text, at the time that it was read.
pub proof fn law_every_visible_reply_is_seen(entry: Json, message: Json, elapsed: Duration)
    requires
        under(entry, "message"@, message),
    ensures
        crate::transcript::seen(entry, elapsed) is Some <==> {
            let text = crate::transcript::message_text(entry);
            &&& under(entry, "type"@, Json::Text("assistant"@))
            &&& under(message, "type"@, Json::Text("message"@))
            &&& exists|i: int| 0 <= i < text.len() && !crate::text::white_space(#[trigger] text[i])
        },
        crate::transcript::seen(entry, elapsed) matches Some(sighting) ==> sighting.text
            == crate::transcript::message_text(entry) && sighting.elapsed == elapsed,
{
    lemma_member(entry, "message"@);
    lemma_member(entry, "type"@);
    lemma_member(message, "type"@);
    assert(entry.member("message"@) == Some(message));
}

/// Nothing is seen, and nothing is said, in an entry without a message.
pub proof fn law_nothing_is_said_without_a_message(entry: Json, elapsed: Duration)
    requires
        lacks(entry, "message"@),
    ensures
        crate::transcript::seen(entry, elapsed) is None,
        crate::transcript::message_text(entry) == Seq::<char>::empty(),
{
    lemma_member(entry, "message"@);
}

/// Nothing is said in a message without content.
pub proof fn law_nothing_is_said_without_content(entry: Json, message: Json)
    requires
        under(entry, "message"@, message),
        lacks(message, "content"@),
    ensures
        crate::transcript::message_text(entry) == Seq::<char>::empty(),
{
    lemma_member(entry, "message"@);
    lemma_member(message, "content"@);
    assert(entry.member("message"@) == Some(message));
}

proof fn lemma_content(entry: Json, content: Json)
    requires
        with_content(entry, content),
    ensures
        entry.member("message"@) matches Some(message) && message.member("content"@) == Some(
            content,
        ),
{
    let message = choose|message: Json| #[trigger]
        under(entry, "message"@, message) && under(message, "content"@, content);
    lemma_member(entry, "message"@);
    lemma_member(message, "content"@);
    assert(under(message, "content"@, content));
    assert(entry.member("message"@) == Some(message));
}

/// The text of a list of blocks is the texts of its blocks, one behind the other: the
/// text of two lists together is the text of the one followed by that of the other,
/// wherever the lists are cut.
pub proof fn law_texts_of_blocks_are_joined(
    entry: Json,
    front: Json,
    back: Json,
    first: Seq<Json>,
    second: Seq<Json>,
)
    requires
        with_content(entry, Json::Array(first + second)),
        with_content(front, Json::Array(first)),
        with_content(back, Json::Array(second)),
    ensures
        crate::transcript::message_text(entry) == crate::transcript::message_text(front)
            + crate::transcript::message_text(back),
{
    lemma_content(entry, Json::Array(first + second));
    lemma_content(front, Json::Array(first));
    lemma_content(back, Json::Array(second));
    lemma_block_texts_join(first, second);
}

proof fn lemma_block_texts_join(first: Seq<Json>, second: Seq<Json>)
    ensures
        crate::transcript::block_texts(first + second) == crate::transcript::block_texts(first)
            + crate::transcript::block_texts(second),
    decreases second.len(),
{
    let whole = first + second;
    if second.len() == 0 {
        assert(whole =~= first);
        assert(crate::transcript::block_texts(first) + crate::transcript::block_texts(second)
            =~= crate::transcript::block_texts(first));
    } else {
        assert(whole.drop_last() =~= first + second.drop_last());
        lemma_block_texts_join(first, second.drop_last());
        assert(crate::transcript::block_texts(whole) =~= crate::transcript::block_texts(first)
            + crate::transcript::block_texts(second));
    }
}

/// A block by itself has the text under its `text`, where that is a string, and none
/// otherwise.
pub proof fn law_text_of_a_block(entry: Json, block: Json)
    requires
        with_content(entry, Json::Array(seq![block])),
    ensures
        forall|text: Seq<char>| #[trigger]
            under(block, "text"@, Json::Text(text)) ==> crate::transcript::message_text(entry)
                == text,
        (forall|text: Seq<char>| !#[trigger] under(block, "text"@, Json::Text(text)))
            ==> crate::transcript::message_text(entry) == Seq::<char>::empty(),
{
    lemma_content(entry, Json::Array(seq![block]));
    reveal_with_fuel(crate::transcript::block_texts, 2);
    lemma_member(block, "text"@);
    let said = crate::transcript::message_text(entry);
    assert(seq![block].drop_last().len() == 0);
    assert(said =~= crate::transcript::or_empty(block.member_text("text"@)));
    if let Some(value) = block.member("text"@) {
        if let Json::Text(text) = value {
            assert(under(block, "text"@, Json::Text(text)));
        }
    }
}

/// No blocks have no text; content that is a string is its own text; and content of any
/// other kind has none.
pub proof fn law_text_of_other_content(entry: Json, content: Json)
    requires
        with_content(entry, content),
    ensures
        content == Json::Array(Seq::empty()) ==> crate::transcript::message_text(entry)
            == Seq::<char>::empty(),
        content matches Json::Text(text) ==> crate::transcript::message_text(entry) == text,
        content !is Array && content !is Text ==> crate::transcript::message_text(entry)
            == Seq::<char>::empty(),
{
    lemma_content(entry, content);
}

/// Whether an entry holds a message of the assistant.
pub open spec fn is_reply(entry: Json) -> bool {
    &&& under(entry, "type"@, Json::Text("assistant"@))
    &&& exists|message: Json| #[trigger]
        under(entry, "message"@, message) && under(message, "type"@, Json::Text("message"@))
}

proof fn lemma_reply(entry: Json)
    ensures
        is_reply(entry) <==> crate::transcript::is_message(entry),
        under(entry, "type"@, Json::Text("result"@)) <==> crate::transcript::is_result(entry),
{
    lemma_member(entry, "type"@);
    lemma_member(entry, "message"@);
    if let Some(message) = entry.member("message"@) {
        lemma_member(message, "type"@);
        assert(under(entry, "message"@, message));
        assert(under(message, "type"@, Json::Text("message"@)) <==> message.member_text("type"@)
            == Some("message"@));
    }
    if is_reply(entry) {
        let message = choose|message: Json| #[trigger]
            under(entry, "message"@, message) && under(message, "type"@, Json::Text("message"@));
        assert(entry.member("message"@) == Some(message));
    }
}

/// The text format prints what the assistant says, if that is anything, and what a
/// result says, even if that is nothing; and it prints for no other line.
pub proof fn law_text_prints_what_is_said(line: Seq<char>, entry: Json)
    ensures
        ({
            let printed = crate::transcript::printed(line, Some(entry), OutputFormat::Text);
            let said = crate::transcript::message_text(entry);
            let is_result = under(entry, "type"@, Json::Text("result"@));
            &&& is_result ==> (forall|result: Seq<char>| #[trigger]
                under(entry, "result"@, Json::Text(result)) ==> printed == Some(result))
            &&& is_result && (forall|result: Seq<char>| !#[trigger]
                under(entry, "result"@, Json::Text(result))) ==> printed == Some(Seq::<char>::empty())
            &&& is_reply(entry) && said.len() > 0 ==> printed == Some(said)
            &&& !is_result && !(is_reply(entry) && said.len() > 0) ==> printed is None
        }),
{
    lemma_reply(entry);
    lemma_member(entry, "type"@);
    lemma_member(entry, "result"@);
    reveal_strlit("assistant");
    reveal_strlit("result");
    assert("assistant"@.len() != "result"@.len());
    if let Some(value) = entry.member("result"@) {
        if let Json::Text(result) = value {
            assert(under(entry, "result"@, Json::Text(result)));
        }
    }
}

/// The JSON format prints the line itself, exactly for the lines for which the text
/// format prints something; a line that is not JSON is printed by neither.
pub proof fn law_json_prints_the_same_lines(line: Seq<char>, entry: Json)
    ensures
        crate::transcript::printed(line, Some(entry), OutputFormat::Json) == (
        if crate::transcript::printed(line, Some(entry), OutputFormat::Text) is Some {
            Some(line)
        } else {
            None
        }),
        crate::transcript::printed(line, None, OutputFormat::Json) is None,
        crate::transcript::printed(line, None, OutputFormat::Text) is None,
{
}

/// Streaming hands every line on as it is, whatever is in it.
pub proof fn law_streaming_hands_lines_on(line: &str, output: Option<String>)
    requires
        call_ensures(crate::transcript::handle_line, (line, OutputFormat::StreamJson), output),
    ensures
        output matches Some(text) && text@ == line@,
{
}

/// What is observed in a line and what is printed for it go by the same reading of the
/// line.
pub proof fn law_lines_are_read_once(
    line: &str,
    elapsed: Duration,
    observation: Option<Observation>,
    text: Option<String>,
)
    requires
        call_ensures(crate::transcript::observe_line, (line, elapsed), observation),
        call_ensures(crate::transcript::handle_line, (line, OutputFormat::Text), text),
    ensures
        match crate::json::read(line@) {
            Some(entry) => {
                &&& crate::transcript::sighting(observation) == crate::transcript::seen(
                    entry,
                    elapsed,
                )
                &&& crate::text::text_view(text) == crate::transcript::printed(
                    line@,
                    Some(entry),
                    OutputFormat::Text,
                )
            },
            None => observation is None && text is None,
        },
        observation matches Some(seen) ==> (text matches Some(printed) && printed@ == seen.text@
            && seen.elapsed == elapsed),
{
    if let Some(entry) = crate::json::read(line@) {
        crate::transcript::law_observed_text_is_the_printed_text(line@, entry, elapsed);
    }
}

/// A reply counts if the turn ended with it, and no later than the deadline.
pub proof fn law_a_reply_counts_up_to_the_deadline(
    observation: &Observation,
    deadline: Duration,
    completed: bool,
)
    requires
        call_ensures(crate::transcript::completed_within, (observation, deadline), completed),
    ensures
        completed <==> observation.complete && observation.elapsed.nanos <= deadline.nanos,
{
}

/// A line is taken when its break is read, without the break and with what was pending
/// in front of it, and nothing is pending behind it; until then everything is pending.
pub proof fn law_a_line_ends_with_its_break(pending: Seq<char>, chunk: Seq<char>)
    requires
        !pending.contains('\n'),
        crate::transcript::one_line(chunk),
    ensures
        chunk.len() > 0 && chunk.last() == '\n' ==> {
            &&& crate::transcript::line_taken(pending, chunk) == Some(pending + chunk.drop_last())
            &&& crate::transcript::pending_behind(pending, chunk) == Seq::<char>::empty()
        },
        chunk.len() == 0 || chunk.last() != '\n' ==> {
            &&& crate::transcript::line_taken(pending, chunk) is None
            &&& crate::transcript::pending_behind(pending, chunk) == pending + chunk
        },
{
    let text = pending + chunk;
    let line = pending + chunk.drop_last();
    if chunk.len() > 0 && chunk.last() == '\n' {
        assert(text.drop_last() =~= line);
        assert(line.len() > 0 ==> line.last() != '\n') by {
            if chunk.len() > 1 {
                assert(line.last() == chunk[chunk.len() - 2]);
            } else if pending.len() > 0 {
                assert(line.last() == pending.last());
                assert(pending.contains(pending.last()));
            }
        }
        reveal_with_fuel(crate::transcript::unbroken, 2);
    } else {
        if chunk.len() == 0 {
            assert(text =~= pending);
        } else {
            assert(text.last() == chunk.last());
        }
    }
}

/// A whole line that is printed in some format is handed to standard output, and one
/// that is not printed is passed over.
pub proof fn law_printing_prints_lines(
    format: OutputFormat,
    line: Seq<char>,
    entry: Option<Json>,
    elapsed: Duration,
)
    ensures
        match crate::transcript::printed(line, entry, format) {
            Some(text) => crate::transcript::line_move(Sink::Print(format), line, entry, elapsed)
                == Move::Print(text),
            None => crate::transcript::line_move(Sink::Print(format), line, entry, elapsed)
                == Move::Read,
        },
{
}

/// Whoever observes gets every reply that is seen, complete or not, and nothing is
/// printed for it.
pub proof fn law_observing_delivers_replies(line: Seq<char>, entry: Option<Json>, elapsed: Duration)
    ensures
        ({
            let done = crate::transcript::line_move(Sink::Observe, line, entry, elapsed);
            &&& done !is Print
            &&& entry is None ==> done == Move::Read
            &&& entry matches Some(json) ==> match crate::transcript::seen(json, elapsed) {
                Some(sighting) => done == Move::Deliver(sighting),
                None => done == Move::Read,
            }
        }),
{
}

/// Reading only ends where nothing is left to read on the last pass, and there is a
/// last pass only once the child is gone. Before that, it goes on at once when the
/// child is gone, and otherwise after a sleep.
pub proof fn law_reading_ends_behind_a_last_pass(final_pass: bool, stopped: bool)
    ensures
        crate::transcript::idle_move(final_pass, stopped) == Move::Finish <==> final_pass,
        crate::transcript::idle_move(final_pass, stopped) == Move::Read <==> !final_pass && stopped,
        crate::transcript::idle_move(final_pass, stopped) == Move::ReadAgain <==> !final_pass
            && !stopped,
{
}

/// The search for the transcript ends when it is found, or else when the child is gone.
pub proof fn law_the_search_ends(tailer: &Tailer, found: bool, stopped: bool, step: Step)
    requires
        call_ensures(Tailer::searched, (tailer, found, stopped), step),
    ensures
        step is Read <==> found,
        step is Finish <==> !found && stopped,
        step is SearchAgain <==> !found && !stopped,
{
}

/// Transcripts are looked for in a directory of the program's under the home directory,
/// and nowhere where there is no home directory.
pub proof fn law_transcripts_are_at_home(
    home: Option<OsText>,
    program: &str,
    projects: Option<OsText>,
)
    requires
        call_ensures(crate::transcript::find, (home, program), projects),
    ensures
        projects is Some <==> (home matches Some(path) && path@.len() > 0),
        projects matches Some(path) ==> path@ == crate::text::joined(
            home->0@,
            vstd::utf8::encode_utf8("."@ + program@ + "/projects"@),
        ),
{
}

/// The transcript of a session is called after the session.
pub proof fn law_a_transcript_is_called_after_its_session(
    project: &OsText,
    session_id: &str,
    path: OsText,
)
    requires
        call_ensures(crate::transcript::candidate, (project, session_id), path),
    ensures
        path@ == crate::text::joined(
            project@,
            vstd::utf8::encode_utf8(session_id@ + ".jsonl"@),
        ),
{
}

/// One call takes in one chunk: a whole line is handled by what it reads as and nothing is
/// pending behind it; otherwise the chunk is pending, and reading goes on or ends by whether
/// the child is gone and this was the last pass. The child being gone begins the last pass.
pub proof fn law_what_one_chunk_does(
    tailer: &mut Tailer,
    chunk: &str,
    stopped: bool,
    elapsed: Duration,
    step: Step,
)
    requires
        call_ensures(Tailer::tail, (tailer, chunk, stopped, elapsed), step),
        !old(tailer).pending@.contains('\n'),
        crate::transcript::one_line(chunk@),
    ensures
        final(tailer).sink == old(tailer).sink,
        chunk@.len() > 0 && chunk@.last() == '\n' ==> {
            let line = old(tailer).pending@ + chunk@.drop_last();
            let entry = crate::json::read(line);
            &&& final(tailer).pending@ == Seq::<char>::empty()
            &&& final(tailer).final_pass == old(tailer).final_pass
            &&& match old(tailer).sink {
                Sink::Print(format) => match crate::transcript::printed(line, entry, format) {
                    Some(text) => step matches Step::Print(out) && out@ == text,
                    None => step is Read,
                },
                Sink::Observe => match (match entry {
                    Some(json) => crate::transcript::seen(json, elapsed),
                    None => None,
                }) {
                    Some(sighting) => step matches Step::Deliver(observation) && observation@
                        == sighting,
                    None => step is Read,
                },
            }
        },
        chunk@.len() == 0 || chunk@.last() != '\n' ==> {
            &&& final(tailer).pending@ == old(tailer).pending@ + chunk@
            &&& final(tailer).final_pass == (old(tailer).final_pass || stopped)
            &&& step is Finish <==> old(tailer).final_pass
            &&& step is Read <==> !old(tailer).final_pass && stopped
            &&& step is ReadAgain <==> !old(tailer).final_pass && !stopped
        },
{
    law_a_line_ends_with_its_break(old(tailer).pending@, chunk@);
    if chunk@.len() > 0 && chunk@.last() == '\n' {
        let line = old(tailer).pending@ + chunk@.drop_last();
        assert(step@ == crate::transcript::line_move(
            old(tailer).sink,
            line,
            crate::json::read(line),
            elapsed,
        ));
    }
}

/// Following a transcript starts with nothing pending, before the last pass: printing in the
/// format that is asked for, or observing.
pub proof fn law_how_following_starts(format: OutputFormat, printing: Tailer, observing: Tailer)
    requires
        call_ensures(crate::transcript::run, (format,), printing),
        call_ensures(crate::transcript::run_observed, (), observing),
    ensures
        printing.sink == Sink::Print(format) && observing.sink == Sink::Observe,
        printing.pending@.len() == 0 && observing.pending@.len() == 0,
        !printing.final_pass && !observing.final_pass,
{
}

/// The formats, call by call: the text format prints what is said, the JSON format the line
/// for the same lines.
pub proof fn law_formats_call_by_call(
    line: &str,
    text: Option<String>,
    json: Option<String>,
)
    requires
        call_ensures(crate::transcript::handle_line, (line, OutputFormat::Text), text),
        call_ensures(crate::transcript::handle_line, (line, OutputFormat::Json), json),
    ensures
        json is Some <==> text is Some,
        json matches Some(output) ==> output@ == line@,
{
}

/// What is observed is made of what was seen, unchanged.
pub proof fn law_observations_are_sightings(observation: Observation)
    ensures
        observation@.text == observation.text@,
        observation@.complete == observation.complete,
        observation@.elapsed == observation.elapsed,
        crate::transcript::sighting(Some(observation)) == Some(observation@),
        crate::transcript::sighting(None) is None,
{
}

} // verus!
