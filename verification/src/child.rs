//! The child process: what is spawned, and whether its screen changes.

use vstd::prelude::*;
use std::collections::hash_map::DefaultHasher;
use std::hash::Hasher;
use crate::text::OsText;

verus! {

/// The height of the terminal that the child runs in.
pub const ROWS: u16 = 24;

/// The width of the terminal that the child runs in.
pub const COLS: u16 = 80;

/// What is spawned: `program`, unless the environment asks for something else.
/// `configured` is what it asks for, and wins where it is not empty.
pub fn child_exec(configured: Option<OsText>, program: &str) -> (exec: OsText)
    ensures
        exec@ == (match configured {
            Some(path) if path@.len() > 0 => path@,
            _ => vstd::utf8::encode_utf8(program@),
        }),
{
    match configured {
        Some(path) => if path.is_empty() {
            OsText::from_text(program)
        } else {
            path
        },
        None => OsText::from_text(program),
    }
}

/// The child's command line, the program first: its session and its settings,
/// and then what is forwarded.
pub open spec fn command_line(
    exec: Seq<u8>,
    forwarded: Seq<Seq<u8>>,
    session_id: Seq<char>,
    settings_json: Seq<char>,
) -> Seq<Seq<u8>> {
    seq![
        exec,
        vstd::utf8::encode_utf8("--session-id"@),
        vstd::utf8::encode_utf8(session_id),
        vstd::utf8::encode_utf8("--settings"@),
        vstd::utf8::encode_utf8(settings_json),
    ] + forwarded
}

/// The child's command line, the program first.
pub fn build_command(
    exec: OsText,
    forwarded: &Vec<OsText>,
    session_id: &str,
    settings_json: &str,
) -> (argv: Vec<OsText>)
    ensures
        crate::text::views(argv@) == command_line(
            exec@,
            crate::text::views(forwarded@),
            session_id@,
            settings_json@,
        ),
{
    let mut argv: Vec<OsText> = Vec::new();
    let ghost first = exec@;
    argv.push(exec);
    argv.push(OsText::from_text("--session-id"));
    argv.push(OsText::from_text(session_id));
    argv.push(OsText::from_text("--settings"));
    argv.push(OsText::from_text(settings_json));
    let ghost own = command_line(first, Seq::empty(), session_id@, settings_json@);
    proof {
        assert(crate::text::views(argv@) =~= own);
    }
    let mut i: usize = 0;
    while i < forwarded.len()
        invariant
            i <= forwarded@.len(),
            own.len() == 5,
            argv@.len() == 5 + i,
            forall|k: int| 0 <= k < 5 ==> (#[trigger] argv@[k])@ == own[k],
            forall|k: int| 0 <= k < i ==> (#[trigger] argv@[5 + k])@ == forwarded@[k]@,
        decreases forwarded@.len() - i,
    {
        let ghost before = argv@;
        argv.push(forwarded[i].clone());
        proof {
            assert forall|k: int| 0 <= k < i + 1 implies (#[trigger] argv@[5 + k])@
                == forwarded@[k]@ by {
                if k < i {
                    assert(argv@[5 + k] == before[5 + k]);
                }
            }
            assert forall|k: int| 0 <= k < 5 implies (#[trigger] argv@[k])@ == own[k] by {
                assert(argv@[k] == before[k]);
            }
        }
        i = i + 1;
    }
    proof {
        let whole = command_line(
            first,
            crate::text::views(forwarded@),
            session_id@,
            settings_json@,
        );
        assert forall|k: int| 0 <= k < whole.len() implies crate::text::views(argv@)[k]
            == whole[k] by {
            if k >= 5 {
                assert(argv@[5 + (k - 5)]@ == forwarded@[k - 5]@);
            } else {
                assert(whole[k] == own[k]);
            }
        }
        assert(crate::text::views(argv@) =~= whole);
    }
    argv
}

/// The child is called with its session and its settings, and behind these with
/// every argument that is not the wrapper's own, verbatim and in their order.
pub proof fn law_the_child_gets_the_rest(
    args: Seq<Seq<u8>>,
    exec: Seq<u8>,
    session_id: Seq<char>,
    settings_json: Seq<char>,
)
    ensures
        crate::args::parsed(args, crate::args::defaults()) matches Ok(request) ==> command_line(
            exec,
            request.forwarded,
            session_id,
            settings_json,
        ) == command_line(exec, Seq::empty(), session_id, settings_json) + crate::args::foreign(
            args,
        ),
{
    crate::args::law_forwarded_are_the_foreign(args, crate::args::defaults());
    if let Ok(request) = crate::args::parsed(args, crate::args::defaults()) {
        assert(request.forwarded =~= crate::args::foreign(args));
        assert(command_line(exec, request.forwarded, session_id, settings_json) =~= command_line(
            exec,
            Seq::empty(),
            session_id,
            settings_json,
        ) + crate::args::foreign(args));
    }
}

/// The whole microseconds since `start`, at most `u64::MAX`: what one reading of
/// the clock makes. What the clock reads is not stated.
pub fn now_micros(start: std::time::Instant) -> (micros: u64)
    ensures
        exists|span: crate::time::Duration| #[trigger]
            crate::time::may_read(start, span) && micros == span.micros(),
{
    let span = crate::time::read_clock(&start);
    span.saturating_micros()
}

/// A terminal that is written to and never shown.
#[verifier::external_body]
pub struct Terminal {
    parser: vt100::Parser,
}

/// What a terminal holds: what was written to it, chunk by chunk.
pub uninterp spec fn fed(terminal: Terminal) -> Seq<Seq<u8>>;

/// The height and the width that a terminal was made with, and the number of
/// rows that it keeps once they are off the screen.
pub uninterp spec fn size(terminal: Terminal) -> (u16, u16, usize);

/// What `vt100::Screen::contents` gives for a terminal of a size that was
/// written to.
pub uninterp spec fn screen_text(
    rows: u16,
    cols: u16,
    scrollback: usize,
    chunks: Seq<Seq<u8>>,
) -> Seq<char>;

/// Calls `vt100::Parser::new`: a terminal that nothing was written to.
#[verifier::external_body]
fn terminal(rows: u16, cols: u16, scrollback: usize) -> (terminal: Terminal)
    requires
        rows >= 2,
        cols >= 2,
    ensures
        fed(terminal) == Seq::<Seq<u8>>::empty(),
        size(terminal) == (rows, cols, scrollback),
{
    Terminal { parser: vt100::Parser::new(rows, cols, scrollback) }
}

/// Calls `vt100::Parser::process`, which writes a chunk to the terminal. There are
/// sizes at which some characters make it panic, so that it is only called at the
/// one size that is used here.
#[verifier::external_body]
fn process(terminal: &mut Terminal, chunk: &[u8])
    requires
        size(*old(terminal)) == (ROWS, COLS, 0usize),
    ensures
        fed(*final(terminal)) == fed(*old(terminal)).push(chunk@),
        size(*final(terminal)) == size(*old(terminal)),
{
    terminal.parser.process(chunk)
}

/// Calls `vt100::Screen::contents`. The text is only named here: it depends on
/// the size of the terminal and on what was written to it, and on nothing else.
#[verifier::external_body]
fn contents(terminal: &Terminal) -> (text: String)
    ensures
        text@ == screen_text(size(*terminal).0, size(*terminal).1, size(*terminal).2, fed(*terminal)),
{
    terminal.parser.screen().contents()
}

/// The hash of a text.
pub open spec fn text_hash(text: Seq<char>) -> u64 {
    <DefaultHasher as vstd::std_specs::hash::DefaultHasherAdditionalSpecFns>::spec_finish(
        seq![vstd::utf8::encode_utf8(text)],
    )
}

/// What is on the child's screen once the chunks were written to it.
pub open spec fn on_screen(chunks: Seq<Seq<u8>>) -> Seq<char> {
    screen_text(ROWS, COLS, 0, chunks)
}

fn hash_screen(terminal: &Terminal) -> (hash: u64)
    requires
        size(*terminal) == (ROWS, COLS, 0usize),
    ensures
        hash == text_hash(on_screen(fed(*terminal))),
{
    let text = contents(terminal);
    let mut hasher = DefaultHasher::new();
    hasher.write(text.as_str().as_bytes());
    assert(hasher@ =~= seq![vstd::utf8::encode_utf8(text@)]);
    hasher.finish()
}

/// The child's screen, and the hash of what was last seen on it.
pub struct Screen {
    terminal: Terminal,
    last_hash: u64,
}

/// What a chunk of the child's output does.
#[derive(Debug, Clone, Copy, PartialEq, Eq, Structural)]
pub enum Drained {
    /// There is no more output.
    Closed,
    /// The screen looks as before.
    Unchanged,
    /// The screen looks different.
    Changed,
}

/// What it means for the screen to go from one text to another: the change is
/// seen by the hash.
pub open spec fn change(before: Seq<char>, after: Seq<char>) -> Drained {
    if text_hash(before) != text_hash(after) {
        Drained::Changed
    } else {
        Drained::Unchanged
    }
}

/// Output that leaves the screen as it was is no change.
pub proof fn law_same_screen_is_no_change(text: Seq<char>)
    ensures
        change(text, text) == Drained::Unchanged,
{
}

impl Screen {
    /// What the child wrote so far, chunk by chunk.
    pub closed spec fn chunks(&self) -> Seq<Seq<u8>> {
        fed(self.terminal)
    }

    /// The hash is that of what is on the screen.
    pub closed spec fn wf(&self) -> bool {
        &&& size(self.terminal) == (ROWS, COLS, 0usize)
        &&& self.last_hash == text_hash(on_screen(self.chunks()))
    }

    /// A screen that nothing was written to.
    pub fn new() -> (screen: Screen)
        ensures
            screen.wf(),
            screen.chunks() == Seq::<Seq<u8>>::empty(),
    {
        let terminal = terminal(ROWS, COLS, 0);
        let last_hash: u64 = hash_screen(&terminal);
        Screen { terminal, last_hash }
    }
}

/// Takes the next chunk of the child's output; an empty one is its end.
pub fn drain(screen: &mut Screen, chunk: &[u8]) -> (drained: Drained)
    requires
        old(screen).wf(),
    ensures
        final(screen).wf(),
        chunk@.len() == 0 ==> drained == Drained::Closed && final(screen).chunks() == old(
            screen,
        ).chunks(),
        chunk@.len() > 0 ==> final(screen).chunks() == old(screen).chunks().push(chunk@)
            && drained == change(on_screen(old(screen).chunks()), on_screen(final(screen).chunks())),
{
    if chunk.len() == 0 {
        return Drained::Closed;
    }
    process(&mut screen.terminal, chunk);
    let new_hash: u64 = hash_screen(&screen.terminal);
    if new_hash != screen.last_hash {
        screen.last_hash = new_hash;
        Drained::Changed
    } else {
        Drained::Unchanged
    }
}

/// What the environment asks for is spawned, unless it asks for nothing; then the program is.
pub proof fn law_what_is_spawned(configured: Option<OsText>, program: &str, exec: OsText)
    requires
        call_ensures(child_exec, (configured, program), exec),
    ensures
        configured matches Some(path) ==> (path@.len() > 0 ==> exec@ == path@),
        configured is None || configured->0@.len() == 0 ==> exec@ == vstd::utf8::encode_utf8(
            program@,
        ),
{
}

/// The child's command line, word by word.
pub proof fn law_the_command_line(
    exec: OsText,
    forwarded: &Vec<OsText>,
    session_id: &str,
    settings_json: &str,
    argv: Vec<OsText>,
)
    requires
        call_ensures(build_command, (exec, forwarded, session_id, settings_json), argv),
    ensures
        argv@.len() == 5 + forwarded@.len(),
        argv@[0]@ == exec@,
        argv@[1]@ == vstd::utf8::encode_utf8("--session-id"@),
        argv@[2]@ == vstd::utf8::encode_utf8(session_id@),
        argv@[3]@ == vstd::utf8::encode_utf8("--settings"@),
        argv@[4]@ == vstd::utf8::encode_utf8(settings_json@),
        forall|i: int|
            0 <= i < forwarded@.len() ==> argv@[5 + i]@ == (#[trigger] forwarded@[i])@,
{
    let words = crate::text::views(argv@);
    assert(words.len() == argv@.len());
    assert(words[0] == argv@[0]@);
    assert(words[1] == argv@[1]@);
    assert(words[2] == argv@[2]@);
    assert(words[3] == argv@[3]@);
    assert(words[4] == argv@[4]@);
    assert forall|i: int| 0 <= i < forwarded@.len() implies argv@[5 + i]@ == (
    #[trigger] forwarded@[i])@ by {
        assert(words[5 + i] == argv@[5 + i]@);
        assert(crate::text::views(forwarded@)[i] == forwarded@[i]@);
    }
}

/// A change on the screen is seen if and only if the hash of its text changes, so that only
/// another text is taken for a change.
pub proof fn law_only_another_screen_is_a_change(before: Seq<char>, after: Seq<char>)
    ensures
        change(before, after) == Drained::Changed <==> text_hash(before) != text_hash(after),
        change(before, after) == Drained::Changed ==> before != after,
        change(before, after) != Drained::Closed,
{
}

/// The screen that is looked at has 24 rows of 80 columns, and keeps nothing above them.
pub proof fn law_the_screen_that_is_looked_at(chunks: Seq<Seq<u8>>)
    ensures
        on_screen(chunks) == screen_text(24, 80, 0, chunks),
{
}

/// What one chunk of output does: no output is the end, and leaves the screen as it is; any
/// other chunk is written behind those before it, and is a change if the hash of what is on
/// the screen is another one.
pub proof fn law_what_one_chunk_of_output_does(
    screen: &mut Screen,
    chunk: &[u8],
    drained: Drained,
)
    requires
        call_ensures(drain, (screen, chunk), drained),
    ensures
        final(screen).wf(),
        drained == Drained::Closed <==> chunk@.len() == 0,
        final(screen).chunks() == (if chunk@.len() == 0 {
            old(screen).chunks()
        } else {
            old(screen).chunks() + seq![chunk@]
        }),
        drained == Drained::Changed <==> chunk@.len() > 0 && text_hash(
            screen_text(24, 80, 0, old(screen).chunks()),
        ) != text_hash(screen_text(24, 80, 0, old(screen).chunks() + seq![chunk@])),
{
    assert(old(screen).chunks().push(chunk@) =~= old(screen).chunks() + seq![chunk@]);
}

/// The hash of a text is that of its UTF-8, taken in at once.
pub proof fn law_hashes_are_of_the_text(text: Seq<char>)
    ensures
        text_hash(text) == <DefaultHasher as
            vstd::std_specs::hash::DefaultHasherAdditionalSpecFns>::spec_finish(
            seq![vstd::utf8::encode_utf8(text)],
        ),
{
}

/// A screen starts with nothing on it.
pub proof fn law_how_a_screen_starts(screen: Screen)
    requires
        call_ensures(Screen::new, (), screen),
    ensures
        screen.wf() && screen.chunks().len() == 0,
{
}

} // verus!
