//! The stop hook: the child is told to touch a sentinel file when its turn ends.

use vstd::prelude::*;
use crate::json::Json;
use crate::text::OsText;

verus! {

/// The sentinel file of a session, in the directory for temporary files. The
/// session is in its name, so that concurrent runs do not collide.
pub fn sentinel_path(temp_dir: &OsText, wrapper: &str, session_id: &str) -> (path: OsText)
    ensures
        path@ == crate::text::joined(
            temp_dir@,
            vstd::utf8::encode_utf8(crate::names::sentinel_name(wrapper@, session_id@)),
        ),
{
    let mut name = crate::text::join3(wrapper, "-", session_id);
    name.append(".done");
    crate::text::join_path(temp_dir, name.as_str())
}

/// What stands for a text between single quotes: itself, but that each single
/// quote closes the quotes, stands there behind a backslash, and opens them
/// again.
pub open spec fn escaped(s: Seq<char>) -> Seq<char>
    decreases s.len(),
{
    if s.len() == 0 {
        Seq::empty()
    } else if s.last() == '\'' {
        escaped(s.drop_last()) + seq!['\'', '\\', '\'', '\'']
    } else {
        escaped(s.drop_last()).push(s.last())
    }
}

/// A text in single quotes, for a POSIX shell.
pub open spec fn single_quoted(s: Seq<char>) -> Seq<char> {
    seq!['\''] + escaped(s) + seq!['\'']
}

/// Puts a text in single quotes, for a POSIX shell.
pub fn shell_single_quote(s: &str) -> (quoted: String)
    ensures
        quoted@ == single_quoted(s@),
{
    let mut quoted = String::new();
    quoted.push('\'');
    let ghost open = quoted@;
    proof {
        assert(s@.take(0) =~= Seq::empty());
        assert(quoted@ =~= seq!['\''] + escaped(s@.take(0)));
    }
    for c in it: s.chars()
        invariant
            it.seq() == s@,
            quoted@ == seq!['\''] + escaped(s@.take(it.index() as int)),
    {
        let ghost upto = s@.take(it.index() as int + 1);
        proof {
            assert(upto.drop_last() =~= s@.take(it.index() as int));
            assert(upto.last() == c);
        }
        if c == '\'' {
            quoted.push('\'');
            quoted.push('\\');
            quoted.push('\'');
            quoted.push('\'');
        } else {
            quoted.push(c);
        }
        assert(quoted@ =~= seq!['\''] + escaped(upto));
    }
    proof {
        assert(s@.take(s@.len() as int) =~= s@);
    }
    quoted.push('\'');
    assert(quoted@ =~= single_quoted(s@));
    quoted
}

/// What a POSIX shell takes a word for that is made of stretches in single
/// quotes and of characters behind a backslash, from outside the quotes on.
/// Nothing for any other word.
pub open spec fn shell_word(s: Seq<char>) -> Option<Seq<char>>
    decreases s.len(),
{
    if s.len() == 0 {
        Some(Seq::empty())
    } else if s[0] == '\'' {
        shell_quotes(s.skip(1))
    } else if s[0] == '\\' && s.len() > 1 {
        match shell_word(s.skip(2)) {
            Some(rest) => Some(seq![s[1]] + rest),
            None => None,
        }
    } else {
        None
    }
}

/// The same from inside the quotes on, where every character up to the closing
/// quote stands for itself.
pub open spec fn shell_quotes(s: Seq<char>) -> Option<Seq<char>>
    decreases s.len(),
{
    if s.len() == 0 {
        None
    } else if s[0] == '\'' {
        shell_word(s.skip(1))
    } else {
        match shell_quotes(s.skip(1)) {
            Some(rest) => Some(seq![s[0]] + rest),
            None => None,
        }
    }
}

/// A shell takes the quoted text for the text that was quoted, whatever is in
/// it.
pub proof fn law_shell_reads_the_quoted_text_back(s: Seq<char>)
    ensures
        shell_word(single_quoted(s)) == Some(s),
{
    let end = seq!['\''];
    assert(single_quoted(s).skip(1) =~= escaped(s) + end);
    reveal_with_fuel(shell_quotes, 2);
    reveal_with_fuel(shell_word, 2);
    assert(end.skip(1).len() == 0);
    assert(shell_quotes(end) == Some(Seq::<char>::empty()));
    lemma_quotes_over_escaped(s, end);
    assert(s + Seq::<char>::empty() =~= s);
}

proof fn lemma_quotes_over_escaped(s: Seq<char>, tail: Seq<char>)
    requires
        shell_quotes(tail) is Some,
    ensures
        shell_quotes(escaped(s) + tail) == Some(s + shell_quotes(tail)->0),
    decreases s.len(),
{
    if s.len() == 0 {
        assert(escaped(s) + tail =~= tail);
        assert(s + shell_quotes(tail)->0 =~= shell_quotes(tail)->0);
    } else {
        let front = s.drop_last();
        let c = s.last();
        let piece = if c == '\'' {
            seq!['\'', '\\', '\'', '\'']
        } else {
            seq![c]
        };
        let next = piece + tail;
        assert(escaped(s) + tail =~= escaped(front) + next);
        assert(shell_quotes(next) == Some(seq![c] + shell_quotes(tail)->0)) by {
            if c == '\'' {
                let a = next.skip(1);
                assert(a =~= seq!['\\', '\'', '\''] + tail);
                let b = a.skip(2);
                assert(b =~= seq!['\''] + tail);
                assert(b.skip(1) =~= tail);
                assert(shell_word(b) == shell_quotes(tail));
                assert(shell_word(a) == Some(seq!['\''] + shell_quotes(tail)->0));
            } else {
                assert(next.skip(1) =~= tail);
            }
        }
        lemma_quotes_over_escaped(front, next);
        assert(front + (seq![c] + shell_quotes(tail)->0) =~= s + shell_quotes(tail)->0);
    }
}

/// The command that the hook runs.
pub open spec fn touch_command(path: Seq<char>) -> Seq<char> {
    "touch "@ + single_quoted(path)
}

/// An object with one member.
pub open spec fn holding(key: Seq<char>, value: Json) -> Json {
    Json::Object(Map::<Seq<char>, Json>::empty().insert(key, value))
}

/// The settings that run a command when a turn ends.
pub open spec fn settings(command: Seq<char>) -> Json {
    let hook = Json::Object(
        Map::<Seq<char>, Json>::empty().insert("type"@, Json::Text("command"@)).insert(
            "command"@,
            Json::Text(command),
        ),
    );
    let matcher = holding("hooks"@, Json::Array(seq![hook]));
    holding("hooks"@, holding("Stop"@, Json::Array(seq![matcher])))
}

/// The settings that make the child touch the sentinel when its turn ends.
pub fn stop_hook_settings(sentinel: &OsText) -> (text: String)
    ensures
        text@ == crate::json::written(
            settings(touch_command(crate::text::lossy_text(sentinel@))),
        ),
        crate::json::read(text@) == Some(
            settings(touch_command(crate::text::lossy_text(sentinel@))),
        ),
{
    let path = sentinel.to_string_lossy();
    let mut command = "touch ".to_owned();
    command.append(shell_single_quote(path.as_str()).as_str());
    let mut hook = crate::json::no_members();
    crate::json::insert(&mut hook, "type", crate::json::text_value("command"));
    crate::json::insert(&mut hook, "command", crate::json::text_value(command.as_str()));
    let hooks = one_item(crate::json::object_value(hook));
    let matcher = one_member("hooks", hooks);
    let matchers = one_item(matcher);
    let stop = one_member("Stop", matchers);
    let whole = one_member("hooks", stop);
    proof {
        reveal_with_fuel(crate::json::plain, 7);
    }
    crate::json::write(&whole)
}

fn one_member(key: &str, value: serde_json::Value) -> (object: serde_json::Value)
    ensures
        crate::json::tree(object) == holding(key@, crate::json::tree(value)),
{
    let mut members = crate::json::no_members();
    crate::json::insert(&mut members, key, value);
    crate::json::object_value(members)
}

fn one_item(item: serde_json::Value) -> (array: serde_json::Value)
    ensures
        crate::json::tree(array) == Json::Array(seq![crate::json::tree(item)]),
{
    let mut items: Vec<serde_json::Value> = Vec::new();
    let ghost tree = crate::json::tree(item);
    items.push(item);
    assert(crate::json::trees(items@) =~= seq![tree]);
    crate::json::array_value(items)
}

/// The hook that the child is told to run is one shell command: `touch`, and a
/// word that the shell takes for the path of the sentinel, whatever is in it.
pub proof fn law_hook_touches_the_sentinel(path: Seq<char>)
    ensures
        ({
            let whole = settings(touch_command(path));
            &&& whole.member("hooks"@) matches Some(hooks)
            &&& hooks.member("Stop"@) matches Some(stop)
            &&& stop.items() matches Some(matchers)
            &&& matchers.len() == 1
            &&& matchers[0].member("hooks"@) matches Some(list)
            &&& list.items() matches Some(commands)
            &&& commands.len() == 1
            &&& commands[0].member_text("type"@) == Some("command"@)
            &&& commands[0].member_text("command"@) matches Some(command)
            &&& crate::text::behind(command, "touch "@) matches Some(word)
            &&& shell_word(word) == Some(path)
        }),
{
    law_shell_reads_the_quoted_text_back(path);
    reveal_strlit("type");
    reveal_strlit("command");
    assert("type"@.len() != "command"@.len());
    let command = touch_command(path);
    assert(command.skip("touch "@.len() as int) =~= single_quoted(path));
}

/// What has to be removed when the run is over, whatever ends it.
#[derive(Debug)]
pub struct SentinelGuard {
    pub path: OsText,
}

impl SentinelGuard {
    pub fn new(path: OsText) -> (guard: SentinelGuard)
        ensures
            guard.path == path,
    {
        SentinelGuard { path }
    }
}

/// How long to wait before the sentinel is looked for again, in milliseconds.
pub const POLL_INTERVAL_MS: u64 = 50;

/// How a wait goes on.
#[derive(Debug, Clone, Copy, PartialEq, Eq, Structural)]
pub enum Wait {
    /// What was waited for is there.
    Ready,
    /// The child is gone; there is nothing left to wait for.
    Cancelled,
    /// Sleep, and look again.
    Again,
}

/// How the wait for a file goes on, once it was looked for. A file that is there
/// counts even where the child is already gone.
pub fn wait_for_file(exists: bool, stopped: bool) -> (wait: Wait)
    ensures
        wait == (if exists {
            Wait::Ready
        } else if stopped {
            Wait::Cancelled
        } else {
            Wait::Again
        }),
{
    if exists {
        Wait::Ready
    } else if stopped {
        Wait::Cancelled
    } else {
        Wait::Again
    }
}

/// Quoting goes character by character: what is quoted together is what is quoted apart,
/// text without a single quote stands for itself, and a single quote is closed, escaped and
/// opened again.
pub proof fn law_quoting_goes_by_characters(front: Seq<char>, back: Seq<char>)
    ensures
        escaped(front + back) == escaped(front) + escaped(back),
        escaped(seq!['\'']) == seq!['\'', '\\', '\'', '\''],
        !front.contains('\'') ==> escaped(front) == front,
        single_quoted(front) == seq!['\''] + escaped(front) + seq!['\''],
{
    lemma_escaped_joins(front, back);
    reveal_with_fuel(escaped, 2);
    assert(seq!['\''].drop_last() =~= Seq::empty());
    assert(escaped(seq!['\'']) =~= seq!['\'', '\\', '\'', '\'']);
    if !front.contains('\'') {
        lemma_nothing_to_escape(front);
    }
}

proof fn lemma_escaped_joins(front: Seq<char>, back: Seq<char>)
    ensures
        escaped(front + back) == escaped(front) + escaped(back),
    decreases back.len(),
{
    let whole = front + back;
    if back.len() == 0 {
        assert(whole =~= front);
        assert(escaped(front) + escaped(back) =~= escaped(front));
    } else {
        assert(whole.drop_last() =~= front + back.drop_last());
        lemma_escaped_joins(front, back.drop_last());
        assert(escaped(whole) =~= escaped(front) + escaped(back));
    }
}

proof fn lemma_nothing_to_escape(text: Seq<char>)
    requires
        !text.contains('\''),
    ensures
        escaped(text) == text,
    decreases text.len(),
{
    if text.len() > 0 {
        let front = text.drop_last();
        assert(text.contains(text.last()));
        assert(!front.contains('\'')) by {
            if front.contains('\'') {
                let i = choose|i: int| 0 <= i < front.len() && front[i] == '\'';
                assert(text[i] == '\'');
            }
        }
        lemma_nothing_to_escape(front);
        assert(escaped(text) =~= text);
    }
}

/// The command is `touch` with the quoted path, and nothing else.
pub proof fn law_the_command_touches(path: Seq<char>)
    ensures
        touch_command(path) == "touch "@ + (seq!['\''] + escaped(path) + seq!['\'']),
{
}

/// The settings hold nothing but the hook.
pub proof fn law_the_settings_hold_one_hook(command: Seq<char>)
    ensures
        ({
            let whole = settings(command);
            &&& whole matches Json::Object(members)
            &&& members.dom() =~= set!["hooks"@]
            &&& members["hooks"@] matches Json::Object(events)
            &&& events.dom() =~= set!["Stop"@]
            &&& events["Stop"@] matches Json::Array(matchers)
            &&& matchers.len() == 1
            &&& matchers[0] matches Json::Object(matcher)
            &&& matcher.dom() =~= set!["hooks"@]
            &&& matcher["hooks"@] matches Json::Array(hooks)
            &&& hooks.len() == 1
            &&& hooks[0] matches Json::Object(hook)
            &&& hook.dom() =~= set!["type"@, "command"@]
            &&& hook["type"@] == Json::Text("command"@)
            &&& hook["command"@] == Json::Text(command)
        }),
{
    reveal_strlit("type");
    reveal_strlit("command");
    assert("type"@.len() != "command"@.len());
}

/// The sentinel of a session, in the directory for temporary files.
pub proof fn law_where_the_sentinel_is(
    temp_dir: &OsText,
    wrapper: &str,
    session_id: &str,
    path: OsText,
)
    requires
        call_ensures(sentinel_path, (temp_dir, wrapper, session_id), path),
    ensures
        path@ == crate::text::joined(
            temp_dir@,
            vstd::utf8::encode_utf8(wrapper@ + "-"@ + session_id@ + ".done"@),
        ),
{
}

/// The wait for the sentinel is over when it is there, even if the child is gone, and given
/// up when it is not there and the child is gone.
pub proof fn law_how_the_wait_for_the_sentinel_ends(exists: bool, stopped: bool, wait: Wait)
    requires
        call_ensures(wait_for_file, (exists, stopped), wait),
    ensures
        wait == Wait::Ready <==> exists,
        wait == Wait::Cancelled <==> !exists && stopped,
        wait == Wait::Again <==> !exists && !stopped,
{
}

} // verus!
