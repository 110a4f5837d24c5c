//! The names that a run goes by. The wrapper is called after the program that it
//! wraps, with `-pee` behind, and everything else is called after these two.

use vstd::prelude::*;

verus! {

/// The program that a wrapper of this name wraps.
pub open spec fn wrapped(wrapper: Seq<char>) -> Option<Seq<char>> {
    let length = wrapper.len() - "-pee"@.len();
    if length > 0 && wrapper.skip(length) == "-pee"@ {
        Some(wrapper.take(length))
    } else {
        None
    }
}

/// The program that a wrapper of this name wraps.
pub fn program_of(wrapper: &str) -> (program: Option<&str>)
    ensures
        match program {
            Some(name) => wrapped(wrapper@) == Some(name@),
            None => wrapped(wrapper@) is None,
        },
{
    let whole: usize = wrapper.unicode_len();
    let suffix: usize = "-pee".unicode_len();
    if whole <= suffix {
        return None;
    }
    let length: usize = whole - suffix;
    let tail = wrapper.substring_char(length, whole);
    assert(tail@ =~= wrapper@.skip(length as int));
    if crate::text::same(tail, "-pee") {
        let program = wrapper.substring_char(0, length);
        assert(program@ =~= wrapper@.take(length as int));
        Some(program)
    } else {
        None
    }
}

/// A wrapper's name says which program it wraps.
pub proof fn law_the_wrapper_names_the_program(program: Seq<char>)
    requires
        program.len() > 0,
    ensures
        wrapped(program + "-pee"@) == Some(program),
{
    let wrapper = program + "-pee"@;
    assert(wrapper.skip(program.len() as int) =~= "-pee"@);
    assert(wrapper.take(program.len() as int) =~= program);
}

/// A character in the name of an environment variable.
pub open spec fn variable_char(c: char) -> char {
    if 'a' <= c <= 'z' {
        (c as u32 - 32) as char
    } else if c == '-' {
        '_'
    } else {
        c
    }
}

/// The environment variable of a wrapper for one of its settings: both names in
/// capital letters, with an underscore between.
pub open spec fn variable_name(wrapper: Seq<char>, setting: Seq<char>) -> Seq<char> {
    wrapper.map_values(|c: char| variable_char(c)).push('_') + setting
}

/// The environment variable of a wrapper for one of its settings.
pub fn variable(wrapper: &str, setting: &str) -> (name: String)
    ensures
        name@ == variable_name(wrapper@, setting@),
{
    let mut name = String::new();
    for c in it: wrapper.chars()
        invariant
            it.seq() == wrapper@,
            name@.len() == it.index(),
            forall|i: int| 0 <= i < it.index() ==> #[trigger] name@[i] == variable_char(wrapper@[i]),
    {
        if 'a' <= c && c <= 'z' {
            name.push((c as u8 - 32) as char);
        } else if c == '-' {
            name.push('_');
        } else {
            name.push(c);
        }
    }
    assert(name@ =~= wrapper@.map_values(|c: char| variable_char(c)));
    name.push('_');
    name.append(setting);
    name
}

/// The sentinel file of a session, without its directory.
pub open spec fn sentinel_name(wrapper: Seq<char>, session_id: Seq<char>) -> Seq<char> {
    wrapper + "-"@ + session_id + ".done"@
}

/// The directory in the home directory that holds a program's transcripts.
pub open spec fn transcripts_name(program: Seq<char>) -> Seq<char> {
    "."@ + program + "/projects"@
}

/// A variable is called after the wrapper and the setting: as long as both together and the
/// underscore between them, with the small letters of the wrapper as capital ones, its
/// hyphens as underscores, and everything else as it is.
pub proof fn law_how_variables_are_called(wrapper: &str, setting: &str, name: String)
    requires
        call_ensures(variable, (wrapper, setting), name),
    ensures
        ({
            let n = wrapper@.len() as int;
            &&& name@.len() == n + 1 + setting@.len()
            &&& name@[n] == '_'
            &&& name@.skip(n + 1) == setting@
            &&& forall|i: int|
                0 <= i < n ==> {
                    let c = #[trigger] wrapper@[i];
                    &&& 'a' <= c <= 'z' ==> name@[i] as int == c as int - 32
                    &&& c == '-' ==> name@[i] == '_'
                    &&& !('a' <= c <= 'z') && c != '-' ==> name@[i] == c
                }
        }),
{
    let n = wrapper@.len() as int;
    assert(name@.skip(n + 1) =~= setting@);
    assert forall|i: int| 0 <= i < n implies name@[i] == variable_char(#[trigger] wrapper@[i]) by {
    }
}

/// A wrapper wraps a program if and only if it is called so, with `-pee` behind it.
pub proof fn law_what_a_wrapper_wraps(wrapper: &str, program: Option<&str>)
    requires
        call_ensures(program_of, (wrapper,), program),
    ensures
        program matches Some(name) ==> wrapper@ == name@ + "-pee"@ && name@.len() > 0,
        program is None ==> forall|name: Seq<char>|
            name.len() > 0 ==> wrapper@ != #[trigger] (name + "-pee"@),
{
    match program {
        Some(name) => {
            assert(wrapper@ =~= name@ + "-pee"@);
        },
        None => {
            assert forall|name: Seq<char>| name.len() > 0 implies wrapper@ != #[trigger] (name
                + "-pee"@) by {
                law_the_wrapper_names_the_program(name);
            }
        },
    }
}

/// The names of the files that go by the wrapper and the program.
pub proof fn law_how_files_are_called(wrapper: Seq<char>, session_id: Seq<char>)
    ensures
        sentinel_name(wrapper, session_id) == wrapper + "-"@ + session_id + ".done"@,
        transcripts_name(wrapper) == "."@ + wrapper + "/projects"@,
{
}

} // verus!
