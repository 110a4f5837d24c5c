//! Which processes descend from the child, by a table of the processes that
//! run.

use vstd::prelude::*;

verus! {

/// A running process and its parent.
#[derive(Debug, Clone, Copy, PartialEq, Eq, Structural)]
pub struct Process {
    pub pid: u32,
    pub parent: u32,
}

/// The words of a text: the longest stretches without white space.
pub open spec fn words(text: Seq<char>) -> Seq<Seq<char>>
    decreases text.len(),
{
    if text.len() == 0 {
        Seq::empty()
    } else {
        let before = words(text.drop_last());
        if crate::text::white_space(text.last()) {
            before
        } else if ends_in_word(text.drop_last()) {
            before.drop_last().push(before.last().push(text.last()))
        } else {
            before.push(seq![text.last()])
        }
    }
}

/// Whether the last character of a text belongs to a word.
pub open spec fn ends_in_word(text: Seq<char>) -> bool {
    text.len() > 0 && !crate::text::white_space(text.last())
}

/// The number of a process that a word is.
pub open spec fn process_id(word: Seq<char>) -> Option<u32> {
    match crate::text::decimal(word) {
        Some(n) => if n <= u32::MAX {
            Some(n as u32)
        } else {
            None
        },
        None => None,
    }
}

/// The processes that a list of words names, each by its own number and then
/// its parent's; nothing where a word is no such number or the last one stands
/// alone.
pub open spec fn named(list: Seq<Seq<char>>) -> Option<Seq<Process>>
    decreases list.len(),
{
    if list.len() == 0 {
        Some(Seq::empty())
    } else if list.len() == 1 {
        None
    } else {
        let n = list.len() as int;
        match (named(list.take(n - 2)), process_id(list[n - 2]), process_id(list[n - 1])) {
            (Some(front), Some(pid), Some(parent)) => Some(front.push(Process { pid, parent })),
            _ => None,
        }
    }
}

/// The words of the texts.
pub open spec fn text_views(list: Seq<String>) -> Seq<Seq<char>> {
    list.map_values(|s: String| s@)
}

fn split_words(text: &str) -> (list: Vec<String>)
    ensures
        text_views(list@) == words(text@),
{
    let mut list: Vec<String> = Vec::new();
    let mut word = String::new();
    let mut in_word = false;
    proof {
        assert(text@.take(0).len() == 0);
        assert(text_views(list@) =~= words(text@.take(0)));
    }
    for c in it: text.chars()
        invariant
            it.seq() == text@,
            in_word == ends_in_word(text@.take(it.index() as int)),
            in_word ==> text_views(list@).push(word@) == words(text@.take(it.index() as int)),
            !in_word ==> text_views(list@) == words(text@.take(it.index() as int)) && word@.len()
                == 0,
    {
        let ghost upto = text@.take(it.index() as int + 1);
        let ghost before = text_views(list@);
        let ghost grown = word@;
        proof {
            assert(upto.drop_last() =~= text@.take(it.index() as int));
            assert(upto.last() == c);
        }
        if crate::text::is_blank_char(c) {
            if in_word {
                let ghost held = list@;
                list.push(word);
                assert(text_views(list@) =~= before.push(grown));
                word = String::new();
                in_word = false;
            }
        } else {
            word.push(c);
            proof {
                if in_word {
                    assert(before.push(grown).drop_last() =~= before);
                    assert(before.push(word@) =~= before.push(grown).drop_last().push(
                        before.push(grown).last().push(c),
                    ));
                } else {
                    assert(word@ =~= seq![c]);
                }
            }
            in_word = true;
        }
    }
    proof {
        assert(text@.take(text@.len() as int) =~= text@);
    }
    if in_word {
        let ghost before = text_views(list@);
        let ghost grown = word@;
        list.push(word);
        assert(text_views(list@) =~= before.push(grown));
    }
    list
}

fn parse_process_id(word: &str) -> (pid: Option<u32>)
    ensures
        pid == process_id(word@),
{
    match crate::text::parse_u64(word) {
        Some(n) => if n <= u32::MAX as u64 {
            Some(n as u32)
        } else {
            None
        },
        None => None,
    }
}

/// A table that may be unreadable, as a sequence.
pub open spec fn table_view(table: Option<Vec<Process>>) -> Option<Seq<Process>> {
    match table {
        Some(processes) => Some(processes@),
        None => None,
    }
}

/// Reads a table of processes: the number of each one and that of its parent,
/// with white space between.
pub fn parse_table(text: &str) -> (table: Option<Vec<Process>>)
    ensures
        table_view(table) == named(words(text@)),
{
    let list = split_words(text);
    let ghost all = words(text@);
    let mut table: Vec<Process> = Vec::new();
    let mut i: usize = 0;
    proof {
        assert(all.take(0).len() == 0);
    }
    if list.len() % 2 != 0 {
        proof {
            lemma_odd_is_unreadable(all);
        }
        return None;
    }
    while i < list.len()
        invariant
            i <= list@.len(),
            i % 2 == 0,
            list@.len() % 2 == 0,
            all == text_views(list@),
            all == words(text@),
            named(all.take(i as int)) == Some(table@),
        decreases list@.len() - i,
    {
        let ghost upto = all.take(i + 2);
        proof {
            assert(upto.take(i as int) =~= all.take(i as int));
            assert(upto[i as int] == list@[i as int]@);
            assert(upto[i + 1] == list@[i + 1]@);
        }
        match (parse_process_id(list[i].as_str()), parse_process_id(list[i + 1].as_str())) {
            (Some(pid), Some(parent)) => {
                table.push(Process { pid, parent });
            },
            _ => {
                proof {
                    assert(named(upto) is None);
                    lemma_unreadable_stays_so(all, i + 2);
                }
                return None;
            },
        }
        i = i + 2;
    }
    proof {
        assert(all.take(i as int) =~= all);
    }
    Some(table)
}

proof fn lemma_odd_is_unreadable(list: Seq<Seq<char>>)
    requires
        list.len() % 2 == 1,
    ensures
        named(list) is None,
    decreases list.len(),
{
    if list.len() > 1 {
        lemma_odd_is_unreadable(list.take(list.len() - 2));
    }
}

proof fn lemma_unreadable_stays_so(list: Seq<Seq<char>>, n: int)
    requires
        0 <= n <= list.len(),
        n % 2 == 0,
        list.len() % 2 == 0,
        named(list.take(n)) is None,
    ensures
        named(list) is None,
    decreases list.len(),
{
    if n == list.len() {
        assert(list.take(n) =~= list);
    } else {
        let front = list.take(list.len() - 2);
        assert(front.take(n) =~= list.take(n));
        lemma_unreadable_stays_so(front, n);
    }
}

/// Whether a process is `root`, or a child, a grandchild and so on of it, with
/// `generations` between the two.
pub open spec fn reaches(table: Seq<Process>, root: u32, pid: u32, generations: nat) -> bool
    decreases generations,
{
    if generations == 0 {
        pid == root
    } else {
        exists|i: int|
            0 <= i < table.len() && (#[trigger] table[i]).pid == pid && reaches(
                table,
                root,
                table[i].parent,
                (generations - 1) as nat,
            )
    }
}

/// Whether a process descends from `root`.
pub open spec fn descends(table: Seq<Process>, root: u32, pid: u32) -> bool {
    exists|generations: nat| #[trigger] reaches(table, root, pid, generations)
}

fn holds(list: &Vec<u32>, pid: u32) -> (held: bool)
    ensures
        held == list@.contains(pid),
{
    let mut i: usize = 0;
    while i < list.len()
        invariant
            i <= list@.len(),
            forall|k: int| 0 <= k < i ==> list@[k] != pid,
        decreases list@.len() - i,
    {
        if list[i] == pid {
            assert(list@.contains(pid));
            return true;
        }
        i = i + 1;
    }
    false
}

/// How many entries of the table name a process that is neither `root` nor in
/// `found`.
spec fn missing(table: Seq<Process>, root: u32, found: Seq<u32>) -> nat
    decreases table.len(),
{
    if table.len() == 0 {
        0
    } else {
        missing(table.drop_last(), root, found) + (if table.last().pid != root && !found.contains(
            table.last().pid,
        ) {
            1nat
        } else {
            0nat
        })
    }
}

proof fn lemma_fewer_missing(table: Seq<Process>, root: u32, found: Seq<u32>, pid: u32)
    ensures
        missing(table, root, found.push(pid)) <= missing(table, root, found),
        (exists|i: int| 0 <= i < table.len() && (#[trigger] table[i]).pid == pid) && pid != root
            && !found.contains(pid) ==> missing(table, root, found.push(pid)) < missing(
            table,
            root,
            found,
        ),
    decreases table.len(),
{
    if table.len() > 0 {
        let front = table.drop_last();
        let next = found.push(pid);
        lemma_fewer_missing(front, root, found, pid);
        assert forall|x: u32| found.contains(x) implies next.contains(x) by {
            let k = choose|k: int| 0 <= k < found.len() && found[k] == x;
            assert(next[k] == x);
        }
        assert(next[next.len() - 1] == pid);
        if exists|i: int| 0 <= i < table.len() && (#[trigger] table[i]).pid == pid {
            let i = choose|i: int| 0 <= i < table.len() && (#[trigger] table[i]).pid == pid;
            if i < front.len() {
                assert(front[i].pid == pid);
            }
        }
    }
}

/// Whether a process is `root` or in `found`.
spec fn kin(root: u32, found: Seq<u32>, pid: u32) -> bool {
    pid == root || found.contains(pid)
}

proof fn lemma_closed_holds_all(
    table: Seq<Process>,
    root: u32,
    found: Seq<u32>,
    pid: u32,
    generations: nat,
)
    requires
        forall|i: int|
            0 <= i < table.len() && kin(root, found, (#[trigger] table[i]).parent) ==> kin(
                root,
                found,
                table[i].pid,
            ),
        reaches(table, root, pid, generations),
    ensures
        kin(root, found, pid),
    decreases generations,
{
    if generations > 0 {
        let i = choose|i: int|
            0 <= i < table.len() && (#[trigger] table[i]).pid == pid && reaches(
                table,
                root,
                table[i].parent,
                (generations - 1) as nat,
            );
        lemma_closed_holds_all(table, root, found, table[i].parent, (generations - 1) as nat);
    }
}

proof fn lemma_child_descends(table: Seq<Process>, root: u32, i: int)
    requires
        0 <= i < table.len(),
        descends(table, root, table[i].parent),
    ensures
        descends(table, root, table[i].pid),
{
    let n = choose|n: nat| #[trigger] reaches(table, root, table[i].parent, n);
    assert(((n + 1) - 1) as nat == n);
    assert(reaches(table, root, table[i].pid, n + 1));
}

/// The processes that descend from `root`, without `root` itself, each once.
pub fn descendant_processes(root: u32, table: &Vec<Process>) -> (found: Vec<u32>)
    ensures
        found@.no_duplicates(),
        forall|pid: u32| #[trigger]
            found@.contains(pid) <==> pid != root && descends(table@, root, pid),
{
    let mut found: Vec<u32> = Vec::new();
    let mut grew = true;
    proof {
        assert(reaches(table@, root, root, 0));
    }
    while grew
        invariant
            descends(table@, root, root),
            found@.no_duplicates(),
            forall|k: int|
                0 <= k < found@.len() ==> (#[trigger] found@[k]) != root && descends(
                    table@,
                    root,
                    found@[k],
                ),
            !grew ==> forall|i: int|
                0 <= i < table@.len() && kin(root, found@, (#[trigger] table@[i]).parent) ==> kin(
                    root,
                    found@,
                    table@[i].pid,
                ),
        decreases missing(table@, root, found@), grew as int,
    {
        let ghost start = missing(table@, root, found@);
        grew = false;
        let mut i: usize = 0;
        while i < table.len()
            invariant
                i <= table@.len(),
                descends(table@, root, root),
                found@.no_duplicates(),
                forall|k: int|
                    0 <= k < found@.len() ==> (#[trigger] found@[k]) != root && descends(
                        table@,
                        root,
                        found@[k],
                    ),
                missing(table@, root, found@) <= start,
                grew ==> missing(table@, root, found@) < start,
                !grew ==> forall|k: int|
                    0 <= k < i && kin(root, found@, (#[trigger] table@[k]).parent) ==> kin(
                        root,
                        found@,
                        table@[k].pid,
                    ),
            decreases table@.len() - i,
        {
            let process = table[i];
            if (process.parent == root || holds(&found, process.parent)) && process.pid != root
                && !holds(&found, process.pid) {
                proof {
                    if found@.contains(process.parent) {
                        let k = choose|k: int|
                            0 <= k < found@.len() && found@[k] == process.parent;
                        assert(descends(table@, root, found@[k]));
                    }
                    lemma_child_descends(table@, root, i as int);
                    lemma_fewer_missing(table@, root, found@, process.pid);
                    assert(table@[i as int].pid == process.pid);
                }
                found.push(process.pid);
                grew = true;
            }
            i = i + 1;
        }
    }
    proof {
        assert forall|pid: u32| pid != root && descends(table@, root, pid) implies #[trigger]
        found@.contains(pid) by {
            let n = choose|n: nat| #[trigger] reaches(table@, root, pid, n);
            lemma_closed_holds_all(table@, root, found@, pid, n);
        }
    }
    found
}

/// Adds to `known` what is in `found` and not yet there.
pub open spec fn joined_with(known: Seq<u32>, found: Seq<u32>) -> Seq<u32>
    decreases found.len(),
{
    if found.len() == 0 {
        known
    } else {
        let front = joined_with(known, found.drop_last());
        if front.contains(found.last()) {
            front
        } else {
            front.push(found.last())
        }
    }
}

/// Adds to `known` what is in `found` and not yet there.
pub fn extend(known: &mut Vec<u32>, found: &Vec<u32>)
    ensures
        final(known)@ == joined_with(old(known)@, found@),
{
    let mut i: usize = 0;
    proof {
        assert(found@.take(0).len() == 0);
    }
    while i < found.len()
        invariant
            i <= found@.len(),
            known@ == joined_with(old(known)@, found@.take(i as int)),
        decreases found@.len() - i,
    {
        let ghost upto = found@.take(i + 1);
        proof {
            assert(upto.drop_last() =~= found@.take(i as int));
            assert(upto.last() == found@[i as int]);
        }
        if !holds(known, found[i]) {
            known.push(found[i]);
        }
        i = i + 1;
    }
    proof {
        assert(found@.take(i as int) =~= found@);
    }
}

/// A process that is known stays known, and what was found becomes so.
pub proof fn law_known_processes_are_kept(known: Seq<u32>, found: Seq<u32>)
    ensures
        forall|pid: u32| #[trigger]
            joined_with(known, found).contains(pid) <==> known.contains(pid) || found.contains(pid),
        known.no_duplicates() ==> joined_with(known, found).no_duplicates(),
    decreases found.len(),
{
    let all = joined_with(known, found);
    if found.len() > 0 {
        let rest = found.drop_last();
        let front = joined_with(known, rest);
        law_known_processes_are_kept(known, rest);
        assert forall|pid: u32| #[trigger] all.contains(pid) <==> known.contains(pid)
            || found.contains(pid) by {
            assert(front.contains(pid) <==> known.contains(pid) || rest.contains(pid));
            assert(found.contains(pid) <==> rest.contains(pid) || pid == found.last()) by {
                if found.contains(pid) {
                    let k = choose|k: int| 0 <= k < found.len() && found[k] == pid;
                    if k < rest.len() {
                        assert(rest[k] == pid);
                    }
                }
                if rest.contains(pid) {
                    let k = choose|k: int| 0 <= k < rest.len() && rest[k] == pid;
                    assert(found[k] == pid);
                }
                assert(found[found.len() - 1] == found.last());
            }
            if !front.contains(found.last()) {
                assert(all[all.len() - 1] == found.last());
                if front.contains(pid) {
                    let k = choose|k: int| 0 <= k < front.len() && front[k] == pid;
                    assert(all[k] == pid);
                }
                if all.contains(pid) {
                    let k = choose|k: int| 0 <= k < all.len() && all[k] == pid;
                    if k < front.len() {
                        assert(front[k] == pid);
                    }
                }
            }
        }
    }
}

/// Words are cut at white space: the words of two texts with white space between are those
/// of the one and then those of the other, and a text without any is one word.
pub proof fn law_words_are_cut_at_white_space(front: Seq<char>, space: char, back: Seq<char>)
    requires
        crate::text::white_space(space),
    ensures
        words(front.push(space) + back) == words(front) + words(back),
        front.len() > 0 && (forall|i: int|
            0 <= i < front.len() ==> !crate::text::white_space(#[trigger] front[i])) ==> words(
            front,
        ) == seq![front],
        words(Seq::empty()) == Seq::<Seq<char>>::empty(),
{
    lemma_words_join(front, space, back);
    if front.len() > 0 && (forall|i: int|
        0 <= i < front.len() ==> !crate::text::white_space(#[trigger] front[i])) {
        lemma_one_word(front);
    }
}

proof fn lemma_words_join(front: Seq<char>, space: char, back: Seq<char>)
    requires
        crate::text::white_space(space),
    ensures
        words(front.push(space) + back) == words(front) + words(back),
    decreases back.len(),
{
    let cut = front.push(space);
    let whole = cut + back;
    if back.len() == 0 {
        assert(whole =~= cut);
        assert(cut.drop_last() =~= front);
        assert(words(front) + words(back) =~= words(front));
    } else {
        let less = back.drop_last();
        lemma_words_join(front, space, less);
        assert(whole.drop_last() =~= cut + less);
        let before = words(front) + words(less);
        if !crate::text::white_space(back.last()) {
            if less.len() == 0 {
                assert((cut + less).last() == space);
                assert(!ends_in_word(cut + less));
                assert(words(whole) =~= words(front) + words(back));
            } else {
                assert((cut + less).last() == less.last());
                if ends_in_word(less) {
                    lemma_ends_in_word_has_words(less);
                    assert(before.last() == words(less).last());
                    assert(before.drop_last() =~= words(front) + words(less).drop_last());
                }
                assert(words(whole) =~= words(front) + words(back));
            }
        }
    }
}

proof fn lemma_ends_in_word_has_words(text: Seq<char>)
    requires
        ends_in_word(text),
    ensures
        words(text).len() > 0,
    decreases text.len(),
{
    if ends_in_word(text.drop_last()) {
        lemma_ends_in_word_has_words(text.drop_last());
    }
}

proof fn lemma_one_word(text: Seq<char>)
    requires
        text.len() > 0,
        forall|i: int| 0 <= i < text.len() ==> !crate::text::white_space(#[trigger] text[i]),
    ensures
        words(text) == seq![text],
    decreases text.len(),
{
    let front = text.drop_last();
    assert(!crate::text::white_space(text[text.len() - 1]));
    if front.len() > 0 {
        assert forall|i: int| 0 <= i < front.len() implies !crate::text::white_space(
            #[trigger] front[i],
        ) by {
            assert(front[i] == text[i]);
        }
        lemma_one_word(front);
        assert(!crate::text::white_space(text[front.len() - 1]));
        assert(front.push(text.last()) =~= text);
        assert(words(text) =~= seq![text]);
    } else {
        assert(words(front).len() == 0);
        assert(text =~= seq![text.last()]);
        assert(words(text) =~= seq![text]);
    }
}

/// A table is read two words at a time, each two a process and its parent; a word that is no
/// number makes it unreadable, and so does one left alone.
pub proof fn law_tables_are_read_in_twos(list: Seq<Seq<char>>, one: Seq<char>, other: Seq<char>)
    ensures
        named(Seq::empty()) == Some(Seq::<Process>::empty()),
        list.len() % 2 == 1 ==> named(list) is None,
        named(list.push(one).push(other)) == (match (
            named(list),
            crate::text::decimal(one),
            crate::text::decimal(other),
        ) {
            (Some(front), Some(pid), Some(parent)) => if pid <= u32::MAX && parent <= u32::MAX {
                Some(front.push(Process { pid: pid as u32, parent: parent as u32 }))
            } else {
                None
            },
            _ => None,
        }),
{
    if list.len() % 2 == 1 {
        lemma_odd_is_unreadable(list);
    }
    let whole = list.push(one).push(other);
    assert(whole.take(whole.len() - 2) =~= list);
}

/// Whether a set of processes holds `root`, and with every process all its children.
pub open spec fn is_family(table: Seq<Process>, root: u32, family: Set<u32>) -> bool {
    &&& family.contains(root)
    &&& forall|i: int|
        0 <= i < table.len() && family.contains((#[trigger] table[i]).parent) ==> family.contains(
            table[i].pid,
        )
}

/// What is found is the smallest family of the root, without the root itself, each process
/// once: with the root it is a family, and every other family holds it.
pub proof fn law_what_is_found_is_the_family(
    root: u32,
    table: &Vec<Process>,
    found: Vec<u32>,
    family: Set<u32>,
)
    requires
        call_ensures(descendant_processes, (root, table), found),
    ensures
        found@.no_duplicates(),
        !found@.contains(root),
        is_family(table@, root, found@.to_set().insert(root)),
        is_family(table@, root, family) ==> forall|pid: u32| #[trigger]
            found@.contains(pid) ==> family.contains(pid),
{
    let own = found@.to_set().insert(root);
    assert forall|i: int|
        0 <= i < table@.len() && own.contains((#[trigger] table@[i]).parent) implies own.contains(
        table@[i].pid,
    ) by {
        if table@[i].parent == root {
            assert(reaches(table@, root, root, 0));
        } else {
            assert(found@.contains(table@[i].parent));
        }
        lemma_child_descends(table@, root, i);
        if table@[i].pid != root {
            assert(found@.contains(table@[i].pid));
        }
    }
    if is_family(table@, root, family) {
        assert forall|pid: u32| #[trigger] found@.contains(pid) implies family.contains(pid) by {
            let n = choose|n: nat| #[trigger] reaches(table@, root, pid, n);
            lemma_families_hold_descendants(table@, root, family, pid, n);
        }
    }
}

proof fn lemma_families_hold_descendants(
    table: Seq<Process>,
    root: u32,
    family: Set<u32>,
    pid: u32,
    generations: nat,
)
    requires
        is_family(table, root, family),
        reaches(table, root, pid, generations),
    ensures
        family.contains(pid),
    decreases generations,
{
    if generations > 0 {
        let i = choose|i: int|
            0 <= i < table.len() && (#[trigger] table[i]).pid == pid && reaches(
                table,
                root,
                table[i].parent,
                (generations - 1) as nat,
            );
        lemma_families_hold_descendants(
            table,
            root,
            family,
            table[i].parent,
            (generations - 1) as nat,
        );
    }
}

/// Who is known keeps its place, and who is found comes behind.
pub proof fn law_who_is_known_keeps_its_place(known: Seq<u32>, found: Seq<u32>)
    ensures
        known.is_prefix_of(joined_with(known, found)),
    decreases found.len(),
{
    let all = joined_with(known, found);
    if found.len() > 0 {
        law_who_is_known_keeps_its_place(known, found.drop_last());
        let front = joined_with(known, found.drop_last());
        assert(known =~= front.subrange(0, known.len() as int));
        assert forall|i: int| 0 <= i < known.len() implies known[i] == all[i] by {
            assert(front.subrange(0, known.len() as int)[i] == front[i]);
        }
    }
    assert(known =~= all.subrange(0, known.len() as int));
}

/// A table is read word by word, and who is found joins who is known.
pub proof fn law_tables_and_lists(
    text: &str,
    table: Option<Vec<Process>>,
    known: &mut Vec<u32>,
    found: &Vec<u32>,
    pid: u32,
)
    requires
        call_ensures(parse_table, (text,), table),
        call_ensures(extend, (known, found), ()),
    ensures
        table_view(table) == named(words(text@)),
        final(known)@.contains(pid) <==> old(known)@.contains(pid) || found@.contains(pid),
        old(known)@.is_prefix_of(final(known)@),
{
    law_known_processes_are_kept(old(known)@, found@);
    law_who_is_known_keeps_its_place(old(known)@, found@);
    assert(joined_with(old(known)@, found@).contains(pid) <==> old(known)@.contains(pid)
        || found@.contains(pid));
}

} // verus!
