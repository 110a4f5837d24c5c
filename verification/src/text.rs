//! Text as the operating system hands it over, and the few questions that the
//! rest of the library asks of text.

use vstd::prelude::*;

verus! {

/// The raw bytes of an argument, a path or an environment variable. They need
/// not be UTF-8.
#[derive(Debug, PartialEq, Eq)]
pub struct OsText {
    pub bytes: Vec<u8>,
}

impl View for OsText {
    type V = Seq<u8>;

    open spec fn view(&self) -> Seq<u8> {
        self.bytes@
    }
}

impl Clone for OsText {
    fn clone(&self) -> (copy: Self)
        ensures
            copy@ == self@,
    {
        let bytes = self.bytes.clone();
        OsText { bytes }
    }
}

impl OsText {
    /// The UTF-8 bytes of `text`.
    pub fn from_text(text: &str) -> (os: OsText)
        ensures
            os@ == vstd::utf8::encode_utf8(text@),
    {
        OsText { bytes: text.as_bytes_vec() }
    }

    /// The text, where the bytes are UTF-8.
    pub fn to_str(&self) -> (text: Option<&str>)
        ensures
            match text {
                Some(s) => utf8_text(self@) == Some(s@),
                None => utf8_text(self@) is None,
            },
    {
        let text = str_from_utf8(self.bytes.as_slice());
        proof {
            if let Some(s) = text {
                vstd::utf8::encode_utf8_decode_utf8(s@);
            }
        }
        text
    }

    /// The text, with a replacement character for what is not UTF-8.
    pub fn to_string_lossy(&self) -> (text: String)
        ensures
            text@ == lossy_text(self@),
            utf8_text(self@) is Some ==> text@ == utf8_text(self@)->0,
    {
        string_from_utf8_lossy(self.bytes.as_slice())
    }

    /// Whether there are no bytes at all.
    pub fn is_empty(&self) -> (empty: bool)
        ensures
            empty == (self@.len() == 0),
    {
        self.bytes.len() == 0
    }
}

/// What the bytes read as, if they are UTF-8.
pub open spec fn utf8_text(bytes: Seq<u8>) -> Option<Seq<char>> {
    if vstd::utf8::valid_utf8(bytes) {
        Some(vstd::utf8::decode_utf8(bytes))
    } else {
        None
    }
}

/// Text that was written as UTF-8 is read back, and nothing else is read as that text.
pub proof fn law_utf8_is_read_back(text: Seq<char>, bytes: Seq<u8>)
    ensures
        utf8_text(vstd::utf8::encode_utf8(text)) == Some(text),
        utf8_text(bytes) == Some(text) ==> bytes == vstd::utf8::encode_utf8(text),
{
    vstd::utf8::encode_utf8_valid_utf8(text);
    vstd::utf8::encode_utf8_decode_utf8(text);
    if vstd::utf8::valid_utf8(bytes) {
        vstd::utf8::decode_utf8_encode_utf8(bytes);
    }
}

/// The texts of a list of raw values.
pub open spec fn views(values: Seq<OsText>) -> Seq<Seq<u8>> {
    values.map_values(|v: OsText| v@)
}

/// A text that may be missing, as a sequence.
pub open spec fn text_view(text: Option<String>) -> Option<Seq<char>> {
    match text {
        Some(s) => Some(s@),
        None => None,
    }
}

/// A raw value that may be missing, as a sequence.
pub open spec fn os_view(text: Option<OsText>) -> Option<Seq<u8>> {
    match text {
        Some(s) => Some(s@),
        None => None,
    }
}

/// The empty literal has nothing in it.
pub proof fn lemma_empty_literal()
    ensures
        ""@ == Seq::<char>::empty(),
{
    reveal_strlit("");
    assert(""@ =~= Seq::<char>::empty());
}

/// Calls `std::str::from_utf8`: the text that the bytes encode, or nothing
/// when they are not UTF-8.
#[verifier::external_body]
fn str_from_utf8(bytes: &[u8]) -> (text: Option<&str>)
    ensures
        text is Some <==> vstd::utf8::valid_utf8(bytes@),
        text matches Some(s) ==> vstd::utf8::encode_utf8(s@) == bytes@,
{
    std::str::from_utf8(bytes).ok()
}

/// What `String::from_utf8_lossy` makes of the bytes.
pub uninterp spec fn lossy_text(bytes: Seq<u8>) -> Seq<char>;

/// Calls `String::from_utf8_lossy`, whose result on bytes that are not UTF-8 is
/// only named here. Bytes that are UTF-8 come back as the text that they encode.
#[verifier::external_body]
fn string_from_utf8_lossy(bytes: &[u8]) -> (text: String)
    ensures
        text@ == lossy_text(bytes@),
        vstd::utf8::valid_utf8(bytes@) ==> text@ == vstd::utf8::decode_utf8(bytes@),
{
    String::from_utf8_lossy(bytes).into_owned()
}

/// `String::push` appends one character.
pub assume_specification[ String::push ](s: &mut String, c: char)
    ensures
        final(s)@ == old(s)@.push(c),
;

/// Whether `a` and `b` are the same text.
pub fn same(a: &str, b: &str) -> (equal: bool)
    ensures
        equal == (a@ == b@),
{
    let left: &[u8] = a.as_bytes();
    let right: &[u8] = b.as_bytes();
    proof {
        vstd::utf8::encode_utf8_decode_utf8(a@);
        vstd::utf8::encode_utf8_decode_utf8(b@);
    }
    if left.len() != right.len() {
        return false;
    }
    let mut i: usize = 0;
    while i < left.len()
        invariant
            i <= left@.len(),
            left@.len() == right@.len(),
            left@ == vstd::utf8::encode_utf8(a@),
            right@ == vstd::utf8::encode_utf8(b@),
            forall|k: int| 0 <= k < i ==> left@[k] == right@[k],
        decreases left@.len() - i,
    {
        if left[i] != right[i] {
            return false;
        }
        i = i + 1;
    }
    assert(left@ =~= right@);
    true
}

/// Whether `text` is there and is `expected`.
pub fn is_text(text: Option<&str>, expected: &str) -> (equal: bool)
    ensures
        equal == (text matches Some(s) && s@ == expected@),
{
    match text {
        Some(s) => same(s, expected),
        None => false,
    }
}

/// What is left of `s` behind `prefix`, if it begins so.
pub open spec fn behind(s: Seq<char>, prefix: Seq<char>) -> Option<Seq<char>> {
    if prefix.is_prefix_of(s) {
        Some(s.skip(prefix.len() as int))
    } else {
        None
    }
}

/// What is behind a prefix is what was put there, and what has something behind a prefix
/// is made of the two.
pub proof fn law_what_is_behind_a_prefix(prefix: Seq<char>, rest: Seq<char>)
    ensures
        behind(prefix + rest, prefix) == Some(rest),
        forall|whole: Seq<char>| #[trigger]
            behind(whole, prefix) == Some(rest) ==> whole == prefix + rest,
{
    let whole = prefix + rest;
    assert(prefix =~= whole.subrange(0, prefix.len() as int));
    assert(whole.skip(prefix.len() as int) =~= rest);
    assert forall|whole: Seq<char>| #[trigger] behind(whole, prefix) == Some(rest) implies whole
        == prefix + rest by {
        assert(whole =~= prefix + rest);
    }
}

/// What is left of `s` behind `prefix`, if it begins so.
pub fn strip_prefix<'a>(s: &'a str, prefix: &str) -> (rest: Option<&'a str>)
    ensures
        match rest {
            Some(r) => behind(s@, prefix@) == Some(r@),
            None => behind(s@, prefix@) is None,
        },
{
    let length: usize = s.unicode_len();
    let prefix_length: usize = prefix.unicode_len();
    if length < prefix_length {
        return None;
    }
    let head = s.substring_char(0, prefix_length);
    if same(head, prefix) {
        assert(prefix@.is_prefix_of(s@));
        Some(s.substring_char(prefix_length, length))
    } else {
        proof {
            if prefix@.is_prefix_of(s@) {
                assert(head@ =~= prefix@);
            }
        }
        None
    }
}

/// The Unicode property `White_Space`.
pub open spec fn white_space(c: char) -> bool {
    ||| '\u{9}' <= c <= '\u{d}'
    ||| c == ' '
    ||| c == '\u{85}'
    ||| c == '\u{a0}'
    ||| c == '\u{1680}'
    ||| '\u{2000}' <= c <= '\u{200a}'
    ||| c == '\u{2028}'
    ||| c == '\u{2029}'
    ||| c == '\u{202f}'
    ||| c == '\u{205f}'
    ||| c == '\u{3000}'
}

/// Whether nothing but white space stands in `text`.
pub open spec fn blank(text: Seq<char>) -> bool {
    forall|i: int| 0 <= i < text.len() ==> white_space(#[trigger] text[i])
}

pub(crate) fn is_blank_char(c: char) -> (white: bool)
    ensures
        white == white_space(c),
{
    ('\u{9}' <= c && c <= '\u{d}') || c == ' ' || c == '\u{85}' || c == '\u{a0}' || c == '\u{1680}'
        || ('\u{2000}' <= c && c <= '\u{200a}') || c == '\u{2028}' || c == '\u{2029}' || c
        == '\u{202f}' || c == '\u{205f}' || c == '\u{3000}'
}

/// Whether nothing but white space stands in `text`.
pub fn is_blank(text: &str) -> (only_white: bool)
    ensures
        only_white == blank(text@),
{
    for c in it: text.chars()
        invariant
            it.seq() == text@,
            forall|i: int| 0 <= i < it.index() ==> white_space(#[trigger] text@[i]),
    {
        if !is_blank_char(c) {
            assert(text@[it.index() as int] == c);
            return false;
        }
    }
    true
}

/// The number that a run of decimal digits writes.
pub open spec fn digits_value(digits: Seq<char>) -> nat
    decreases digits.len(),
{
    if digits.len() == 0 {
        0
    } else {
        digits_value(digits.drop_last()) * 10 + (digits.last() as nat - '0' as nat) as nat
    }
}

/// Whether nothing but decimal digits stands in `text`.
pub open spec fn all_digits(text: Seq<char>) -> bool {
    forall|i: int| 0 <= i < text.len() ==> '0' <= #[trigger] text[i] <= '9'
}

/// The number that `text` writes: decimal digits, at least one, behind an
/// optional `+`, with a value that 64 bits hold.
pub open spec fn decimal(text: Seq<char>) -> Option<u64> {
    let digits = if text.len() > 0 && text[0] == '+' {
        text.skip(1)
    } else {
        text
    };
    if digits.len() > 0 && all_digits(digits) && digits_value(digits) <= u64::MAX {
        Some(digits_value(digits) as u64)
    } else {
        None
    }
}

/// Calls `str::parse` for `u64`: an optional `+` and then decimal digits alone,
/// at least one, whose value fits.
#[verifier::external_body]
pub(crate) fn parse_u64(text: &str) -> (number: Option<u64>)
    ensures
        number == decimal(text@),
{
    text.parse::<u64>().ok()
}

/// What `prefix`, `middle` and `suffix` make together.
pub fn join3(prefix: &str, middle: &str, suffix: &str) -> (joined: String)
    ensures
        joined@ == prefix@ + middle@ + suffix@,
{
    let mut joined = prefix.to_owned();
    joined.append(middle);
    joined.append(suffix);
    joined
}

/// The path of `leaf` in the directory `base`. A `leaf` that starts at the root
/// stands for itself.
pub open spec fn joined(base: Seq<u8>, leaf: Seq<u8>) -> Seq<u8> {
    if leaf.len() > 0 && leaf[0] == 0x2f {
        leaf
    } else if base.len() == 0 || base.last() == 0x2f {
        base + leaf
    } else {
        base.push(0x2f) + leaf
    }
}

/// The path of `leaf` in the directory `base`. A `leaf` that starts at the root
/// stands for itself.
pub fn join_path(base: &OsText, leaf: &str) -> (path: OsText)
    ensures
        path@ == joined(base@, vstd::utf8::encode_utf8(leaf@)),
{
    let mut tail: Vec<u8> = leaf.as_bytes_vec();
    if tail.len() > 0 && tail[0] == 0x2f {
        return OsText { bytes: tail };
    }
    let mut path = base.clone();
    let length: usize = path.bytes.len();
    if length > 0 && path.bytes[length - 1] != 0x2f {
        path.bytes.push(0x2f);
    }
    path.bytes.append(&mut tail);
    path
}

/// A decimal number is read digit by digit: one more digit makes ten times the number and
/// the digit, as long as 64 bits hold it. A single digit is its value.
pub proof fn law_numbers_are_read_digit_by_digit(text: Seq<char>, digit: char)
    requires
        text.len() > 0,
        all_digits(text),
        '0' <= digit <= '9',
    ensures
        decimal(seq![digit]) == Some((digit as int - '0' as int) as u64),
        decimal(text) matches Some(n) ==> decimal(text.push(digit)) == (if n * 10 + (digit as int
            - '0' as int) <= u64::MAX {
            Some((n * 10 + (digit as int - '0' as int)) as u64)
        } else {
            None
        }),
        decimal(text) is None ==> decimal(text.push(digit)) is None,
        decimal(seq!['+'] + text) == decimal(text),
{
    let more = text.push(digit);
    assert(more.drop_last() =~= text);
    assert(all_digits(more)) by {
        assert forall|i: int| 0 <= i < more.len() implies '0' <= #[trigger] more[i] <= '9' by {
            if i < text.len() {
                assert(more[i] == text[i]);
            }
        }
    }
    assert(text[0] != '+' && more[0] == text[0]);
    assert(digits_value(more) == digits_value(text) * 10 + (digit as nat - '0' as nat) as nat);
    let single = seq![digit];
    reveal_with_fuel(digits_value, 2);
    assert(single.drop_last().len() == 0);
    assert(all_digits(single));
    let signed = seq!['+'] + text;
    assert(signed.skip(1) =~= text);
}

/// Nothing but digits behind an optional sign is a number, and at least one digit.
pub proof fn law_what_is_no_number(text: Seq<char>, i: int)
    ensures
        text.len() == 0 ==> decimal(text) is None,
        text == seq!['+'] ==> decimal(text) is None,
        0 <= i < text.len() && !('0' <= text[i] <= '9') && !(i == 0 && text[i] == '+') ==> decimal(
            text,
        ) is None,
{
    if 0 <= i < text.len() && !('0' <= text[i] <= '9') && !(i == 0 && text[i] == '+') {
        if text[0] == '+' {
            let digits = text.skip(1);
            assert(digits[i - 1] == text[i]);
            assert(!all_digits(digits));
        } else {
            assert(!all_digits(text));
        }
    }
    if text == seq!['+'] {
        assert(text.skip(1).len() == 0);
    }
}

/// A path in a directory is the directory, one slash, and the name; a directory that ends
/// with a slash gets no other; and a name that starts at the root stands for itself.
pub proof fn law_paths_are_joined(base: Seq<u8>, leaf: Seq<u8>)
    ensures
        leaf.len() > 0 && leaf[0] == 0x2f ==> joined(base, leaf) == leaf,
        leaf.len() == 0 || leaf[0] != 0x2f ==> {
            &&& base.len() == 0 ==> joined(base, leaf) == leaf
            &&& base.len() > 0 && base.last() == 0x2f ==> joined(base, leaf) == base + leaf
            &&& base.len() > 0 && base.last() != 0x2f ==> joined(base, leaf) == base + seq![0x2fu8]
                + leaf
        },
{
    assert(base.len() == 0 ==> base + leaf =~= leaf);
    assert(base.push(0x2f) =~= base + seq![0x2fu8]);
}

/// White space alone is blank, whatever it is joined with that is blank too; and one other
/// character is enough not to be.
pub proof fn law_blank_is_white_space_alone(front: Seq<char>, back: Seq<char>, c: char)
    ensures
        blank(Seq::empty()),
        blank(front + back) <==> blank(front) && blank(back),
        blank(seq![c]) <==> white_space(c),
{
    let whole = front + back;
    if blank(whole) {
        assert forall|i: int| 0 <= i < front.len() implies white_space(#[trigger] front[i]) by {
            assert(whole[i] == front[i]);
        }
        assert forall|i: int| 0 <= i < back.len() implies white_space(#[trigger] back[i]) by {
            assert(whole[front.len() + i] == back[i]);
        }
    }
    if blank(seq![c]) {
        assert(white_space(seq![c][0]));
    }
}

/// The characters that are white space.
pub proof fn law_what_is_white_space(c: char)
    ensures
        white_space(c) <==> {
            let n = c as int;
            9 <= n <= 13 || n == 32 || n == 0x85 || n == 0xa0 || n == 0x1680 || 0x2000 <= n
                <= 0x200a || n == 0x2028 || n == 0x2029 || n == 0x202f || n == 0x205f || n
                == 0x3000
        },
{
}

} // verus!
