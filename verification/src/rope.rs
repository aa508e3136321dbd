//! The text store under a buffer: a `ropey::Rope`, seen through the
//! characters it holds and the way it divides them into lines.
//!
//! Everything here is a thin door onto ropey. A rope's contents are named by
//! `rope_text`; its line structure by `line_count`, `line_start` and
//! `line_of`. What ropey documents about those (lines are zero-indexed, line
//! breaks belong to the line they end, `line_to_char` of one past the last
//! line is the length, `char_to_line` counts the breaks before a char) is
//! what the contracts below claim, and no more.

use vstd::prelude::*;
use ropey::{Rope, RopeSlice};

verus! {

#[verifier::external_type_specification]
#[verifier::external_body]
pub struct ExRope(Rope);

#[verifier::external_type_specification]
#[verifier::external_body]
pub struct ExRopeSlice<'a>(RopeSlice<'a>);

/// The characters a rope holds, in order.
pub uninterp spec fn rope_text(r: Rope) -> Seq<char>;

/// The characters a rope slice holds, in order.
pub uninterp spec fn slice_text(s: RopeSlice) -> Seq<char>;

/// How many lines ropey counts in `text` (`Rope::len_lines`).
pub uninterp spec fn line_count(text: Seq<char>) -> nat;

/// The char index where line `l` of `text` starts (`Rope::line_to_char`).
pub uninterp spec fn line_start(text: Seq<char>, l: nat) -> nat;

/// The line that char index `c` of `text` falls on (`Rope::char_to_line`).
pub uninterp spec fn line_of(text: Seq<char>, c: nat) -> nat;

/// The UTF-8 width of one char.
pub open spec fn utf8_width(c: char) -> nat {
    if (c as u32) < 0x80 {
        1
    } else if (c as u32) < 0x800 {
        2
    } else if (c as u32) < 0x10000 {
        3
    } else {
        4
    }
}

/// The number of bytes `text` takes in UTF-8.
pub open spec fn utf8_len(text: Seq<char>) -> nat
    decreases text.len(),
{
    if text.len() == 0 {
        0
    } else {
        utf8_len(text.drop_last()) + utf8_width(text.last())
    }
}

/// A char ropey (with its default `unicode_lines` feature) takes as a line
/// break: LF, VT, FF, CR, NEL, LINE SEPARATOR, PARAGRAPH SEPARATOR (a CRLF
/// pair is one break).
pub open spec fn is_line_break(c: char) -> bool {
    c == '\n' || c == '\u{b}' || c == '\u{c}' || c == '\r' || c == '\u{85}' || c == '\u{2028}'
        || c == '\u{2029}'
}

/// `text` holds no line break.
pub open spec fn breakless(text: Seq<char>) -> bool {
    forall|i: int| 0 <= i < text.len() ==> !is_line_break(#[trigger] text[i])
}

/// The line structure ropey gives every text with `n` lines: line 0 starts
/// at 0, one past the last line starts at the end, starts never go back and
/// every line but the last is at least one char long (it ends in a line
/// break), every char index up to the end lies on the line whose start is
/// the last one at or before it, and the length fits a `usize`. Each line
/// but the last ends in a line break, and a text without one is one line.
pub open spec fn lines_wf(text: Seq<char>, n: nat) -> bool {
    &&& n >= 1
    &&& breakless(text) ==> n == 1
    &&& forall|l: nat|
        0 < l < n ==> is_line_break(text[#[trigger] line_start(text, l) - 1])
    &&& line_count(text) == n
    &&& line_start(text, 0) == 0
    &&& line_start(text, n) == text.len()
    &&& text.len() <= usize::MAX
    &&& forall|i: nat, j: nat|
        i <= j <= n ==> {
            &&& #[trigger] line_start(text, i) <= #[trigger] line_start(text, j)
            &&& i < j < n ==> line_start(text, i) < line_start(text, j)
        }
    &&& forall|c: nat|
        c <= text.len() ==> {
            &&& #[trigger] line_of(text, c) < n
            &&& line_start(text, line_of(text, c)) <= c
            &&& line_of(text, c) + 1 < n ==> c < line_start(text, line_of(text, c) + 1)
        }
}

/// The chars of line `l`, its line break included.
pub open spec fn line_chars(text: Seq<char>, l: nat) -> Seq<char> {
    text.subrange(line_start(text, l) as int, line_start(text, l + 1) as int)
}

/// `text` with `[a, b)` replaced by `ins`.
pub open spec fn splice(text: Seq<char>, a: nat, b: nat, ins: Seq<char>) -> Seq<char> {
    text.subrange(0, a as int) + ins + text.subrange(b as int, text.len() as int)
}

/// `Rope::new`: an empty rope.
#[verifier::external_body]
pub(crate) fn rope_new() -> (r: Rope)
    ensures
        rope_text(r) == Seq::<char>::empty(),
{
    Rope::new()
}

/// `Rope::from_str`: a rope holding exactly the chars of `s`.
#[verifier::external_body]
pub(crate) fn rope_from_str(s: &str) -> (r: Rope)
    ensures
        rope_text(r) == s@,
{
    Rope::from_str(s)
}

/// `Rope::len_chars`: the number of chars held.
#[verifier::external_body]
pub(crate) fn rope_len_chars(r: &Rope) -> (n: usize)
    ensures
        n == rope_text(*r).len(),
{
    r.len_chars()
}

/// `Rope::len_bytes`: the UTF-8 length of the chars held.
#[verifier::external_body]
pub(crate) fn rope_len_bytes(r: &Rope) -> (n: usize)
    ensures
        n == utf8_len(rope_text(*r)),
{
    r.len_bytes()
}

/// `Rope::len_lines`: the number of lines, with the line structure ropey
/// documents for it.
#[verifier::external_body]
pub(crate) fn rope_len_lines(r: &Rope) -> (n: usize)
    ensures
        lines_wf(rope_text(*r), n as nat),
{
    r.len_lines()
}

/// `Rope::line_to_char`: where line `l` starts; one past the last line
/// starts at the end.
#[verifier::external_body]
pub(crate) fn rope_line_to_char(r: &Rope, l: usize) -> (c: usize)
    requires
        l <= line_count(rope_text(*r)),
    ensures
        c == line_start(rope_text(*r), l as nat),
        c <= rope_text(*r).len(),
{
    r.line_to_char(l)
}

/// `Rope::char_to_line`: the line char index `c` falls on, counting the
/// line breaks before it; a line break belongs to the line it ends.
#[verifier::external_body]
pub(crate) fn rope_char_to_line(r: &Rope, c: usize) -> (l: usize)
    requires
        c <= rope_text(*r).len(),
    ensures
        l == line_of(rope_text(*r), c as nat),
        l < line_count(rope_text(*r)),
        line_start(rope_text(*r), l as nat) <= c,
        l + 1 < line_count(rope_text(*r)) ==> c < line_start(rope_text(*r), (l + 1) as nat),
{
    r.char_to_line(c)
}

/// `Rope::line`: line `l`, its line break included, as a slice.
#[verifier::external_body]
pub(crate) fn rope_line<'a>(r: &'a Rope, l: usize) -> (s: RopeSlice<'a>)
    requires
        l < line_count(rope_text(*r)),
    ensures
        slice_text(s) == line_chars(rope_text(*r), l as nat),
{
    r.line(l)
}

/// `Rope::slice`: the chars `[a, b)` as a slice.
#[verifier::external_body]
pub(crate) fn rope_slice<'a>(r: &'a Rope, a: usize, b: usize) -> (s: RopeSlice<'a>)
    requires
        a <= b <= rope_text(*r).len(),
    ensures
        slice_text(s) == rope_text(*r).subrange(a as int, b as int),
{
    r.slice(a..b)
}

/// `RopeSlice::len_chars`: the number of chars in a slice.
#[verifier::external_body]
pub(crate) fn slice_len_chars(s: &RopeSlice) -> (n: usize)
    ensures
        n == slice_text(*s).len(),
{
    s.len_chars()
}

/// `RopeSlice::chars`, taken to its last item: the slice's last char, if
/// it has one.
#[verifier::external_body]
pub(crate) fn slice_last_char(s: &RopeSlice) -> (c: Option<char>)
    ensures
        slice_text(*s).len() == 0 ==> c is None,
        slice_text(*s).len() > 0 ==> c == Some(slice_text(*s).last()),
{
    s.chars().last()
}

/// The `Display` text of a rope slice: exactly its chars.
#[verifier::external_body]
pub(crate) fn slice_to_string(s: &RopeSlice) -> (t: String)
    ensures
        t@ == slice_text(*s),
{
    s.to_string()
}

/// The `Display` text of a rope: exactly its chars.
#[verifier::external_body]
pub(crate) fn rope_to_string(r: &Rope) -> (t: String)
    ensures
        t@ == rope_text(*r),
{
    r.to_string()
}

/// `Rope::insert`: `s` goes in at char index `i`.
#[verifier::external_body]
pub(crate) fn rope_insert(r: &mut Rope, i: usize, s: &str)
    requires
        i <= rope_text(*old(r)).len(),
    ensures
        rope_text(*final(r)) == splice(rope_text(*old(r)), i as nat, i as nat, s@),
{
    r.insert(i, s)
}

/// `Rope::remove`: the chars `[a, b)` are taken out.
#[verifier::external_body]
pub(crate) fn rope_remove(r: &mut Rope, a: usize, b: usize)
    requires
        a <= b <= rope_text(*old(r)).len(),
    ensures
        rope_text(*final(r)) == splice(rope_text(*old(r)), a as nat, b as nat, Seq::<char>::empty()),
{
    r.remove(a..b)
}

} // verus!
