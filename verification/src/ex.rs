//! The ex-command name grammar: how a typed word such as `:wq` becomes a
//! registered command name.
//!
//! Every ex verb has a full name, a minimum prefix that selects it, and an
//! optional `!`. `:w`, `:wr`, `:write` are one verb; `:qa` and `:quita` are
//! another, and `:qu` is not `:quitall` because that verb's minimum is five
//! characters. A word the grammar does not know passes through unchanged, so
//! registry names such as `noh` or `picker.files` still dispatch.

use vstd::prelude::*;
use vstd::utf8::encode_utf8;
use crate::text::{
    is_prefix, trim_ws, trim_end_ws, trim_start_ws, words, chars_of, slice_vec, string_of,
    trailing_ws_len, leading_ws_len, split_words, owned, lemma_trim_end_ws, lemma_trim_start_ws,
};

verus! {

/// One ex command's spelling rule.
///
/// `plain` and `forced` are separate registered command names, the one the
/// bare verb dispatches to and the one the `!` form does. Verbs for which
/// `!` changes nothing point both at the same command.
#[derive(Debug, Clone, Copy, PartialEq, Eq)]
pub struct ExVerb {
    /// The full spelling.
    pub full: &'static str,
    /// The fewest characters that select it: `:q[uit]` is `("quit", 1)`.
    pub min: usize,
    /// The registered command the plain form dispatches to.
    pub plain: &'static str,
    /// The registered command the `!` form dispatches to.
    pub forced: &'static str,
}

/// `w` spells `v`: a prefix of its full name, at least `min` bytes long.
pub open spec fn spells(v: ExVerb, w: Seq<char>) -> bool {
    &&& encode_utf8(w).len() >= v.min
    &&& encode_utf8(v.full@).len() >= encode_utf8(w).len()
    &&& is_prefix(w, v.full@)
}

/// The command a verb dispatches to, banged or not.
pub open spec fn spec_command(v: ExVerb, bang: bool) -> &'static str {
    if bang {
        v.forced
    } else {
        v.plain
    }
}

/// The write/quit family plus undo and redo, with vim's minimum prefixes.
pub open spec fn spec_verbs() -> Seq<ExVerb> {
    seq![
        ExVerb { full: "write", min: 1, plain: "save", forced: "save" },
        ExVerb { full: "wall", min: 2, plain: "buffer.write-all", forced: "buffer.write-all" },
        ExVerb { full: "wq", min: 2, plain: "write-quit", forced: "write-quit" },
        ExVerb { full: "wqall", min: 3, plain: "write-quit-all", forced: "write-quit-all" },
        ExVerb { full: "xit", min: 1, plain: "exit-write", forced: "exit-write" },
        ExVerb { full: "xall", min: 2, plain: "write-quit-all", forced: "write-quit-all" },
        ExVerb { full: "exit", min: 3, plain: "exit-write", forced: "exit-write" },
        ExVerb { full: "quit", min: 1, plain: "quit", forced: "quit!" },
        ExVerb { full: "qall", min: 2, plain: "quit-all", forced: "quit-all!" },
        ExVerb { full: "quitall", min: 5, plain: "quit-all", forced: "quit-all!" },
        ExVerb { full: "undo", min: 1, plain: "undo", forced: "undo" },
        ExVerb { full: "redo", min: 3, plain: "redo", forced: "redo" },
    ]
}

/// The first verb of `vs` that `w` spells.
pub open spec fn first_spelled(vs: Seq<ExVerb>, w: Seq<char>) -> Option<ExVerb>
    decreases vs.len(),
{
    if vs.len() == 0 {
        None
    } else if spells(vs[0], w) {
        Some(vs[0])
    } else {
        first_spelled(vs.drop_first(), w)
    }
}

/// The verb a word spells, if any: the first in the table.
pub open spec fn spec_resolve(w: Seq<char>) -> Option<ExVerb> {
    first_spelled(spec_verbs(), w)
}

/// `s` without one leading `:`.
pub open spec fn strip_colon(s: Seq<char>) -> Seq<char> {
    if s.len() > 0 && s[0] == ':' {
        s.drop_first()
    } else {
        s
    }
}

/// The words of an ex line: trimmed, one leading `:` dropped, split at
/// whitespace.
pub open spec fn line_words(line: Seq<char>) -> Seq<Seq<char>> {
    words(strip_colon(trim_ws(line)))
}

/// The command a typed word dispatches to: a known verb (with or without a
/// trailing `!`) goes to its registered command; any other word, `!`
/// included, passes through as typed.
pub open spec fn spec_command_for(word: Seq<char>) -> Seq<char> {
    let bang = word.len() > 0 && word.last() == '!';
    let head = if bang {
        word.drop_last()
    } else {
        word
    };
    match spec_resolve(head) {
        Some(v) => spec_command(v, bang)@,
        None => word,
    }
}

impl ExVerb {
    /// Does `word` spell this verb? A prefix of the full name, at least
    /// `min` bytes long.
    pub fn spelled_by(&self, word: &str) -> (r: bool)
        ensures
            r == spells(*self, word@),
    {
        let wl = word.as_bytes().len();
        let fl = self.full.as_bytes().len();
        if !(wl >= self.min && fl >= wl) {
            return false;
        }
        let f = chars_of(self.full);
        let w = chars_of(word);
        if w.len() > f.len() {
            return false;
        }
        let head = slice_vec(&f, 0, w.len());
        crate::text::chars_eq(&head, &w)
    }

    /// The command name for this verb, banged or not.
    pub fn command(&self, bang: bool) -> (s: &'static str)
        ensures
            s == spec_command(*self, bang),
    {
        if bang {
            self.forced
        } else {
            self.plain
        }
    }
}

/// The verb table.
pub fn verbs() -> (v: Vec<ExVerb>)
    ensures
        v@ == spec_verbs(),
{
    vec![
        ExVerb { full: "write", min: 1, plain: "save", forced: "save" },
        ExVerb { full: "wall", min: 2, plain: "buffer.write-all", forced: "buffer.write-all" },
        ExVerb { full: "wq", min: 2, plain: "write-quit", forced: "write-quit" },
        ExVerb { full: "wqall", min: 3, plain: "write-quit-all", forced: "write-quit-all" },
        ExVerb { full: "xit", min: 1, plain: "exit-write", forced: "exit-write" },
        ExVerb { full: "xall", min: 2, plain: "write-quit-all", forced: "write-quit-all" },
        ExVerb { full: "exit", min: 3, plain: "exit-write", forced: "exit-write" },
        ExVerb { full: "quit", min: 1, plain: "quit", forced: "quit!" },
        ExVerb { full: "qall", min: 2, plain: "quit-all", forced: "quit-all!" },
        ExVerb { full: "quitall", min: 5, plain: "quit-all", forced: "quit-all!" },
        ExVerb { full: "undo", min: 1, plain: "undo", forced: "undo" },
        ExVerb { full: "redo", min: 3, plain: "redo", forced: "redo" },
    ]
}

/// The verb `word` spells, if any; `word` carries no `!` and no arguments.
pub fn resolve(word: &str) -> (r: Option<ExVerb>)
    ensures
        r == spec_resolve(word@),
{
    let vs = verbs();
    let n = vs.len();
    let mut i: usize = 0;
    assert(vs@.subrange(0, n as int) =~= vs@);
    while i < n
        invariant
            i <= n,
            n == vs@.len(),
            vs@ == spec_verbs(),
            first_spelled(vs@.subrange(i as int, n as int), word@) == spec_resolve(word@),
        decreases n - i,
    {
        let ghost rest = vs@.subrange(i as int, n as int);
        assert(rest[0] == vs@[i as int]);
        if vs[i].spelled_by(word) {
            return Some(vs[i]);
        }
        assert(rest.drop_first() =~= vs@.subrange(i + 1, n as int));
        i += 1;
    }
    None
}

/// A parsed ex line: which command to run, and with what.
#[derive(Debug, Clone, PartialEq, Eq)]
pub struct Invocation {
    /// The registered command name to dispatch.
    pub command: String,
    /// Everything after the command word.
    pub args: Vec<String>,
}

/// Parse a command line into the command to dispatch and its arguments.
/// `None` for a line with no word: `:` then return does nothing.
pub fn parse(line: &str) -> (r: Option<Invocation>)
    ensures
        r is None <==> line_words(line@).len() == 0,
        r matches Some(inv) ==> {
            &&& inv.command@ == spec_command_for(line_words(line@)[0])
            &&& inv.args@.len() + 1 == line_words(line@).len()
            &&& forall|i: int|
                0 <= i < inv.args@.len() ==> #[trigger] inv.args@[i]@ == line_words(line@)[i + 1]
        },
{
    let v = chars_of(line);
    let trail = trailing_ws_len(&v);
    proof {
        lemma_trim_end_ws(v@);
    }
    let te = slice_vec(&v, 0, v.len() - trail);
    assert(te@ =~= trim_end_ws(v@));
    let lead = leading_ws_len(&te);
    proof {
        lemma_trim_start_ws(te@);
    }
    let trimmed = slice_vec(&te, lead, te.len());
    assert(trimmed@ =~= trim_ws(line@));
    let body = if trimmed.len() > 0 && trimmed[0] == ':' {
        slice_vec(&trimmed, 1, trimmed.len())
    } else {
        trimmed
    };
    assert(body@ =~= strip_colon(trim_ws(line@)));
    let body_str = string_of(&body);
    let parts = split_words(body_str.as_str());
    if parts.len() == 0 {
        return None;
    }
    let word = &parts[0];
    let wv = chars_of(word.as_str());
    let bang = wv.len() > 0 && wv[wv.len() - 1] == '!';
    let head = if bang {
        slice_vec(&wv, 0, wv.len() - 1)
    } else {
        slice_vec(&wv, 0, wv.len())
    };
    assert(head@ =~= (if bang {
        wv@.drop_last()
    } else {
        wv@
    }));
    let head_str = string_of(&head);
    let command = match resolve(head_str.as_str()) {
        Some(verb) => owned(verb.command(bang)),
        None => word.clone(),
    };
    let mut args: Vec<String> = Vec::new();
    let mut i: usize = 1;
    while i < parts.len()
        invariant
            1 <= i <= parts@.len(),
            args@.len() + 1 == i,
            forall|k: int| 0 <= k < args@.len() ==> #[trigger] args@[k]@ == parts@[k + 1]@,
        decreases parts@.len() - i,
    {
        args.push(parts[i].clone());
        i += 1;
    }
    Some(Invocation { command, args })
}

} // verus!

verus! {

/// An ASCII sequence takes one byte per char in UTF-8.
proof fn lemma_ascii_utf8_len(w: Seq<char>)
    requires
        forall|i: int| 0 <= i < w.len() ==> (#[trigger] w[i] as u32) < 0x80,
    ensures
        encode_utf8(w).len() == w.len(),
    decreases w.len(),
{
    if w.len() > 0 {
        assert forall|i: int| 0 <= i < w.drop_first().len() implies (#[trigger] w.drop_first()[i] as u32) < 0x80 by {
            assert(w.drop_first()[i] == w[i + 1]);
        }
        lemma_ascii_utf8_len(w.drop_first());
    }
}

/// Every abbreviation vim accepts reaches its verb, and no other: for each
/// verb of the table, a prefix of its full name at least `min` characters
/// long spells that verb and no other verb, so resolving it gives that verb.
#[verifier::rlimit(100)]
pub proof fn lemma_abbreviations_resolve(i: int, w: Seq<char>)
    requires
        0 <= i < spec_verbs().len(),
        is_prefix(w, spec_verbs()[i].full@),
        w.len() >= spec_verbs()[i].min,
    ensures
        spells(spec_verbs()[i], w),
        forall|j: int| 0 <= j < spec_verbs().len() && j != i ==> !spells(#[trigger] spec_verbs()[j], w),
        spec_resolve(w) == Some(spec_verbs()[i]),
{
    reveal_strlit("write");
    reveal_strlit("wall");
    reveal_strlit("wq");
    reveal_strlit("wqall");
    reveal_strlit("xit");
    reveal_strlit("xall");
    reveal_strlit("exit");
    reveal_strlit("quit");
    reveal_strlit("qall");
    reveal_strlit("quitall");
    reveal_strlit("undo");
    reveal_strlit("redo");
    let vs = spec_verbs();
    let full = vs[i].full@;
    assert forall|k: int| 0 <= k < w.len() implies w[k] == full[k] by {
        assert(full.subrange(0, w.len() as int)[k] == full[k]);
    }
    assert forall|k: int| 0 <= k < full.len() implies (#[trigger] full[k] as u32) < 0x80 by {}
    lemma_ascii_utf8_len(w);
    lemma_ascii_utf8_len(full);
    assert forall|j: int| 0 <= j < vs.len() && j != i implies !spells(#[trigger] vs[j], w) by {
        if spells(vs[j], w) {
            let other = vs[j].full@;
            assert forall|k: int| 0 <= k < other.len() implies (#[trigger] other[k] as u32) < 0x80 by {}
            lemma_ascii_utf8_len(other);
            assert forall|k: int| 0 <= k < w.len() implies w[k] == other[k] by {
                assert(other.subrange(0, w.len() as int)[k] == other[k]);
            }
            if w.len() > 0 { assert(full[0] == other[0]); }
            if w.len() > 1 { assert(full[1] == other[1]); }
            if w.len() > 2 { assert(full[2] == other[2]); }
            if w.len() > 3 { assert(full[3] == other[3]); }
            if w.len() > 4 { assert(full[4] == other[4]); }
        }
    }
    lemma_first_spelled(vs, w, i);
}

/// A prefix of a verb shorter than its minimum neither spells that verb nor
/// resolves to it.
pub proof fn lemma_short_prefix_does_not_resolve(i: int, w: Seq<char>)
    requires
        0 <= i < spec_verbs().len(),
        is_prefix(w, spec_verbs()[i].full@),
        w.len() < spec_verbs()[i].min,
    ensures
        !spells(spec_verbs()[i], w),
        spec_resolve(w) != Some(spec_verbs()[i]),
{
    reveal_strlit("write");
    reveal_strlit("wall");
    reveal_strlit("wq");
    reveal_strlit("wqall");
    reveal_strlit("xit");
    reveal_strlit("xall");
    reveal_strlit("exit");
    reveal_strlit("quit");
    reveal_strlit("qall");
    reveal_strlit("quitall");
    reveal_strlit("undo");
    reveal_strlit("redo");
    let vs = spec_verbs();
    let full = vs[i].full@;
    assert forall|k: int| 0 <= k < w.len() implies w[k] == full[k] by {
        assert(full.subrange(0, w.len() as int)[k] == full[k]);
    }
    assert forall|k: int| 0 <= k < full.len() implies (#[trigger] full[k] as u32) < 0x80 by {}
    assert forall|k: int| 0 <= k < w.len() implies (#[trigger] w[k] as u32) < 0x80 by {
        assert(w[k] == full[k]);
    }
    lemma_ascii_utf8_len(w);
    lemma_first_spelled_spells(vs, w);
}

/// What the first spelled verb is, `w` spells it.
proof fn lemma_first_spelled_spells(vs: Seq<ExVerb>, w: Seq<char>)
    ensures
        first_spelled(vs, w) matches Some(v) ==> spells(v, w),
    decreases vs.len(),
{
    if vs.len() > 0 && !spells(vs[0], w) {
        lemma_first_spelled_spells(vs.drop_first(), w);
    }
}

/// A prefix takes no more UTF-8 bytes than the text it starts.
proof fn lemma_prefix_utf8_len(w: Seq<char>, full: Seq<char>)
    requires
        is_prefix(w, full),
    ensures
        encode_utf8(w).len() <= encode_utf8(full).len(),
    decreases w.len(),
{
    if w.len() > 0 {
        assert(w[0] == full.subrange(0, w.len() as int)[0]);
        assert(full.drop_first().subrange(0, w.len() - 1) =~= w.drop_first());
        lemma_prefix_utf8_len(w.drop_first(), full.drop_first());
    }
}

/// A verb is spelled by exactly the prefixes of its full name that are at
/// least its minimum long (in bytes).
pub proof fn lemma_spells_iff(v: ExVerb, w: Seq<char>)
    ensures
        spells(v, w) <==> (encode_utf8(w).len() >= v.min && is_prefix(w, v.full@)),
{
    if is_prefix(w, v.full@) {
        lemma_prefix_utf8_len(w, v.full@);
    }
}

/// The first verb spelled is the only one spelled, when only one is.
proof fn lemma_first_spelled(vs: Seq<ExVerb>, w: Seq<char>, i: int)
    requires
        0 <= i < vs.len(),
        spells(vs[i], w),
        forall|j: int| 0 <= j < vs.len() && j != i ==> !spells(#[trigger] vs[j], w),
    ensures
        first_spelled(vs, w) == Some(vs[i]),
    decreases vs.len(),
{
    if i > 0 {
        let t = vs.drop_first();
        assert(!spells(vs[0], w));
        assert forall|j: int| 0 <= j < t.len() && j != i - 1 implies !spells(#[trigger] t[j], w) by {
            assert(t[j] == vs[j + 1]);
        }
        lemma_first_spelled(t, w, i - 1);
    }
}

} // verus!
