//! A single open text buffer: a rope of text, where it came from, and the
//! undo history of what was done to it.

use vstd::prelude::*;
use ropey::Rope;
use crate::id::BufferId;
use crate::position::{Position, pos_le};
use crate::range::{Range, spec_normalized};
use crate::edit::{Edit, EditKind};
use crate::encoding::Encoding;
use crate::line_ending::{LineEnding, spec_detect};
use crate::undo::{UndoEntry, UndoTree};
use crate::rope::{
    rope_text, breakless, line_count, line_start, line_of, lines_wf, line_chars, splice, utf8_len,
    rope_new, rope_from_str, rope_len_chars, rope_len_bytes, rope_len_lines, rope_line_to_char,
    rope_char_to_line, rope_line, rope_slice, slice_len_chars, slice_last_char, slice_to_string,
    rope_to_string, rope_insert, rope_remove, slice_text,
};

verus! {

#[verifier::external_type_specification]
#[verifier::external_body]
pub struct ExIoError(std::io::Error);

/// Why a buffer operation failed.
#[derive(Debug)]
pub enum BufferError {
    Io(std::io::Error),
    InvalidPosition { line: u32, column: u32, total_lines: u32 },
    InvalidRange { start: String, end: String },
    NoPath,
    NothingToUndo,
    NothingToRedo,
}

impl From<std::io::Error> for BufferError {
    fn from(e: std::io::Error) -> (r: Self) {
        BufferError::Io(e)
    }
}

impl vstd::std_specs::convert::FromSpecImpl<std::io::Error> for BufferError {
    open spec fn obeys_from_spec() -> bool {
        true
    }

    open spec fn from_spec(e: std::io::Error) -> Self {
        BufferError::Io(e)
    }
}

/// `n` as a `u32`, saturating at `u32::MAX` (and at 0 below).
pub open spec fn clamp_u32(n: int) -> u32 {
    if n > u32::MAX {
        u32::MAX
    } else if n < 0 {
        0
    } else {
        n as u32
    }
}

/// The line count a buffer reports.
pub open spec fn spec_line_count(text: Seq<char>) -> u32 {
    clamp_u32(line_count(text) as int)
}

/// The length of line `l` for cursor placement: its chars, less a final
/// `\n` or `\r`; 0 past the last line.
pub open spec fn spec_line_len(text: Seq<char>, l: nat) -> u32 {
    if l < line_count(text) {
        let s = line_chars(text, l);
        if s.len() > 0 && (s.last() == '\n' || s.last() == '\r') {
            clamp_u32(s.len() - 1)
        } else {
            clamp_u32(s.len() as int)
        }
    } else {
        0
    }
}

/// `p` moved into the buffer: its line capped at the last line, its column
/// at that line's length.
pub open spec fn spec_clamp(text: Seq<char>, p: Position) -> Position {
    let last = if spec_line_count(text) >= 1 { (spec_line_count(text) - 1) as u32 } else { 0u32 };
    let line = if p.line <= last { p.line } else { last };
    let len = spec_line_len(text, line as nat);
    Position { line, column: if p.column <= len { p.column } else { len } }
}

/// The char index a position names: the start of its line plus its column,
/// the column capped at the line's length, line break included. `None`
/// when the line does not exist.
pub open spec fn resolve(text: Seq<char>, p: Position) -> Option<nat> {
    if (p.line as nat) < line_count(text) {
        let start = line_start(text, p.line as nat);
        let max_col = line_chars(text, p.line as nat).len();
        Some(start + if (p.column as nat) <= max_col { p.column as nat } else { max_col })
    } else {
        None
    }
}

/// The error a position on a missing line gives.
pub open spec fn invalid_position(text: Seq<char>, p: Position) -> BufferError {
    BufferError::InvalidPosition { line: p.line, column: p.column, total_lines: spec_line_count(text) }
}

/// The position of char index `c`: the line it falls on (an index past the
/// end falls on the last line) and its distance from that line's start,
/// each saturating at `u32::MAX`.
pub open spec fn locate(text: Seq<char>, c: nat) -> Position {
    let l = line_of(text, if c <= text.len() { c } else { text.len() });
    Position { line: clamp_u32(l as int), column: clamp_u32(c - line_start(text, l)) }
}

/// The chars an edit puts in.
pub open spec fn inserted(kind: EditKind) -> Seq<char> {
    match kind {
        EditKind::Insert { text } => text@,
        EditKind::Delete => Seq::<char>::empty(),
        EditKind::Replace { text } => text@,
    }
}

/// `text` after an edit of kind `kind` over the chars `[a, b)`. An insert
/// goes in at `a` and leaves `[a, b)` alone.
pub open spec fn edit_text(text: Seq<char>, a: nat, b: nat, kind: EditKind) -> Seq<char> {
    match kind {
        EditKind::Insert { text: t } => splice(text, a, a, t@),
        EditKind::Delete => splice(text, a, b, Seq::<char>::empty()),
        EditKind::Replace { text: t } => splice(text, a, b, t@),
    }
}

/// `text` after `e`: its ordered range resolved to char indices, then its
/// kind applied. `None` when either end lies on a missing line.
pub open spec fn replay(text: Seq<char>, e: Edit) -> Option<Seq<char>> {
    let r = spec_normalized(e.range);
    match resolve(text, r.start) {
        None => None,
        Some(a) => match resolve(text, r.end) {
            None => None,
            Some(b) => Some(edit_text(text, a, b, e.kind)),
        },
    }
}

/// The error replaying `e` meets: the first end, in order, on a missing line.
pub open spec fn replay_error(text: Seq<char>, e: Edit) -> BufferError {
    let r = spec_normalized(e.range);
    if resolve(text, r.start) is None {
        invalid_position(text, r.start)
    } else {
        invalid_position(text, r.end)
    }
}

/// `rev` is the edit that undoes `e` on `text`: it covers, in the edited
/// text, exactly what `e` put in, and puts back what `e` took out.
pub open spec fn is_reverse(text: Seq<char>, e: Edit, rev: Edit) -> bool {
    let r = spec_normalized(e.range);
    let a = resolve(text, r.start).unwrap();
    let b = resolve(text, r.end).unwrap();
    let after = edit_text(text, a, b, e.kind);
    &&& rev.range == Range {
        start: locate(after, a),
        end: locate(after, a + inserted(e.kind).len()),
    }
    &&& match e.kind {
        EditKind::Insert { .. } => rev.kind is Delete,
        EditKind::Delete => rev.kind matches EditKind::Insert { text: p } && p@ == text.subrange(
            a as int,
            b as int,
        ),
        EditKind::Replace { .. } => rev.kind matches EditKind::Replace { text: p } && p@
            == text.subrange(a as int, b as int),
    }
}

fn saturate_u32(n: usize) -> (r: u32)
    ensures
        r == clamp_u32(n as int),
{
    if n > 4294967295usize {
        u32::MAX
    } else {
        n as u32
    }
}

/// A line's start never exceeds its index's worth of chars: line `i` starts
/// at `i` or later.
proof fn lemma_line_start_at_least_index(text: Seq<char>, n: nat, i: nat)
    requires
        lines_wf(text, n),
        i < n,
    ensures
        line_start(text, i) >= i,
    decreases i,
{
    if i > 0 {
        lemma_line_start_at_least_index(text, n, (i - 1) as nat);
        assert(line_start(text, (i - 1) as nat) < line_start(text, i));
    }
}

/// A line's chars run from its start to the next line's start.
proof fn lemma_line_len(text: Seq<char>, n: nat, l: nat)
    requires
        lines_wf(text, n),
        l < n,
    ensures
        line_start(text, l) <= line_start(text, l + 1) <= text.len(),
        line_chars(text, l).len() == line_start(text, l + 1) - line_start(text, l),
{
    assert(line_start(text, l) <= line_start(text, l + 1));
    assert(line_start(text, l + 1) <= line_start(text, n));
}

/// A resolved position lies in the text, and resolving keeps position order.
proof fn lemma_resolve_monotone(text: Seq<char>, p: Position, q: Position)
    requires
        lines_wf(text, line_count(text)),
        resolve(text, p) is Some,
        resolve(text, q) is Some,
        pos_le(p, q),
    ensures
        resolve(text, p).unwrap() <= resolve(text, q).unwrap() <= text.len(),
{
    let n = line_count(text);
    lemma_line_len(text, n, p.line as nat);
    lemma_line_len(text, n, q.line as nat);
    if p.line < q.line {
        assert(line_start(text, p.line as nat + 1) <= line_start(text, q.line as nat));
    }
}

/// Char index `c` of `text` has a position that `u32` line and column
/// numbers can hold: neither its line nor its column saturates.
pub open spec fn locatable(text: Seq<char>, c: nat) -> bool {
    &&& line_of(text, c) <= u32::MAX
    &&& c - line_start(text, line_of(text, c)) <= u32::MAX
}

/// Resolving the position of a char index gives the index back, wherever
/// the text is short enough for positions not to saturate.
proof fn lemma_resolve_locate(text: Seq<char>, c: nat)
    requires
        lines_wf(text, line_count(text)),
        c <= text.len(),
        locatable(text, c),
    ensures
        resolve(text, locate(text, c)) == Some(c),
{
    let n = line_count(text);
    let l = line_of(text, c);
    assert(l < n);
    lemma_line_start_at_least_index(text, n, (n - 1) as nat);
    assert(line_start(text, (n - 1) as nat) <= line_start(text, n));
    lemma_line_len(text, n, l);
    assert(locate(text, c).line == l);
    assert(locate(text, c).column == c - line_start(text, l));
}

/// Positions of char indices keep the indices' order.
proof fn lemma_locate_monotone(text: Seq<char>, c1: nat, c2: nat)
    requires
        lines_wf(text, line_count(text)),
        c1 <= c2 <= text.len(),
        locatable(text, c1),
        locatable(text, c2),
    ensures
        pos_le(locate(text, c1), locate(text, c2)),
{
    let n = line_count(text);
    let l1 = line_of(text, c1);
    let l2 = line_of(text, c2);
    lemma_line_start_at_least_index(text, n, (n - 1) as nat);
    assert(line_start(text, (n - 1) as nat) <= line_start(text, n));
    if l1 > l2 {
        assert(line_start(text, l2 + 1) <= line_start(text, l1));
    }
}

/// In a text of at most `u32::MAX` chars every index up to the end is
/// locatable.
pub proof fn lemma_short_text_locatable(text: Seq<char>, c: nat)
    requires
        lines_wf(text, line_count(text)),
        c <= text.len(),
        text.len() <= u32::MAX,
    ensures
        locatable(text, c),
{
    let n = line_count(text);
    let l = line_of(text, c);
    lemma_line_start_at_least_index(text, n, l);
}

/// Undoing an applied edit gives the text back: replaying the reverse edit
/// that `apply` records, on the text `apply` leaves, yields the text from
/// before the edit; and redoing then replays the edit onto the same text
/// again. Stated where the two ends of what the edit put in have positions
/// a `u32` line and column can hold: where one saturates, the reverse edit
/// cannot address it.
pub proof fn lemma_undo_reverses_apply(text: Seq<char>, e: Edit, rev: Edit)
    requires
        lines_wf(text, line_count(text)),
        replay(text, e) is Some,
        lines_wf(replay(text, e).unwrap(), line_count(replay(text, e).unwrap())),
        is_reverse(text, e, rev),
        locatable(
            replay(text, e).unwrap(),
            resolve(text, spec_normalized(e.range).start).unwrap(),
        ),
        locatable(
            replay(text, e).unwrap(),
            resolve(text, spec_normalized(e.range).start).unwrap() + inserted(e.kind).len(),
        ),
    ensures
        replay(replay(text, e).unwrap(), rev) == Some(text),
        replay(replay(replay(text, e).unwrap(), rev).unwrap(), e) == replay(text, e),
{
    let r = spec_normalized(e.range);
    crate::range::lemma_normalized_ordered(e.range);
    lemma_resolve_monotone(text, r.start, r.end);
    let a = resolve(text, r.start).unwrap();
    let b = resolve(text, r.end).unwrap();
    let after = edit_text(text, a, b, e.kind);
    assert(after == replay(text, e).unwrap());
    let ins = inserted(e.kind);
    assert(a + ins.len() <= after.len()) by {
        match e.kind {
            EditKind::Insert { text: t } => {},
            EditKind::Delete => {},
            EditKind::Replace { text: t } => {},
        }
    }
    lemma_locate_monotone(after, a, a + ins.len());
    lemma_resolve_locate(after, a);
    lemma_resolve_locate(after, a + ins.len());
    assert(spec_normalized(rev.range) == rev.range);
    match e.kind {
        EditKind::Insert { text: t } => {
            assert(edit_text(after, a, a + ins.len(), rev.kind) =~= text);
        },
        EditKind::Delete => {
            assert(edit_text(after, a, a + ins.len(), rev.kind) =~= text);
        },
        EditKind::Replace { text: t } => {
            assert(edit_text(after, a, a + ins.len(), rev.kind) =~= text);
        },
    }
}

/// A single open text buffer.
#[derive(Debug)]
pub struct Buffer {
    pub id: BufferId,
    /// The canonical path of the file behind the buffer, if there is one.
    pub path: Option<String>,
    pub rope: Rope,
    pub modified: bool,
    pub encoding: Encoding,
    pub line_ending: LineEnding,
    pub undo: UndoTree,
}

impl Buffer {
    /// The chars the buffer holds.
    pub open spec fn text(&self) -> Seq<char> {
        rope_text(self.rope)
    }

    /// The fields an edit leaves alone.
    pub open spec fn same_frame(&self, other: &Buffer) -> bool {
        &&& self.id == other.id
        &&& self.path == other.path
        &&& self.encoding == other.encoding
        &&& self.line_ending == other.line_ending
    }

    /// The text, the modified flag and both histories are as in `other`.
    pub open spec fn unchanged(&self, other: &Buffer) -> bool {
        &&& self.text() == other.text()
        &&& self.modified == other.modified
        &&& self.undo.spec_undo() == other.undo.spec_undo()
        &&& self.undo.spec_redo() == other.undo.spec_redo()
    }

    /// An empty, unmodified buffer with no path.
    pub fn empty(id: BufferId) -> (b: Self)
        ensures
            b.id == id,
            b.path is None,
            b.text() == Seq::<char>::empty(),
            !b.modified,
            b.encoding == Encoding::Utf8,
            b.line_ending == LineEnding::Lf,
            b.undo.spec_undo() == Seq::<UndoEntry>::empty(),
            b.undo.spec_redo() == Seq::<UndoEntry>::empty(),
    {
        Self {
            id,
            path: None,
            rope: rope_new(),
            modified: false,
            encoding: Encoding::Utf8,
            line_ending: LineEnding::Lf,
            undo: UndoTree::new(),
        }
    }

    /// A pathless buffer holding `src`, its line ending detected from it.
    pub fn from_str(id: BufferId, src: &str) -> (b: Self)
        ensures
            b.id == id,
            b.path is None,
            b.text() == src@,
            !b.modified,
            b.encoding == Encoding::Utf8,
            b.line_ending == spec_detect(src@),
            b.undo.spec_undo() == Seq::<UndoEntry>::empty(),
            b.undo.spec_redo() == Seq::<UndoEntry>::empty(),
    {
        let line_ending = LineEnding::detect(src);
        Self {
            id,
            path: None,
            rope: rope_from_str(src),
            modified: false,
            encoding: Encoding::Utf8,
            line_ending,
            undo: UndoTree::new(),
        }
    }

    /// A buffer over the file at `path`, holding `src`, what was read from
    /// it (an absent file reads as empty).
    pub fn from_file(id: BufferId, path: &str, src: &str) -> (b: Self)
        ensures
            b.id == id,
            b.path matches Some(p) && p@ == path@,
            b.text() == src@,
            !b.modified,
            b.encoding == Encoding::Utf8,
            b.line_ending == spec_detect(src@),
            b.undo.spec_undo() == Seq::<UndoEntry>::empty(),
            b.undo.spec_redo() == Seq::<UndoEntry>::empty(),
    {
        let line_ending = LineEnding::detect(src);
        Self {
            id,
            path: Some(crate::text::owned(path)),
            rope: rope_from_str(src),
            modified: false,
            encoding: Encoding::Utf8,
            line_ending,
            undo: UndoTree::new(),
        }
    }

    /// What saving writes: the buffer's text, line by line; a buffer with no
    /// path cannot be saved.
    pub fn save_text(&self) -> (r: Result<String, BufferError>)
        ensures
            self.path is None ==> (r matches Err(e) && e is NoPath),
            self.path is Some ==> (r matches Ok(s) && s@ == self.text()),
    {
        if self.path.is_none() {
            return Err(BufferError::NoPath);
        }
        let n = rope_len_lines(&self.rope);
        let ghost text = self.text();
        let mut src = String::new();
        let mut l: usize = 0;
        while l < n
            invariant
                l <= n,
                lines_wf(text, n as nat),
                text == self.text(),
                src@ == text.subrange(0, line_start(text, l as nat) as int),
            decreases n - l,
        {
            proof {
                lemma_line_len(text, n as nat, l as nat);
            }
            let line = rope_line(&self.rope, l);
            let part = slice_to_string(&line);
            crate::text::push_str(&mut src, part.as_str());
            assert(src@ =~= text.subrange(0, line_start(text, (l + 1) as nat) as int));
            l += 1;
        }
        assert(src@ =~= text);
        Ok(src)
    }

    /// The buffer now matches what is on disk.
    pub fn mark_saved(&mut self)
        ensures
            !final(self).modified,
            final(self).text() == old(self).text(),
            final(self).same_frame(old(self)),
            final(self).undo == old(self).undo,
    {
        self.modified = false;
    }

    /// The number of lines; a text ending in a line break has a final empty
    /// line. Saturates at `u32::MAX`.
    pub fn line_count(&self) -> (n: u32)
        ensures
            n == spec_line_count(self.text()),
            breakless(self.text()) ==> n == 1,
    {
        let l = rope_len_lines(&self.rope);
        saturate_u32(l)
    }

    /// The number of bytes the text takes in UTF-8.
    pub fn byte_count(&self) -> (n: usize)
        ensures
            n == utf8_len(self.text()),
    {
        rope_len_bytes(&self.rope)
    }

    /// The number of chars in the text.
    pub fn char_count(&self) -> (n: usize)
        ensures
            n == self.text().len(),
    {
        rope_len_chars(&self.rope)
    }

    /// Line `n`, its line break included; `None` past the last line.
    pub fn line(&self, n: u32) -> (r: Option<String>)
        ensures
            (n as nat) < line_count(self.text()) <==> r is Some,
            r matches Some(s) ==> s@ == line_chars(self.text(), n as nat),
    {
        let n = n as usize;
        if n >= rope_len_lines(&self.rope) {
            return None;
        }
        let line = rope_line(&self.rope, n);
        Some(slice_to_string(&line))
    }

    /// The length of line `n` for cursor placement: a final `\n` or `\r`
    /// does not count. 0 past the last line.
    pub fn line_len_chars(&self, n: u32) -> (len: u32)
        ensures
            len == spec_line_len(self.text(), n as nat),
    {
        let n = n as usize;
        if n >= rope_len_lines(&self.rope) {
            return 0;
        }
        let line = rope_line(&self.rope, n);
        let mut len = slice_len_chars(&line);
        match slice_last_char(&line) {
            Some(c) => {
                if c == '\n' || c == '\r' {
                    len = len - 1;
                }
            },
            None => {},
        }
        saturate_u32(len)
    }

    /// Clamp a position to valid coordinates inside this buffer.
    pub fn clamp(&self, pos: Position) -> (p: Position)
        ensures
            p == spec_clamp(self.text(), pos),
    {
        let count = self.line_count();
        let last = if count >= 1 { count - 1 } else { 0 };
        let line = if pos.line <= last { pos.line } else { last };
        let len = self.line_len_chars(line);
        let col = if pos.column <= len { pos.column } else { len };
        Position::new(line, col)
    }

    /// The char index of `pos`: its line's start plus its column, the column
    /// capped at the line's length. A missing line is an error.
    pub fn position_to_char(&self, pos: Position) -> (r: Result<usize, BufferError>)
        ensures
            lines_wf(self.text(), line_count(self.text())),
            r is Ok <==> resolve(self.text(), pos) is Some,
            r matches Ok(c) ==> c == resolve(self.text(), pos).unwrap(),
            r matches Err(e) ==> e == invalid_position(self.text(), pos),
    {
        let line = pos.line as usize;
        let n = rope_len_lines(&self.rope);
        if line >= n {
            return Err(
                BufferError::InvalidPosition {
                    line: pos.line,
                    column: pos.column,
                    total_lines: self.line_count(),
                },
            );
        }
        proof {
            lemma_line_len(self.text(), n as nat, line as nat);
        }
        let line_start = rope_line_to_char(&self.rope, line);
        let line_slice = rope_line(&self.rope, line);
        let max_col = slice_len_chars(&line_slice);
        let col = if (pos.column as usize) <= max_col { pos.column as usize } else { max_col };
        Ok(line_start + col)
    }

    /// The position of char index `ch`: the line it falls on and its
    /// distance from that line's start. An index past the end falls on the
    /// last line.
    pub fn char_to_position(&self, ch: usize) -> (p: Position)
        ensures
            p == locate(self.text(), ch as nat),
            self.text().len() <= usize::MAX,
    {
        let len = rope_len_chars(&self.rope);
        let c = if ch <= len { ch } else { len };
        let line = rope_char_to_line(&self.rope, c);
        let line_start = rope_line_to_char(&self.rope, line);
        let col = if ch >= line_start { ch - line_start } else { 0 };
        Position::new(saturate_u32(line), saturate_u32(col))
    }

    /// The text in `range`, taken in order.
    pub fn slice(&self, range: Range) -> (r: Result<String, BufferError>)
        ensures
            ({
                let n = spec_normalized(range);
                &&& r is Ok <==> (resolve(self.text(), n.start) is Some && resolve(
                    self.text(),
                    n.end,
                ) is Some)
                &&& r matches Ok(s) ==> s@ == self.text().subrange(
                    resolve(self.text(), n.start).unwrap() as int,
                    resolve(self.text(), n.end).unwrap() as int,
                )
                &&& r matches Err(e) ==> e == (if resolve(self.text(), n.start) is None {
                    invalid_position(self.text(), n.start)
                } else {
                    invalid_position(self.text(), n.end)
                })
            }),
    {
        let r = range.normalized();
        let a = match self.position_to_char(r.start) {
            Ok(c) => c,
            Err(e) => return Err(e),
        };
        let b = match self.position_to_char(r.end) {
            Ok(c) => c,
            Err(e) => return Err(e),
        };
        proof {
            crate::range::lemma_normalized_ordered(range);
            lemma_resolve_monotone(self.text(), r.start, r.end);
        }
        let s = rope_slice(&self.rope, a, b);
        Ok(slice_to_string(&s))
    }

    /// Apply `kind` over the chars `[a, b)` without touching the history.
    fn splice_in(&mut self, a: usize, b: usize, kind: &EditKind)
        requires
            a <= b <= old(self).text().len(),
        ensures
            final(self).text() == edit_text(old(self).text(), a as nat, b as nat, *kind),
            final(self).same_frame(old(self)),
            final(self).undo == old(self).undo,
            final(self).modified == old(self).modified,
    {
        match kind {
            EditKind::Insert { text } => {
                rope_insert(&mut self.rope, a, text.as_str());
            },
            EditKind::Delete => {
                rope_remove(&mut self.rope, a, b);
            },
            EditKind::Replace { text } => {
                rope_remove(&mut self.rope, a, b);
                rope_insert(&mut self.rope, a, text.as_str());
                assert(self.text() =~= edit_text(old(self).text(), a as nat, b as nat, *kind));
            },
        }
    }

    /// Replay `e` on the text, without touching the history.
    fn replay_edit(&mut self, e: &Edit) -> (r: Result<(), BufferError>)
        ensures
            r is Ok <==> replay(old(self).text(), *e) is Some,
            r is Ok ==> Some(final(self).text()) == replay(old(self).text(), *e),
            r matches Err(x) ==> x == replay_error(old(self).text(), *e) && *final(self) == *old(
                self,
            ),
            final(self).same_frame(old(self)),
            final(self).undo == old(self).undo,
            final(self).modified == old(self).modified,
    {
        let r = e.range.normalized();
        let a = match self.position_to_char(r.start) {
            Ok(c) => c,
            Err(x) => return Err(x),
        };
        let b = match self.position_to_char(r.end) {
            Ok(c) => c,
            Err(x) => return Err(x),
        };
        proof {
            crate::range::lemma_normalized_ordered(e.range);
            lemma_resolve_monotone(self.text(), r.start, r.end);
        }
        self.splice_in(a, b, &e.kind);
        Ok(())
    }

    /// Apply `edit`, record it with the edit that undoes it, and abandon any
    /// redo history. The recorded reverse edit covers exactly what was put
    /// in and puts back exactly what was taken out.
    pub fn apply(&mut self, edit: &Edit) -> (r: Result<UndoEntry, BufferError>)
        ensures
            r is Ok <==> replay(old(self).text(), *edit) is Some,
            r matches Err(e) ==> e == replay_error(old(self).text(), *edit) && *final(self)
                == *old(self),
            r matches Ok(entry) ==> {
                &&& Some(final(self).text()) == replay(old(self).text(), *edit)
                &&& entry.applied == *edit
                &&& is_reverse(old(self).text(), *edit, entry.reverse)
                &&& final(self).undo.spec_undo() == old(self).undo.spec_undo().push(entry)
                &&& final(self).undo.spec_redo() == Seq::<UndoEntry>::empty()
                &&& final(self).modified
                &&& final(self).same_frame(old(self))
            },
    {
        let range = edit.range.normalized();
        let start_char = match self.position_to_char(range.start) {
            Ok(c) => c,
            Err(e) => return Err(e),
        };
        let end_char = match self.position_to_char(range.end) {
            Ok(c) => c,
            Err(e) => return Err(e),
        };
        proof {
            crate::range::lemma_normalized_ordered(edit.range);
            lemma_resolve_monotone(self.text(), range.start, range.end);
        }
        let ghost before = self.text();
        let previous = rope_slice(&self.rope, start_char, end_char);
        let previous_text = slice_to_string(&previous);
        let inserted_len: usize;
        let reverse_kind: EditKind;
        match &edit.kind {
            EditKind::Insert { text } => {
                rope_insert(&mut self.rope, start_char, text.as_str());
                inserted_len = text.as_str().unicode_len();
                reverse_kind = EditKind::Delete;
            },
            EditKind::Delete => {
                rope_remove(&mut self.rope, start_char, end_char);
                inserted_len = 0;
                reverse_kind = EditKind::Insert { text: previous_text.clone() };
            },
            EditKind::Replace { text } => {
                rope_remove(&mut self.rope, start_char, end_char);
                rope_insert(&mut self.rope, start_char, text.as_str());
                inserted_len = text.as_str().unicode_len();
                reverse_kind = EditKind::Replace { text: previous_text.clone() };
            },
        }
        self.modified = true;
        assert(self.text() =~= edit_text(before, start_char as nat, end_char as nat, edit.kind));
        let start_pos = self.char_to_position(start_char);
        assert(start_char + inserted_len <= self.text().len()) by {
            match edit.kind {
                EditKind::Insert { text } => {},
                EditKind::Delete => {},
                EditKind::Replace { text } => {},
            }
        }
        let reverse_end_char = start_char + inserted_len;
        let reverse_range = Range::new(start_pos, self.char_to_position(reverse_end_char));
        let reverse_edit = Edit { range: reverse_range, kind: reverse_kind };
        let entry = UndoEntry { applied: edit.duplicate(), reverse: reverse_edit };
        self.undo.push(entry.duplicate());
        Ok(entry)
    }

    /// Undo the newest recorded edit: it moves to the redo history and its
    /// reverse edit is replayed on the text.
    pub fn undo(&mut self) -> (r: Result<UndoEntry, BufferError>)
        ensures
            final(self).same_frame(old(self)),
            old(self).undo.spec_undo().len() == 0 ==> (r matches Err(e) && e is NothingToUndo
                && final(self).unchanged(old(self))),
            old(self).undo.spec_undo().len() > 0 ==> ({
                let entry = old(self).undo.spec_undo().last();
                &&& final(self).undo.spec_undo() == old(self).undo.spec_undo().drop_last()
                &&& final(self).undo.spec_redo() == old(self).undo.spec_redo().push(entry)
                &&& replay(old(self).text(), entry.reverse) is None ==> (r matches Err(e) && e
                    == replay_error(old(self).text(), entry.reverse) && final(self).text() == old(
                    self,
                ).text() && final(self).modified == old(self).modified)
                &&& replay(old(self).text(), entry.reverse) is Some ==> r == Ok::<
                    UndoEntry,
                    BufferError,
                >(entry) && Some(final(self).text()) == replay(old(self).text(), entry.reverse)
                    && final(self).modified
            }),
    {
        let entry = match self.undo.pop_undo() {
            None => return Err(BufferError::NothingToUndo),
            Some(e) => e,
        };
        match self.replay_edit(&entry.reverse) {
            Err(x) => return Err(x),
            Ok(()) => {},
        }
        self.modified = true;
        Ok(entry)
    }

    /// Redo the newest undone edit: it moves back to the undo history and is
    /// replayed on the text.
    pub fn redo(&mut self) -> (r: Result<UndoEntry, BufferError>)
        ensures
            final(self).same_frame(old(self)),
            old(self).undo.spec_redo().len() == 0 ==> (r matches Err(e) && e is NothingToRedo
                && final(self).unchanged(old(self))),
            old(self).undo.spec_redo().len() > 0 ==> ({
                let entry = old(self).undo.spec_redo().last();
                &&& final(self).undo.spec_redo() == old(self).undo.spec_redo().drop_last()
                &&& final(self).undo.spec_undo() == old(self).undo.spec_undo().push(entry)
                &&& replay(old(self).text(), entry.applied) is None ==> (r matches Err(e) && e
                    == replay_error(old(self).text(), entry.applied) && final(self).text() == old(
                    self,
                ).text() && final(self).modified == old(self).modified)
                &&& replay(old(self).text(), entry.applied) is Some ==> r == Ok::<
                    UndoEntry,
                    BufferError,
                >(entry) && Some(final(self).text()) == replay(old(self).text(), entry.applied)
                    && final(self).modified
            }),
    {
        let entry = match self.undo.pop_redo() {
            None => return Err(BufferError::NothingToRedo),
            Some(e) => e,
        };
        match self.replay_edit(&entry.applied) {
            Err(x) => return Err(x),
            Ok(()) => {},
        }
        self.modified = true;
        Ok(entry)
    }

    /// The whole text.
    pub fn to_string(&self) -> (s: String)
        ensures
            s@ == self.text(),
    {
        rope_to_string(&self.rope)
    }
}

/// What a buffer listing shows of one buffer.
#[derive(Debug, Clone, PartialEq, Eq)]
pub struct BufferSummary {
    pub id: BufferId,
    pub path: Option<String>,
    pub line_count: u32,
    pub modified: bool,
}

} // verus!
