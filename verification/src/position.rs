//! A 0-indexed line + column pair. The column counts characters (not
//! bytes) into the line.

use vstd::prelude::*;

verus! {

/// 0-indexed line + column pair. Column is a character offset into the
/// line. Ordered by line first, then column.
#[derive(Debug, Clone, Copy, PartialEq, Eq, Structural, Hash, Default, PartialOrd, Ord)]
pub struct Position {
    pub line: u32,
    pub column: u32,
}

/// `a` comes no later than `b`: by line first, then by column.
pub open spec fn pos_le(a: Position, b: Position) -> bool {
    a.line < b.line || (a.line == b.line && a.column <= b.column)
}

/// `a` comes strictly before `b`.
pub open spec fn pos_lt(a: Position, b: Position) -> bool {
    a.line < b.line || (a.line == b.line && a.column < b.column)
}

/// The earlier of two positions.
pub open spec fn pos_min(a: Position, b: Position) -> Position {
    if pos_le(a, b) { a } else { b }
}

/// The later of two positions.
pub open spec fn pos_max(a: Position, b: Position) -> Position {
    if pos_le(a, b) { b } else { a }
}

impl Position {
    /// The origin, line 0 column 0.
    pub open spec fn zero_spec() -> Self {
        Position { line: 0, column: 0 }
    }

    pub fn zero() -> (p: Self)
        ensures
            p == Self::zero_spec(),
    {
        Self { line: 0, column: 0 }
    }

    pub fn new(line: u32, column: u32) -> (p: Self)
        ensures
            p.line == line,
            p.column == column,
    {
        Self { line, column }
    }

    /// The start of `line`.
    pub fn line(line: u32) -> (p: Self)
        ensures
            p.line == line,
            p.column == 0,
    {
        Self { line, column: 0 }
    }

    /// Moves `n` columns right, saturating at `u32::MAX`.
    pub fn shift_right(self, n: u32) -> (p: Self)
        ensures
            p.line == self.line,
            p.column == (if self.column + n > u32::MAX { u32::MAX as int } else { self.column + n }),
    {
        Self { line: self.line, column: self.column.saturating_add(n) }
    }

    /// Moves `n` columns left, saturating at 0.
    pub fn shift_left(self, n: u32) -> (p: Self)
        ensures
            p.line == self.line,
            p.column == (if self.column >= n { self.column - n } else { 0 }),
    {
        Self { line: self.line, column: self.column.saturating_sub(n) }
    }

    /// `self` comes no later than `other`.
    pub fn le(self, other: Position) -> (r: bool)
        ensures
            r == pos_le(self, other),
    {
        self.line < other.line || (self.line == other.line && self.column <= other.column)
    }

    /// `self` comes strictly before `other`.
    pub fn lt(self, other: Position) -> (r: bool)
        ensures
            r == pos_lt(self, other),
    {
        self.line < other.line || (self.line == other.line && self.column < other.column)
    }

    /// Same line and column.
    pub fn same(self, other: Position) -> (r: bool)
        ensures
            r == (self == other),
    {
        self.line == other.line && self.column == other.column
    }

    /// The 1-indexed `line:column` label a status line shows.
    pub fn label(self) -> (s: String)
        ensures
            s@ == crate::text::decimal(self.line as nat + 1) + seq![':'] + crate::text::decimal(
                self.column as nat + 1,
            ),
    {
        let mut s = crate::text::u64_to_string(self.line as u64 + 1);
        crate::text::push_char(&mut s, ':');
        let c = crate::text::u64_to_string(self.column as u64 + 1);
        crate::text::push_str(&mut s, c.as_str());
        s
    }
}

/// The order on positions is total.
pub proof fn lemma_pos_order_total(a: Position, b: Position)
    ensures
        pos_le(a, b) || pos_le(b, a),
        pos_le(a, b) && pos_le(b, a) ==> a == b,
        pos_lt(a, b) <==> (pos_le(a, b) && a != b),
{
}

/// The order on positions is transitive.
pub proof fn lemma_pos_order_transitive(a: Position, b: Position, c: Position)
    requires
        pos_le(a, b),
        pos_le(b, c),
    ensures
        pos_le(a, c),
{
}

} // verus!
