//! Cursor motions, operators, and text objects — the vocabulary the
//! keymap compiles keys to.

use vstd::prelude::*;
use crate::register::RegisterKind;

verus! {

/// Cursor motions. Text motions are vim's; structural motions are the
/// paredit-style Lisp ones.
#[derive(Debug, Clone, Copy, PartialEq, Eq, Structural, Hash)]
pub enum Motion {
    Left,
    Right,
    Up,
    Down,
    WordStartNext,
    WordEndNext,
    WordStartPrev,
    /// `ge` — to the end of the previous word (backward-inclusive).
    WordEndPrev,
    BigWordStartNext,
    BigWordEndNext,
    BigWordStartPrev,
    BigWordEndPrev,
    LineStart,
    LineFirstNonBlank,
    /// `g_` — the last non-blank on the line. Inclusive, unlike `$`.
    LineLastNonBlank,
    LineEnd,
    /// `|` — to a 1-based screen column on the current line.
    Column(u32),
    /// `+` / `<CR>` — first non-blank of the next line.
    LineDownFirstNonBlank,
    /// `-` — first non-blank of the previous line.
    LineUpFirstNonBlank,
    /// `_` — count-1 lines downward, on the first non-blank. Linewise.
    LinewiseDown,
    DocStart,
    DocEnd,
    /// `f{c}` / `t{c}` / `F{c}` / `T{c}`.
    FindChar { ch: char, backward: bool, till: bool },
    /// `;` / `,` — repeat the last find.
    RepeatFind { reverse: bool },
    /// `%` — to the match of the bracket under the cursor.
    MatchPair,
    /// `` `{a-z} `` — to a mark's exact line and column.
    MarkExact(char),
    /// `'{a-z}` — to the first non-blank of a mark's line.
    MarkLine(char),
    ParagraphNext,
    ParagraphPrev,
    SentenceNext,
    SentencePrev,
    ScreenTop,
    ScreenMiddle,
    ScreenBottom,
    PageUp,
    PageDown,
    HalfPageUp,
    HalfPageDown,
    GotoLine(u32),
    ForwardSexp,
    BackwardSexp,
    UpList,
    DownList,
    BeginningOfDefun,
    EndOfDefun,
    BeginningOfSexp,
    EndOfSexp,
    /// To the next search match (`n` as a motion).
    SearchNext,
    /// To the previous search match (`N` as a motion).
    SearchPrev,
}

/// Does an operator over this motion act on the target character too?
/// `e`, `E`, `g_`, `%`, `f`/`t` forward, and `ge`/`gE` do.
pub open spec fn spec_is_inclusive(m: Motion) -> bool {
    match m {
        Motion::WordEndNext | Motion::BigWordEndNext | Motion::LineLastNonBlank | Motion::MatchPair
        | Motion::WordEndPrev | Motion::BigWordEndPrev => true,
        Motion::FindChar { backward, .. } => !backward,
        _ => false,
    }
}

/// Does an operator over this motion act on whole lines?
pub open spec fn spec_is_linewise(m: Motion) -> bool {
    match m {
        Motion::Up | Motion::Down | Motion::DocStart | Motion::DocEnd | Motion::GotoLine(_)
        | Motion::ScreenTop | Motion::ScreenMiddle | Motion::ScreenBottom
        | Motion::LineDownFirstNonBlank | Motion::LineUpFirstNonBlank | Motion::LinewiseDown
        | Motion::MarkLine(_) | Motion::PageUp | Motion::PageDown | Motion::HalfPageUp
        | Motion::HalfPageDown => true,
        _ => false,
    }
}

/// Is this one of the structural (s-expression) motions?
pub open spec fn spec_motion_is_structural(m: Motion) -> bool {
    match m {
        Motion::ForwardSexp | Motion::BackwardSexp | Motion::UpList | Motion::DownList
        | Motion::BeginningOfDefun | Motion::EndOfDefun | Motion::BeginningOfSexp
        | Motion::EndOfSexp => true,
        _ => false,
    }
}

impl Motion {
    /// vim's exclusive/inclusive split: does the operator act on the
    /// character the motion lands on?
    pub fn is_inclusive(self) -> (b: bool)
        ensures
            b == spec_is_inclusive(self),
    {
        match self {
            Motion::WordEndNext
            | Motion::BigWordEndNext
            | Motion::LineLastNonBlank
            | Motion::MatchPair
            | Motion::FindChar { backward: false, .. }
            | Motion::WordEndPrev
            | Motion::BigWordEndPrev => true,
            Motion::Left
            | Motion::Right
            | Motion::Up
            | Motion::Down
            | Motion::WordStartNext
            | Motion::WordStartPrev
            | Motion::BigWordStartNext
            | Motion::BigWordStartPrev
            | Motion::LineStart
            | Motion::LineFirstNonBlank
            | Motion::LineEnd
            | Motion::Column(_)
            | Motion::LineDownFirstNonBlank
            | Motion::LineUpFirstNonBlank
            | Motion::LinewiseDown
            | Motion::DocStart
            | Motion::DocEnd
            | Motion::GotoLine(_)
            | Motion::FindChar { backward: true, .. }
            | Motion::RepeatFind { .. }
            | Motion::MarkExact(_)
            | Motion::MarkLine(_)
            | Motion::ParagraphNext
            | Motion::ParagraphPrev
            | Motion::SentenceNext
            | Motion::SentencePrev
            | Motion::ScreenTop
            | Motion::ScreenMiddle
            | Motion::ScreenBottom
            | Motion::PageUp
            | Motion::PageDown
            | Motion::HalfPageUp
            | Motion::HalfPageDown
            | Motion::ForwardSexp
            | Motion::BackwardSexp
            | Motion::UpList
            | Motion::DownList
            | Motion::BeginningOfDefun
            | Motion::EndOfDefun
            | Motion::BeginningOfSexp
            | Motion::EndOfSexp
            | Motion::SearchNext
            | Motion::SearchPrev => false,
        }
    }

    /// Does an operator over this motion act on whole lines?
    pub fn is_linewise(self) -> (b: bool)
        ensures
            b == spec_is_linewise(self),
    {
        match self {
            Motion::Up
            | Motion::Down
            | Motion::DocStart
            | Motion::DocEnd
            | Motion::GotoLine(_)
            | Motion::ScreenTop
            | Motion::ScreenMiddle
            | Motion::ScreenBottom
            | Motion::LineDownFirstNonBlank
            | Motion::LineUpFirstNonBlank
            | Motion::LinewiseDown
            | Motion::MarkLine(_)
            | Motion::PageUp
            | Motion::PageDown
            | Motion::HalfPageUp
            | Motion::HalfPageDown => true,
            Motion::Left
            | Motion::Right
            | Motion::WordStartNext
            | Motion::WordEndNext
            | Motion::WordStartPrev
            | Motion::WordEndPrev
            | Motion::BigWordStartNext
            | Motion::BigWordEndNext
            | Motion::BigWordStartPrev
            | Motion::BigWordEndPrev
            | Motion::LineStart
            | Motion::LineFirstNonBlank
            | Motion::LineLastNonBlank
            | Motion::LineEnd
            | Motion::Column(_)
            | Motion::FindChar { .. }
            | Motion::RepeatFind { .. }
            | Motion::MatchPair
            | Motion::MarkExact(_)
            | Motion::ParagraphNext
            | Motion::ParagraphPrev
            | Motion::SentenceNext
            | Motion::SentencePrev
            | Motion::ForwardSexp
            | Motion::BackwardSexp
            | Motion::UpList
            | Motion::DownList
            | Motion::BeginningOfDefun
            | Motion::EndOfDefun
            | Motion::BeginningOfSexp
            | Motion::EndOfSexp
            | Motion::SearchNext
            | Motion::SearchPrev => false,
        }
    }

    pub fn is_structural(self) -> (b: bool)
        ensures
            b == spec_motion_is_structural(self),
    {
        matches!(
            self,
            Motion::ForwardSexp | Motion::BackwardSexp | Motion::UpList | Motion::DownList
                | Motion::BeginningOfDefun | Motion::EndOfDefun | Motion::BeginningOfSexp
                | Motion::EndOfSexp
        )
    }
}

/// No motion is both linewise and inclusive: the two are distinct kinds.
pub proof fn lemma_linewise_excludes_inclusive(m: Motion)
    ensures
        !(spec_is_linewise(m) && spec_is_inclusive(m)),
        spec_motion_is_structural(m) ==> !spec_is_linewise(m) && !spec_is_inclusive(m),
{
}

/// Operators — vim-style verbs, plus the structural (paredit) ones.
#[derive(Debug, Clone, Copy, PartialEq, Eq, Structural, Hash)]
pub enum Operator {
    Delete,
    Yank,
    Change,
    Indent,
    Dedent,
    Filter,
    Format,
    SlurpForward,
    SlurpBackward,
    BarfForward,
    BarfBackward,
    Splice,
    Wrap,
    Raise,
}

impl Operator {
    /// Does the operator leave text in the register?
    pub fn leaves_register(self) -> (b: bool)
        ensures
            b == (self == Operator::Delete || self == Operator::Yank || self == Operator::Change),
    {
        matches!(self, Operator::Delete | Operator::Yank | Operator::Change)
    }

    pub fn is_structural(self) -> (b: bool)
        ensures
            b == (match self {
                Operator::SlurpForward | Operator::SlurpBackward | Operator::BarfForward
                | Operator::BarfBackward | Operator::Splice | Operator::Wrap | Operator::Raise => true,
                _ => false,
            }),
    {
        matches!(
            self,
            Operator::SlurpForward | Operator::SlurpBackward | Operator::BarfForward
                | Operator::BarfBackward | Operator::Splice | Operator::Wrap | Operator::Raise
        )
    }
}

/// A text extent an operator can act over, as opposed to a point it moves
/// to.
#[derive(Debug, Clone, Copy, PartialEq, Eq, Structural, Hash)]
pub enum TextObject {
    /// `gn` — the next search match at or after the cursor.
    NextMatch,
    /// `gN` — the previous search match at or before the cursor.
    PrevMatch,
    /// `dd` / `cc` / `yy` — the current line, linewise.
    Line,
    /// `iw` / `aw` — the word under the cursor.
    Word { around: bool },
    /// `i(` `a{` `i"` … — the region between a matched pair.
    Delimited { open: char, close: char, around: bool },
}

impl TextObject {
    /// How an operator over this object leaves the register.
    pub fn register_kind(self) -> (k: RegisterKind)
        ensures
            k == (if self is Line { RegisterKind::Linewise } else { RegisterKind::Charwise }),
    {
        match self {
            TextObject::Line => RegisterKind::Linewise,
            TextObject::NextMatch | TextObject::PrevMatch | TextObject::Word { .. }
            | TextObject::Delimited { .. } => RegisterKind::Charwise,
        }
    }
}

} // verus!
