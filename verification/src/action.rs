//! Fully-resolved editor actions — what the keymap emits and the buffer
//! consumes — and the total classifiers every consumer reads.

use vstd::prelude::*;
use crate::edit::Edit;
use crate::mode::Mode;
use crate::motion::{Motion, Operator, TextObject};

verus! {

/// Which way a search runs.
#[derive(Debug, Clone, Copy, PartialEq, Eq, Structural, Hash)]
pub enum SearchDirection {
    Forward,
    Backward,
}

/// Where a caret inside an open prompt moves.
#[derive(Debug, Clone, Copy, PartialEq, Eq, Structural, Hash)]
pub enum CaretMove {
    Left,
    Right,
    Start,
    End,
}

/// Where the caret lands when Insert mode is entered — vim's `i` `I` `a`
/// `A` `o` `O`.
#[derive(Debug, Clone, Copy, PartialEq, Eq, Structural)]
pub enum InsertAt {
    /// `i` — before the caret.
    Caret,
    /// `I` — the first non-blank character of the line.
    FirstNonBlank,
    /// `a` — one column right of the caret.
    AfterCaret,
    /// `A` — one column past the last character of the line.
    LineEnd,
    /// `o` — a fresh line below.
    OpenBelow,
    /// `O` — a fresh line above.
    OpenAbove,
}

/// Where `zt` / `zz` / `zb` put the cursor's line on screen.
#[derive(Debug, Clone, Copy, PartialEq, Eq, Structural)]
pub enum ViewAlign {
    Top,
    Center,
    Bottom,
}

impl ViewAlign {
    /// The stable label.
    pub fn label(self) -> (s: &'static str)
        ensures
            s@ == (match self {
                ViewAlign::Top => "scroll-top"@,
                ViewAlign::Center => "scroll-center"@,
                ViewAlign::Bottom => "scroll-bottom"@,
            }),
    {
        match self {
            ViewAlign::Top => "scroll-top",
            ViewAlign::Center => "scroll-center",
            ViewAlign::Bottom => "scroll-bottom",
        }
    }
}

impl InsertAt {
    /// Does this entry add a line to the buffer? Only `o` and `O` do.
    pub fn opens_a_line(self) -> (b: bool)
        ensures
            b == (self == InsertAt::OpenBelow || self == InsertAt::OpenAbove),
    {
        matches!(self, InsertAt::OpenBelow | InsertAt::OpenAbove)
    }

    /// The stable label.
    pub fn as_str(self) -> (s: &'static str)
        ensures
            s@ == (match self {
                InsertAt::Caret => "caret"@,
                InsertAt::FirstNonBlank => "first-non-blank"@,
                InsertAt::AfterCaret => "after-caret"@,
                InsertAt::LineEnd => "line-end"@,
                InsertAt::OpenBelow => "open-below"@,
                InsertAt::OpenAbove => "open-above"@,
            }),
    {
        match self {
            InsertAt::Caret => "caret",
            InsertAt::FirstNonBlank => "first-non-blank",
            InsertAt::AfterCaret => "after-caret",
            InsertAt::LineEnd => "line-end",
            InsertAt::OpenBelow => "open-below",
            InsertAt::OpenAbove => "open-above",
        }
    }

    /// Every entry, in order.
    pub fn all() -> (v: Vec<InsertAt>)
        ensures
            v@ == seq![
                InsertAt::Caret,
                InsertAt::FirstNonBlank,
                InsertAt::AfterCaret,
                InsertAt::LineEnd,
                InsertAt::OpenBelow,
                InsertAt::OpenAbove,
            ],
    {
        vec![
            InsertAt::Caret,
            InsertAt::FirstNonBlank,
            InsertAt::AfterCaret,
            InsertAt::LineEnd,
            InsertAt::OpenBelow,
            InsertAt::OpenAbove,
        ]
    }
}

/// A fully-resolved editor action.
#[derive(Debug, Clone, PartialEq, Eq)]
pub enum Action {
    Move(Motion),
    Operator(Operator),
    ApplyOperator { op: Operator, motion: Motion },
    Edit(Edit),
    ChangeMode(Mode),
    EnterInsert(InsertAt),
    Command { name: String, args: Vec<String> },
    InsertChar(char),
    SubmitCommand,
    Undo,
    Redo,
    Save,
    Quit,
    SearchOpen(SearchDirection),
    SearchRepeat { reverse: bool },
    SearchWord { reverse: bool },
    ClearSearchHighlight,
    SearchSubmitOperated { op: Operator },
    TextObject(TextObject),
    ApplyOperatorObject { op: Operator, object: TextObject },
    Put { before: bool },
    ReplaceChar(char),
    JoinLines { space: bool },
    RepeatLastChange,
    JumpBack,
    JumpForward,
    SetMark(char),
    ScrollView(ViewAlign),
    Backspace,
    PromptCaret { to: CaretMove },
    SearchPreviewStep { forward: bool },
    DeleteForward,
    DeleteWordBefore,
    DeleteToLineStart,
    PromptHistory { back: bool },
    Pending,
}

/// A copy of `v`, string for string.
pub fn copy_strings(v: &Vec<String>) -> (r: Vec<String>)
    ensures
        r@ == v@,
{
    let mut r: Vec<String> = Vec::new();
    let mut i: usize = 0;
    while i < v.len()
        invariant
            i <= v@.len(),
            r@ == v@.subrange(0, i as int),
        decreases v@.len() - i,
    {
        r.push(v[i].clone());
        i += 1;
        assert(r@ =~= v@.subrange(0, i as int));
    }
    assert(r@ =~= v@);
    r
}

/// `a` and `b` are the same action: equal, with a command's arguments
/// compared by their contents.
pub open spec fn same_action(a: Action, b: Action) -> bool {
    match (a, b) {
        (Action::Command { name: n1, args: a1 }, Action::Command { name: n2, args: a2 }) => n1 == n2
            && a1@ == a2@,
        _ => a == b,
    }
}

impl Action {
    /// A copy holding the same action.
    pub fn duplicate(&self) -> (r: Self)
        ensures
            same_action(r, *self),
    {
        match self {
            Action::Edit(e) => {
                Action::Edit(e.duplicate())
            },
            Action::Command { name, args } => Action::Command { name: name.clone(), args: copy_strings(args) },
            Action::Move(m) => Action::Move(*m),
            Action::Operator(o) => Action::Operator(*o),
            Action::ApplyOperator { op, motion } => Action::ApplyOperator { op: *op, motion: *motion },
            Action::ChangeMode(m) => Action::ChangeMode(*m),
            Action::EnterInsert(a) => Action::EnterInsert(*a),
            Action::InsertChar(c) => Action::InsertChar(*c),
            Action::SubmitCommand => Action::SubmitCommand,
            Action::Undo => Action::Undo,
            Action::Redo => Action::Redo,
            Action::Save => Action::Save,
            Action::Quit => Action::Quit,
            Action::SearchOpen(d) => Action::SearchOpen(*d),
            Action::SearchRepeat { reverse } => Action::SearchRepeat { reverse: *reverse },
            Action::SearchWord { reverse } => Action::SearchWord { reverse: *reverse },
            Action::ClearSearchHighlight => Action::ClearSearchHighlight,
            Action::SearchSubmitOperated { op } => Action::SearchSubmitOperated { op: *op },
            Action::TextObject(t) => Action::TextObject(*t),
            Action::ApplyOperatorObject { op, object } => Action::ApplyOperatorObject { op: *op, object: *object },
            Action::Put { before } => Action::Put { before: *before },
            Action::ReplaceChar(c) => Action::ReplaceChar(*c),
            Action::JoinLines { space } => Action::JoinLines { space: *space },
            Action::RepeatLastChange => Action::RepeatLastChange,
            Action::JumpBack => Action::JumpBack,
            Action::JumpForward => Action::JumpForward,
            Action::SetMark(c) => Action::SetMark(*c),
            Action::ScrollView(a) => Action::ScrollView(*a),
            Action::Backspace => Action::Backspace,
            Action::PromptCaret { to } => Action::PromptCaret { to: *to },
            Action::SearchPreviewStep { forward } => Action::SearchPreviewStep { forward: *forward },
            Action::DeleteForward => Action::DeleteForward,
            Action::DeleteWordBefore => Action::DeleteWordBefore,
            Action::DeleteToLineStart => Action::DeleteToLineStart,
            Action::PromptHistory { back } => Action::PromptHistory { back: *back },
            Action::Pending => Action::Pending,
        }
    }
}

/// An action with a repetition count (vim's `5dd`).
#[derive(Debug, Clone, PartialEq, Eq)]
pub struct CountedAction {
    pub count: u32,
    pub action: Action,
}

impl CountedAction {
    pub fn once(action: Action) -> (c: Self)
        ensures
            c.count == 1,
            c.action == action,
    {
        Self { count: 1, action }
    }

    /// `count` copies, with a zero count raised to one.
    pub fn repeated(count: u32, action: Action) -> (c: Self)
        ensures
            c.count == (if count == 0 { 1 } else { count }),
            c.action == action,
    {
        Self { count: if count == 0 { 1 } else { count }, action }
    }
}

/// Whether an action can change buffer text.
#[derive(Clone, Copy, Debug, PartialEq, Eq, Structural)]
pub enum TextEffect {
    /// May edit the active buffer.
    Mutates,
    /// Cannot edit the active buffer.
    Preserves,
}

/// What an action does to search highlighting.
#[derive(Clone, Copy, Debug, PartialEq, Eq, Structural)]
pub enum HighlightEffect {
    Keep,
    Clear,
}

/// Which actions may edit text: every editing action, plus those whose
/// reach is open-ended (`Command`, `SubmitCommand`, `Put`); `EnterInsert`
/// only for `o`/`O`.
pub open spec fn spec_text_effect(a: Action) -> TextEffect {
    match a {
        Action::Edit(_) | Action::InsertChar(_) | Action::ApplyOperator { .. }
        | Action::ApplyOperatorObject { .. } | Action::Undo | Action::Redo | Action::Backspace
        | Action::DeleteForward | Action::DeleteWordBefore | Action::DeleteToLineStart
        | Action::TextObject(_) | Action::Command { .. } | Action::SearchSubmitOperated { .. }
        | Action::RepeatLastChange | Action::Put { .. } | Action::ReplaceChar(_)
        | Action::JoinLines { .. } | Action::SubmitCommand => TextEffect::Mutates,
        Action::EnterInsert(at) => if at == InsertAt::OpenBelow || at == InsertAt::OpenAbove {
            TextEffect::Mutates
        } else {
            TextEffect::Preserves
        },
        _ => TextEffect::Preserves,
    }
}

/// Which actions end a search's highlighting: entering Insert, every
/// non-search motion, and every text change.
pub open spec fn spec_highlight_effect(a: Action) -> HighlightEffect {
    match a {
        Action::ChangeMode(m) => if m == Mode::Insert {
            HighlightEffect::Clear
        } else {
            HighlightEffect::Keep
        },
        Action::EnterInsert(_) => HighlightEffect::Clear,
        Action::Move(m) => if m == Motion::SearchNext || m == Motion::SearchPrev {
            HighlightEffect::Keep
        } else {
            HighlightEffect::Clear
        },
        Action::ApplyOperator { .. } | Action::ApplyOperatorObject { .. } | Action::RepeatLastChange
        | Action::Edit(_) | Action::Command { .. } | Action::Put { .. } | Action::ReplaceChar(_)
        | Action::JoinLines { .. } | Action::Undo | Action::Redo => HighlightEffect::Clear,
        _ => HighlightEffect::Keep,
    }
}

/// The actions that edit or navigate an open prompt.
pub open spec fn spec_edits_prompt(a: Action) -> bool {
    match a {
        Action::InsertChar(_) | Action::Backspace | Action::PromptHistory { .. }
        | Action::PromptCaret { .. } | Action::DeleteForward | Action::DeleteWordBefore
        | Action::DeleteToLineStart | Action::SearchPreviewStep { .. } => true,
        _ => false,
    }
}

impl Action {
    /// Classify this action's effect on buffer text. Conservative where
    /// an action's reach is open-ended.
    pub fn text_effect(&self) -> (e: TextEffect)
        ensures
            e == spec_text_effect(*self),
    {
        match self {
            Action::Edit(_)
            | Action::InsertChar(_)
            | Action::ApplyOperator { .. }
            | Action::ApplyOperatorObject { .. }
            | Action::Undo
            | Action::Redo
            | Action::Backspace
            | Action::DeleteForward
            | Action::DeleteWordBefore
            | Action::DeleteToLineStart
            | Action::TextObject(_)
            | Action::Command { .. }
            | Action::SearchSubmitOperated { .. }
            | Action::RepeatLastChange
            | Action::Put { .. }
            | Action::ReplaceChar(_)
            | Action::JoinLines { .. }
            | Action::SubmitCommand => TextEffect::Mutates,
            Action::EnterInsert(at) => {
                if at.opens_a_line() {
                    TextEffect::Mutates
                } else {
                    TextEffect::Preserves
                }
            },
            Action::Move(_)
            | Action::Operator(_)
            | Action::ChangeMode(_)
            | Action::Save
            | Action::Quit
            | Action::SearchOpen(_)
            | Action::SearchRepeat { .. }
            | Action::SearchWord { .. }
            | Action::ClearSearchHighlight
            | Action::JumpBack
            | Action::JumpForward
            | Action::PromptCaret { .. }
            | Action::PromptHistory { .. }
            | Action::SearchPreviewStep { .. }
            | Action::SetMark(_)
            | Action::ScrollView(_)
            | Action::Pending => TextEffect::Preserves,
        }
    }

    /// Classify this action's effect on search highlighting.
    pub fn highlight_effect(&self) -> (e: HighlightEffect)
        ensures
            e == spec_highlight_effect(*self),
    {
        match self {
            Action::SearchOpen(_)
            | Action::SearchRepeat { .. }
            | Action::SearchWord { .. }
            | Action::SearchSubmitOperated { .. }
            | Action::ClearSearchHighlight
            | Action::TextObject(_)
            | Action::SearchPreviewStep { .. }
            | Action::PromptHistory { .. }
            | Action::Backspace
            | Action::PromptCaret { .. }
            | Action::DeleteForward
            | Action::DeleteWordBefore
            | Action::DeleteToLineStart
            | Action::InsertChar(_)
            | Action::SubmitCommand
            | Action::Pending
            | Action::JumpBack
            | Action::JumpForward
            | Action::Operator(_)
            | Action::SetMark(_)
            | Action::ScrollView(_)
            | Action::Save
            | Action::Quit => HighlightEffect::Keep,
            Action::ChangeMode(m) => match m {
                Mode::Insert => HighlightEffect::Clear,
                Mode::Normal | Mode::Visual | Mode::VisualLine | Mode::Command => {
                    HighlightEffect::Keep
                },
            },
            Action::EnterInsert(_) => HighlightEffect::Clear,
            Action::Move(m) => match m {
                Motion::SearchNext | Motion::SearchPrev => HighlightEffect::Keep,
                _ => HighlightEffect::Clear,
            },
            Action::ApplyOperator { .. }
            | Action::ApplyOperatorObject { .. }
            | Action::RepeatLastChange
            | Action::Edit(_)
            | Action::Command { .. }
            | Action::Put { .. }
            | Action::ReplaceChar(_)
            | Action::JoinLines { .. }
            | Action::Undo
            | Action::Redo => HighlightEffect::Clear,
        }
    }

    /// Does this action edit or navigate an open prompt rather than the
    /// buffer?
    pub fn edits_prompt(&self) -> (b: bool)
        ensures
            b == spec_edits_prompt(*self),
    {
        match self {
            Action::InsertChar(_)
            | Action::Backspace
            | Action::PromptHistory { .. }
            | Action::PromptCaret { .. }
            | Action::DeleteForward
            | Action::DeleteWordBefore
            | Action::DeleteToLineStart
            | Action::SearchPreviewStep { .. } => true,
            Action::Move(_)
            | Action::Operator(_)
            | Action::ApplyOperator { .. }
            | Action::ApplyOperatorObject { .. }
            | Action::TextObject(_)
            | Action::Edit(_)
            | Action::ChangeMode(_)
            | Action::EnterInsert(_)
            | Action::Command { .. }
            | Action::SubmitCommand
            | Action::Put { .. }
            | Action::ReplaceChar(_)
            | Action::JoinLines { .. }
            | Action::Undo
            | Action::Redo
            | Action::Save
            | Action::Quit
            | Action::SearchOpen(_)
            | Action::SearchRepeat { .. }
            | Action::SearchWord { .. }
            | Action::SearchSubmitOperated { .. }
            | Action::ClearSearchHighlight
            | Action::RepeatLastChange
            | Action::JumpBack
            | Action::JumpForward
            | Action::SetMark(_)
            | Action::ScrollView(_)
            | Action::Pending => false,
        }
    }
}

/// Every action that edits an open prompt is one that keeps the search
/// highlighting lit — composing a pattern never extinguishes the matches.
pub proof fn lemma_prompt_edits_keep_highlight(a: Action)
    requires
        spec_edits_prompt(a),
    ensures
        spec_highlight_effect(a) == HighlightEffect::Keep,
{
}

/// Every action that clears the highlight is a departure from searching:
/// it either changes text, enters Insert, or moves by a non-search motion.
pub proof fn lemma_clear_means_departure(a: Action)
    requires
        spec_highlight_effect(a) == HighlightEffect::Clear,
    ensures
        spec_text_effect(a) == TextEffect::Mutates || a is EnterInsert || a is Move || a
            == Action::ChangeMode(Mode::Insert),
{
}

} // verus!
