//! The keymap escriba ships: vim's motions, operators, insert entries,
//! insert- and command-mode editing, search and the jumplist.

use vstd::prelude::*;
use crate::keys::Key;
use crate::mode::Mode;
use crate::motion::{Motion, Operator, TextObject};
use crate::action::{Action, InsertAt, ViewAlign, SearchDirection, CaretMove, same_action};
use crate::keymap::Keymap;

verus! {

/// One step of the default keymap: a mode, a key, a second key for a
/// two-key sequence, the action and its description.
pub type DefaultStep = (Mode, Key, Option<Key>, Action, &'static str);

/// The default keymap's binds, in the order they are made.
pub open spec fn spec_default_steps() -> Seq<DefaultStep> {
    seq![
        (Mode::Normal, Key::Char('h'), None, Action::Move(Motion::Left), "move left"),
        (Mode::Normal, Key::Char('l'), None, Action::Move(Motion::Right), "move right"),
        (Mode::Normal, Key::Char('j'), None, Action::Move(Motion::Down), "move down"),
        (Mode::Normal, Key::Char('k'), None, Action::Move(Motion::Up), "move up"),
        (Mode::Normal, Key::Char('w'), None, Action::Move(Motion::WordStartNext), "word forward"),
        (Mode::Normal, Key::Char('b'), None, Action::Move(Motion::WordStartPrev), "word back"),
        (Mode::Normal, Key::Char('e'), None, Action::Move(Motion::WordEndNext), "word end"),
        (Mode::Normal, Key::Char('0'), None, Action::Move(Motion::LineStart), "line start"),
        (Mode::Normal, Key::Char('$'), None, Action::Move(Motion::LineEnd), "line end"),
        (Mode::Normal, Key::Char('G'), None, Action::Move(Motion::DocEnd), "doc end"),
        (Mode::Normal, Key::Char('W'), None, Action::Move(Motion::BigWordStartNext), "WORD forward"),
        (Mode::Normal, Key::Char('E'), None, Action::Move(Motion::BigWordEndNext), "WORD end"),
        (Mode::Normal, Key::Char('B'), None, Action::Move(Motion::BigWordStartPrev), "WORD back"),
        (Mode::Normal, Key::Char('^'), None, Action::Move(Motion::LineFirstNonBlank), "first non-blank"),
        (Mode::Normal, Key::Char('_'), None, Action::Move(Motion::LineFirstNonBlank), "first non-blank"),
        (Mode::Normal, Key::Char('|'), None, Action::Move(Motion::Column(1)), "to column"),
        (Mode::Normal, Key::Char('+'), None, Action::Move(Motion::LineDownFirstNonBlank), "next line, first non-blank"),
        (Mode::Normal, Key::Char('-'), None, Action::Move(Motion::LineUpFirstNonBlank), "previous line, first non-blank"),
        (Mode::Normal, Key::Char('%'), None, Action::Move(Motion::MatchPair), "matching bracket"),
        (Mode::Normal, Key::Char('}'), None, Action::Move(Motion::ParagraphNext), "next paragraph"),
        (Mode::Normal, Key::Char('{'), None, Action::Move(Motion::ParagraphPrev), "previous paragraph"),
        (Mode::Normal, Key::Char(')'), None, Action::Move(Motion::SentenceNext), "next sentence"),
        (Mode::Normal, Key::Char('('), None, Action::Move(Motion::SentencePrev), "previous sentence"),
        (Mode::Normal, Key::Char('H'), None, Action::Move(Motion::ScreenTop), "screen top"),
        (Mode::Normal, Key::Char('M'), None, Action::Move(Motion::ScreenMiddle), "screen middle"),
        (Mode::Normal, Key::Char('L'), None, Action::Move(Motion::ScreenBottom), "screen bottom"),
        (Mode::Normal, Key::Char(';'), None, Action::Move(Motion::RepeatFind { reverse: false }), "repeat find"),
        (Mode::Normal, Key::Ctrl('f'), None, Action::Move(Motion::PageDown), "page down"),
        (Mode::Normal, Key::Ctrl('b'), None, Action::Move(Motion::PageUp), "page up"),
        (Mode::Normal, Key::Ctrl('d'), None, Action::Move(Motion::HalfPageDown), "half page down"),
        (Mode::Normal, Key::Ctrl('u'), None, Action::Move(Motion::HalfPageUp), "half page up"),
        (Mode::Normal, Key::Enter, None, Action::Move(Motion::LineDownFirstNonBlank), "next line"),
        (Mode::Normal, Key::Char('z'), Some(Key::Char('t')), Action::ScrollView(ViewAlign::Top), "cursor line to top"),
        (Mode::Normal, Key::Char('z'), Some(Key::Char('z')), Action::ScrollView(ViewAlign::Center), "centre cursor line"),
        (Mode::Normal, Key::Char('z'), Some(Key::Char('b')), Action::ScrollView(ViewAlign::Bottom), "cursor line to bottom"),
        (Mode::Normal, Key::Char('g'), Some(Key::Char('g')), Action::Move(Motion::DocStart), "doc start"),
        (Mode::Normal, Key::Char('g'), Some(Key::Char('e')), Action::Move(Motion::WordEndPrev), "previous word end"),
        (Mode::Normal, Key::Char('g'), Some(Key::Char('E')), Action::Move(Motion::BigWordEndPrev), "previous WORD end"),
        (Mode::Normal, Key::Char('g'), Some(Key::Char('_')), Action::Move(Motion::LineLastNonBlank), "last non-blank"),
        (Mode::Normal, Key::Char('d'), None, Action::Operator(Operator::Delete), "delete (operator)"),
        (Mode::Normal, Key::Char('c'), None, Action::Operator(Operator::Change), "change (operator)"),
        (Mode::Normal, Key::Char('y'), None, Action::Operator(Operator::Yank), "yank (operator)"),
        (Mode::Normal, Key::Alt('f'), None, Action::Move(Motion::ForwardSexp), "forward sexp"),
        (Mode::Normal, Key::Alt('b'), None, Action::Move(Motion::BackwardSexp), "backward sexp"),
        (Mode::Normal, Key::Alt('u'), None, Action::Move(Motion::UpList), "up list"),
        (Mode::Normal, Key::Alt('d'), None, Action::Move(Motion::DownList), "down list"),
        (Mode::Normal, Key::Char('i'), None, Action::EnterInsert(InsertAt::Caret), "insert"),
        (Mode::Normal, Key::Char('I'), None, Action::EnterInsert(InsertAt::FirstNonBlank), "first non-blank"),
        (Mode::Normal, Key::Char('a'), None, Action::EnterInsert(InsertAt::AfterCaret), "append"),
        (Mode::Normal, Key::Char('A'), None, Action::EnterInsert(InsertAt::LineEnd), "append at end of line"),
        (Mode::Normal, Key::Char('o'), None, Action::EnterInsert(InsertAt::OpenBelow), "open line below"),
        (Mode::Normal, Key::Char('O'), None, Action::EnterInsert(InsertAt::OpenAbove), "open line above"),
        (Mode::Normal, Key::Char('v'), None, Action::ChangeMode(Mode::Visual), "visual"),
        (Mode::Normal, Key::Char('V'), None, Action::ChangeMode(Mode::VisualLine), "visual line"),
        (Mode::Normal, Key::Char(':'), None, Action::ChangeMode(Mode::Command), "command"),
        (Mode::Normal, Key::Char('u'), None, Action::Undo, "undo"),
        (Mode::Normal, Key::Char('.'), None, Action::RepeatLastChange, "repeat last change"),
        (Mode::Normal, Key::Ctrl('r'), None, Action::Redo, "redo"),
        (Mode::Insert, Key::Esc, None, Action::ChangeMode(Mode::Normal), "to normal"),
        (Mode::Insert, Key::Backspace, None, Action::Backspace, "erase one char"),
        (Mode::Insert, Key::Delete, None, Action::DeleteForward, "delete char at caret"),
        (Mode::Insert, Key::Ctrl('w'), None, Action::DeleteWordBefore, "erase word before caret"),
        (Mode::Insert, Key::Ctrl('u'), None, Action::DeleteToLineStart, "erase to line start"),
        (Mode::Insert, Key::Ctrl('h'), None, Action::Backspace, "erase one char"),
        (Mode::Insert, Key::Left, None, Action::Move(Motion::Left), "caret left"),
        (Mode::Insert, Key::Right, None, Action::Move(Motion::Right), "caret right"),
        (Mode::Insert, Key::Up, None, Action::Move(Motion::Up), "caret up"),
        (Mode::Insert, Key::Down, None, Action::Move(Motion::Down), "caret down"),
        (Mode::Insert, Key::Home, None, Action::Move(Motion::LineStart), "caret to line start"),
        (Mode::Insert, Key::End, None, Action::Move(Motion::LineEnd), "caret to line end"),
        (Mode::Command, Key::Esc, None, Action::ChangeMode(Mode::Normal), "abort"),
        (Mode::Command, Key::Enter, None, Action::SubmitCommand, "submit"),
        (Mode::Command, Key::Up, None, Action::PromptHistory { back: true }, "older search"),
        (Mode::Command, Key::Down, None, Action::PromptHistory { back: false }, "newer search"),
        (Mode::Command, Key::Backspace, None, Action::Backspace, "erase one char"),
        (Mode::Command, Key::Delete, None, Action::DeleteForward, "delete char at caret"),
        (Mode::Command, Key::Left, None, Action::PromptCaret { to: CaretMove::Left }, "caret left"),
        (Mode::Command, Key::Right, None, Action::PromptCaret { to: CaretMove::Right }, "caret right"),
        (Mode::Command, Key::Home, None, Action::PromptCaret { to: CaretMove::Start }, "caret to start"),
        (Mode::Command, Key::End, None, Action::PromptCaret { to: CaretMove::End }, "caret to end"),
        (Mode::Command, Key::Ctrl('w'), None, Action::DeleteWordBefore, "delete word before caret"),
        (Mode::Command, Key::Ctrl('g'), None, Action::SearchPreviewStep { forward: true }, "preview next match"),
        (Mode::Command, Key::Ctrl('t'), None, Action::SearchPreviewStep { forward: false }, "preview previous match"),
        (Mode::Command, Key::Ctrl('u'), None, Action::DeleteToLineStart, "clear to start"),
        (Mode::Normal, Key::Char('/'), None, Action::SearchOpen(SearchDirection::Forward), "search forward"),
        (Mode::Normal, Key::Char('?'), None, Action::SearchOpen(SearchDirection::Backward), "search backward"),
        (Mode::Normal, Key::Char('n'), None, Action::Move(Motion::SearchNext), "next match"),
        (Mode::Normal, Key::Char('N'), None, Action::Move(Motion::SearchPrev), "previous match"),
        (Mode::Normal, Key::Char('g'), Some(Key::Char('n')), Action::TextObject(TextObject::NextMatch), "next match (object)"),
        (Mode::Normal, Key::Char('g'), Some(Key::Char('N')), Action::TextObject(TextObject::PrevMatch), "previous match (object)"),
        (Mode::Normal, Key::Ctrl('o'), None, Action::JumpBack, "jump back"),
        (Mode::Normal, Key::Ctrl('i'), None, Action::JumpForward, "jump forward"),
        (Mode::Normal, Key::Char('*'), None, Action::SearchWord { reverse: false }, "search word forward"),
        (Mode::Normal, Key::Char('#'), None, Action::SearchWord { reverse: true }, "search word backward"),
        (Mode::Visual, Key::Esc, None, Action::ChangeMode(Mode::Normal), "to normal"),
        (Mode::VisualLine, Key::Esc, None, Action::ChangeMode(Mode::Normal), "to normal"),
    ]
}

/// The default keymap's binds, in order.
pub fn default_steps() -> (v: Vec<DefaultStep>)
    ensures
        v@ == spec_default_steps(),
{
    vec![
        (Mode::Normal, Key::Char('h'), None, Action::Move(Motion::Left), "move left"),
        (Mode::Normal, Key::Char('l'), None, Action::Move(Motion::Right), "move right"),
        (Mode::Normal, Key::Char('j'), None, Action::Move(Motion::Down), "move down"),
        (Mode::Normal, Key::Char('k'), None, Action::Move(Motion::Up), "move up"),
        (Mode::Normal, Key::Char('w'), None, Action::Move(Motion::WordStartNext), "word forward"),
        (Mode::Normal, Key::Char('b'), None, Action::Move(Motion::WordStartPrev), "word back"),
        (Mode::Normal, Key::Char('e'), None, Action::Move(Motion::WordEndNext), "word end"),
        (Mode::Normal, Key::Char('0'), None, Action::Move(Motion::LineStart), "line start"),
        (Mode::Normal, Key::Char('$'), None, Action::Move(Motion::LineEnd), "line end"),
        (Mode::Normal, Key::Char('G'), None, Action::Move(Motion::DocEnd), "doc end"),
        (Mode::Normal, Key::Char('W'), None, Action::Move(Motion::BigWordStartNext), "WORD forward"),
        (Mode::Normal, Key::Char('E'), None, Action::Move(Motion::BigWordEndNext), "WORD end"),
        (Mode::Normal, Key::Char('B'), None, Action::Move(Motion::BigWordStartPrev), "WORD back"),
        (Mode::Normal, Key::Char('^'), None, Action::Move(Motion::LineFirstNonBlank), "first non-blank"),
        (Mode::Normal, Key::Char('_'), None, Action::Move(Motion::LineFirstNonBlank), "first non-blank"),
        (Mode::Normal, Key::Char('|'), None, Action::Move(Motion::Column(1)), "to column"),
        (Mode::Normal, Key::Char('+'), None, Action::Move(Motion::LineDownFirstNonBlank), "next line, first non-blank"),
        (Mode::Normal, Key::Char('-'), None, Action::Move(Motion::LineUpFirstNonBlank), "previous line, first non-blank"),
        (Mode::Normal, Key::Char('%'), None, Action::Move(Motion::MatchPair), "matching bracket"),
        (Mode::Normal, Key::Char('}'), None, Action::Move(Motion::ParagraphNext), "next paragraph"),
        (Mode::Normal, Key::Char('{'), None, Action::Move(Motion::ParagraphPrev), "previous paragraph"),
        (Mode::Normal, Key::Char(')'), None, Action::Move(Motion::SentenceNext), "next sentence"),
        (Mode::Normal, Key::Char('('), None, Action::Move(Motion::SentencePrev), "previous sentence"),
        (Mode::Normal, Key::Char('H'), None, Action::Move(Motion::ScreenTop), "screen top"),
        (Mode::Normal, Key::Char('M'), None, Action::Move(Motion::ScreenMiddle), "screen middle"),
        (Mode::Normal, Key::Char('L'), None, Action::Move(Motion::ScreenBottom), "screen bottom"),
        (Mode::Normal, Key::Char(';'), None, Action::Move(Motion::RepeatFind { reverse: false }), "repeat find"),
        (Mode::Normal, Key::Ctrl('f'), None, Action::Move(Motion::PageDown), "page down"),
        (Mode::Normal, Key::Ctrl('b'), None, Action::Move(Motion::PageUp), "page up"),
        (Mode::Normal, Key::Ctrl('d'), None, Action::Move(Motion::HalfPageDown), "half page down"),
        (Mode::Normal, Key::Ctrl('u'), None, Action::Move(Motion::HalfPageUp), "half page up"),
        (Mode::Normal, Key::Enter, None, Action::Move(Motion::LineDownFirstNonBlank), "next line"),
        (Mode::Normal, Key::Char('z'), Some(Key::Char('t')), Action::ScrollView(ViewAlign::Top), "cursor line to top"),
        (Mode::Normal, Key::Char('z'), Some(Key::Char('z')), Action::ScrollView(ViewAlign::Center), "centre cursor line"),
        (Mode::Normal, Key::Char('z'), Some(Key::Char('b')), Action::ScrollView(ViewAlign::Bottom), "cursor line to bottom"),
        (Mode::Normal, Key::Char('g'), Some(Key::Char('g')), Action::Move(Motion::DocStart), "doc start"),
        (Mode::Normal, Key::Char('g'), Some(Key::Char('e')), Action::Move(Motion::WordEndPrev), "previous word end"),
        (Mode::Normal, Key::Char('g'), Some(Key::Char('E')), Action::Move(Motion::BigWordEndPrev), "previous WORD end"),
        (Mode::Normal, Key::Char('g'), Some(Key::Char('_')), Action::Move(Motion::LineLastNonBlank), "last non-blank"),
        (Mode::Normal, Key::Char('d'), None, Action::Operator(Operator::Delete), "delete (operator)"),
        (Mode::Normal, Key::Char('c'), None, Action::Operator(Operator::Change), "change (operator)"),
        (Mode::Normal, Key::Char('y'), None, Action::Operator(Operator::Yank), "yank (operator)"),
        (Mode::Normal, Key::Alt('f'), None, Action::Move(Motion::ForwardSexp), "forward sexp"),
        (Mode::Normal, Key::Alt('b'), None, Action::Move(Motion::BackwardSexp), "backward sexp"),
        (Mode::Normal, Key::Alt('u'), None, Action::Move(Motion::UpList), "up list"),
        (Mode::Normal, Key::Alt('d'), None, Action::Move(Motion::DownList), "down list"),
        (Mode::Normal, Key::Char('i'), None, Action::EnterInsert(InsertAt::Caret), "insert"),
        (Mode::Normal, Key::Char('I'), None, Action::EnterInsert(InsertAt::FirstNonBlank), "first non-blank"),
        (Mode::Normal, Key::Char('a'), None, Action::EnterInsert(InsertAt::AfterCaret), "append"),
        (Mode::Normal, Key::Char('A'), None, Action::EnterInsert(InsertAt::LineEnd), "append at end of line"),
        (Mode::Normal, Key::Char('o'), None, Action::EnterInsert(InsertAt::OpenBelow), "open line below"),
        (Mode::Normal, Key::Char('O'), None, Action::EnterInsert(InsertAt::OpenAbove), "open line above"),
        (Mode::Normal, Key::Char('v'), None, Action::ChangeMode(Mode::Visual), "visual"),
        (Mode::Normal, Key::Char('V'), None, Action::ChangeMode(Mode::VisualLine), "visual line"),
        (Mode::Normal, Key::Char(':'), None, Action::ChangeMode(Mode::Command), "command"),
        (Mode::Normal, Key::Char('u'), None, Action::Undo, "undo"),
        (Mode::Normal, Key::Char('.'), None, Action::RepeatLastChange, "repeat last change"),
        (Mode::Normal, Key::Ctrl('r'), None, Action::Redo, "redo"),
        (Mode::Insert, Key::Esc, None, Action::ChangeMode(Mode::Normal), "to normal"),
        (Mode::Insert, Key::Backspace, None, Action::Backspace, "erase one char"),
        (Mode::Insert, Key::Delete, None, Action::DeleteForward, "delete char at caret"),
        (Mode::Insert, Key::Ctrl('w'), None, Action::DeleteWordBefore, "erase word before caret"),
        (Mode::Insert, Key::Ctrl('u'), None, Action::DeleteToLineStart, "erase to line start"),
        (Mode::Insert, Key::Ctrl('h'), None, Action::Backspace, "erase one char"),
        (Mode::Insert, Key::Left, None, Action::Move(Motion::Left), "caret left"),
        (Mode::Insert, Key::Right, None, Action::Move(Motion::Right), "caret right"),
        (Mode::Insert, Key::Up, None, Action::Move(Motion::Up), "caret up"),
        (Mode::Insert, Key::Down, None, Action::Move(Motion::Down), "caret down"),
        (Mode::Insert, Key::Home, None, Action::Move(Motion::LineStart), "caret to line start"),
        (Mode::Insert, Key::End, None, Action::Move(Motion::LineEnd), "caret to line end"),
        (Mode::Command, Key::Esc, None, Action::ChangeMode(Mode::Normal), "abort"),
        (Mode::Command, Key::Enter, None, Action::SubmitCommand, "submit"),
        (Mode::Command, Key::Up, None, Action::PromptHistory { back: true }, "older search"),
        (Mode::Command, Key::Down, None, Action::PromptHistory { back: false }, "newer search"),
        (Mode::Command, Key::Backspace, None, Action::Backspace, "erase one char"),
        (Mode::Command, Key::Delete, None, Action::DeleteForward, "delete char at caret"),
        (Mode::Command, Key::Left, None, Action::PromptCaret { to: CaretMove::Left }, "caret left"),
        (Mode::Command, Key::Right, None, Action::PromptCaret { to: CaretMove::Right }, "caret right"),
        (Mode::Command, Key::Home, None, Action::PromptCaret { to: CaretMove::Start }, "caret to start"),
        (Mode::Command, Key::End, None, Action::PromptCaret { to: CaretMove::End }, "caret to end"),
        (Mode::Command, Key::Ctrl('w'), None, Action::DeleteWordBefore, "delete word before caret"),
        (Mode::Command, Key::Ctrl('g'), None, Action::SearchPreviewStep { forward: true }, "preview next match"),
        (Mode::Command, Key::Ctrl('t'), None, Action::SearchPreviewStep { forward: false }, "preview previous match"),
        (Mode::Command, Key::Ctrl('u'), None, Action::DeleteToLineStart, "clear to start"),
        (Mode::Normal, Key::Char('/'), None, Action::SearchOpen(SearchDirection::Forward), "search forward"),
        (Mode::Normal, Key::Char('?'), None, Action::SearchOpen(SearchDirection::Backward), "search backward"),
        (Mode::Normal, Key::Char('n'), None, Action::Move(Motion::SearchNext), "next match"),
        (Mode::Normal, Key::Char('N'), None, Action::Move(Motion::SearchPrev), "previous match"),
        (Mode::Normal, Key::Char('g'), Some(Key::Char('n')), Action::TextObject(TextObject::NextMatch), "next match (object)"),
        (Mode::Normal, Key::Char('g'), Some(Key::Char('N')), Action::TextObject(TextObject::PrevMatch), "previous match (object)"),
        (Mode::Normal, Key::Ctrl('o'), None, Action::JumpBack, "jump back"),
        (Mode::Normal, Key::Ctrl('i'), None, Action::JumpForward, "jump forward"),
        (Mode::Normal, Key::Char('*'), None, Action::SearchWord { reverse: false }, "search word forward"),
        (Mode::Normal, Key::Char('#'), None, Action::SearchWord { reverse: true }, "search word backward"),
        (Mode::Visual, Key::Esc, None, Action::ChangeMode(Mode::Normal), "to normal"),
        (Mode::VisualLine, Key::Esc, None, Action::ChangeMode(Mode::Normal), "to normal"),
    ]
}

/// The last of the first `n` steps that binds the single key `p`.
pub open spec fn last_single(t: Seq<DefaultStep>, n: int, p: (Mode, Key)) -> Option<int>
    decreases n,
{
    if n <= 0 {
        None
    } else if t[n - 1].2 is None && (t[n - 1].0, t[n - 1].1) == p {
        Some(n - 1)
    } else {
        last_single(t, n - 1, p)
    }
}

/// The two keys a sequence step binds.
pub open spec fn step_keys(s: DefaultStep) -> Seq<Key> {
    seq![s.1, s.2.unwrap()]
}

/// The last of the first `n` steps that binds the sequence `p`.
pub open spec fn last_sequence(t: Seq<DefaultStep>, n: int, p: (Mode, Seq<Key>)) -> Option<int>
    decreases n,
{
    if n <= 0 {
        None
    } else if t[n - 1].2 is Some && (t[n - 1].0, step_keys(t[n - 1])) == p {
        Some(n - 1)
    } else {
        last_sequence(t, n - 1, p)
    }
}

/// `k` holds what the first `n` steps of `t` bind: each key or sequence is
/// bound exactly when some step binds it, to the last such step's action
/// and description.
pub open spec fn holds_steps(k: Keymap, t: Seq<DefaultStep>, n: int) -> bool {
    &&& k.wf()
    &&& forall|p: (Mode, Key)|
        #[trigger] k.spec_singles().dom().contains(p) <==> last_single(t, n, p) is Some
    &&& forall|p: (Mode, Key)|
        #[trigger] k.spec_singles().dom().contains(p) ==> ({
            let s = t[last_single(t, n, p).unwrap()];
            same_action(k.spec_singles()[p].action, s.3) && k.spec_singles()[p].description@ == s.4@
        })
    &&& forall|p: (Mode, Seq<Key>)|
        #[trigger] k.spec_sequences().dom().contains(p) <==> last_sequence(t, n, p) is Some
    &&& forall|p: (Mode, Seq<Key>)|
        #[trigger] k.spec_sequences().dom().contains(p) ==> ({
            let s = t[last_sequence(t, n, p).unwrap()];
            same_action(k.spec_sequences()[p].action, s.3) && k.spec_sequences()[p].description@ == s.4@
        })
}

/// The keys a step binds: one key, or a two-key sequence.
pub open spec fn step_bound_keys(s: DefaultStep) -> Seq<Key> {
    if s.2 is None {
        seq![s.1]
    } else {
        step_keys(s)
    }
}

/// Binding step `s` took the keymap from `before` to `after` as far as
/// collisions go: it appended exactly what binding `s` notes in `before`.
pub open spec fn step_noted(before: Keymap, after: Keymap, s: DefaultStep) -> bool {
    &&& after.spec_collisions().len() >= before.spec_collisions().len()
    &&& after.spec_collisions().subrange(0, before.spec_collisions().len() as int) == before.spec_collisions()
    &&& before.noted(
        after.spec_collisions().subrange(
            before.spec_collisions().len() as int,
            after.spec_collisions().len() as int,
        ),
        s.0,
        step_bound_keys(s),
        s.4@,
    )
}

/// `states` are the keymaps the first `n` steps of `t` pass through, from
/// a fresh keymap: each holds what the steps before it bind, and each step
/// appends the collisions binding it notes.
pub open spec fn default_chain(states: Seq<Keymap>, t: Seq<DefaultStep>, n: int) -> bool {
    &&& states.len() == n + 1
    &&& states[0].spec_collisions().len() == 0
    &&& forall|j: int|
        0 <= j < n ==> #[trigger] step_noted(states[j], states[j + 1], t[j]) && holds_steps(states[j], t, j)
}

impl Keymap {
    /// The keymap escriba ships: each of [`spec_default_steps`] bound in
    /// turn, leader `,`.
    pub fn default_vim() -> (k: Self)
        ensures
            holds_steps(k, spec_default_steps(), spec_default_steps().len() as int),
            k.spec_leader() == Key::Char(','),
            exists|states: Seq<Keymap>|
                default_chain(states, spec_default_steps(), spec_default_steps().len() as int)
                    && states.last() == k,
    {
        let steps = default_steps();
        let mut m = Keymap::new();
        let ghost mut states: Seq<Keymap> = seq![m];
        let mut i: usize = 0;
        while i < steps.len()
            invariant
                i <= steps@.len(),
                steps@ == spec_default_steps(),
                holds_steps(m, steps@, i as int),
                m.spec_leader() == Key::Char(','),
                default_chain(states, steps@, i as int),
                states.last() == m,
            decreases steps@.len() - i,
        {
            let step = &steps[i];
            let ghost old_m = m;
            let action = step.3.duplicate();
            match step.2 {
                None => {
                    m.bind(step.0, step.1, action, step.4);
                },
                Some(k2) => {
                    let ks = vec![step.1, k2];
                    m.bind_sequence(step.0, ks, action, step.4);
                    assert(ks@ =~= step_keys(*step));
                },
            }
            proof {
                let t = steps@;
                assert(step_noted(old_m, m, t[i as int]));
                let prev = states;
                states = states.push(m);
                assert forall|j: int| 0 <= j < i + 1 implies #[trigger] step_noted(states[j], states[j + 1], t[j])
                    && holds_steps(states[j], t, j) by {
                    if j < i {
                        assert(prev[j] == states[j] && prev[j + 1] == states[j + 1]);
                        assert(step_noted(prev[j], prev[j + 1], t[j]));
                    }
                }
                assert forall|p: (Mode, Key)|
                    #[trigger] m.spec_singles().dom().contains(p) <==> last_single(t, i + 1, p) is Some by {
                    if !(t[i as int].2 is None && (t[i as int].0, t[i as int].1) == p) {
                        assert(last_single(t, i + 1, p) == last_single(t, i as int, p));
                    }
                }
                assert forall|p: (Mode, Seq<Key>)|
                    #[trigger] m.spec_sequences().dom().contains(p) <==> last_sequence(t, i + 1, p) is Some by {
                    if !(t[i as int].2 is Some && (t[i as int].0, step_keys(t[i as int])) == p) {
                        assert(last_sequence(t, i + 1, p) == last_sequence(t, i as int, p));
                    }
                }
            }
            i += 1;
        }
        m
    }
}

} // verus!
