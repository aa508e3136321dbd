//! Applying a plan to the live editor: keybinds to the keymap, `defcmd`s
//! to the command registry, options to the option store, `defmode`s to the
//! filetype table and the grammar registry.
//!
//! Every pass reports what it applied and what it skipped; a malformed
//! keybind is a warning, never a failure of the whole pass.

use vstd::prelude::*;
use crate::action::{Action, SearchDirection};
use crate::mode::Mode;
use crate::motion::Motion;
use crate::keys::Key;
use crate::keymap::{Keymap, Binding};
use crate::lisp::keybind::KeybindSpec;
use crate::lisp::plan::{ApplyPlan, LispError};
use crate::lisp::keygrammar::{parse_key_sequence, spec_key_sequence};
use crate::text::{owned, push_str, push_decimal, decimal, str_eq};
use crate::command::{Command, CommandRegistry, Target, lookup, has_name, lemma_lookup_has_name};
use crate::lisp::cmd::CmdSpec;
use crate::lisp::option::OptionSpec;
use crate::option_store::OptionStore;
use crate::filetype::{Filetype, FiletypeTable, CommentString, without_name, spec_comment, comment_view};
use crate::lisp::mode_spec::MajorModeSpec;
use crate::action::copy_strings;
use crate::assoc::{assoc_map, keys_unique, lemma_assoc_index, lemma_assoc_push, lemma_assoc_update, lemma_assoc_dom};

verus! {

/// The mode a keybind's `:mode` names.
pub open spec fn spec_mode_of(name: Seq<char>) -> Option<Mode> {
    if name == "normal"@ {
        Some(Mode::Normal)
    } else if name == "insert"@ {
        Some(Mode::Insert)
    } else if name == "visual"@ {
        Some(Mode::Visual)
    } else if name == "visual-line"@ {
        Some(Mode::VisualLine)
    } else if name == "command"@ {
        Some(Mode::Command)
    } else {
        None
    }
}

/// A keybind's `:mode` name selects the mode of that name, and only these
/// five names select a mode.
pub proof fn lemma_mode_names(name: Seq<char>)
    ensures
        spec_mode_of("normal"@) == Some(Mode::Normal),
        spec_mode_of("insert"@) == Some(Mode::Insert),
        spec_mode_of("visual"@) == Some(Mode::Visual),
        spec_mode_of("visual-line"@) == Some(Mode::VisualLine),
        spec_mode_of("command"@) == Some(Mode::Command),
        spec_mode_of(name) is Some <==> (name == "normal"@ || name == "insert"@ || name == "visual"@ || name
            == "visual-line"@ || name == "command"@),
        spec_mode_of(name) == Some(Mode::Normal) ==> name == "normal"@,
        spec_mode_of(name) == Some(Mode::Insert) ==> name == "insert"@,
        spec_mode_of(name) == Some(Mode::Visual) ==> name == "visual"@,
        spec_mode_of(name) == Some(Mode::VisualLine) ==> name == "visual-line"@,
        spec_mode_of(name) == Some(Mode::Command) ==> name == "command"@,
{
    reveal_strlit("normal");
    reveal_strlit("insert");
    reveal_strlit("visual");
    reveal_strlit("visual-line");
    reveal_strlit("command");
    assert("insert"@[0] != "normal"@[0]);
    assert("visual"@[0] != "normal"@[0] && "visual"@[0] != "insert"@[0]);
    assert("visual-line"@[0] != "normal"@[0] && "visual-line"@[0] != "insert"@[0]);
    assert("visual-line"@.len() != "visual"@.len());
    assert("command"@[0] != "normal"@[0] && "command"@[0] != "insert"@[0] && "command"@[0] != "visual"@[0]);
}

/// The mode a keybind's `:mode` names; `UnknownMode` for any other name.
pub fn parse_mode(name: &str) -> (r: Result<Mode, LispError>)
    ensures
        match spec_mode_of(name@) {
            Some(m) => r matches Ok(x) && x == m,
            None => r matches Err(LispError::UnknownMode(s)) && s@ == name@,
        },
        name@ == "normal"@ ==> r matches Ok(Mode::Normal),
        name@ == "insert"@ ==> r matches Ok(Mode::Insert),
        name@ == "visual"@ ==> r matches Ok(Mode::Visual),
        name@ == "visual-line"@ ==> r matches Ok(Mode::VisualLine),
        name@ == "command"@ ==> r matches Ok(Mode::Command),
{
    proof {
        lemma_mode_names(name@);
    }
    if str_eq(name, "normal") {
        Ok(Mode::Normal)
    } else if str_eq(name, "insert") {
        Ok(Mode::Insert)
    } else if str_eq(name, "visual") {
        Ok(Mode::Visual)
    } else if str_eq(name, "visual-line") {
        Ok(Mode::VisualLine)
    } else if str_eq(name, "command") {
        Ok(Mode::Command)
    } else {
        Err(LispError::UnknownMode(owned(name)))
    }
}

/// The typed action a well-known action name stands for; `None` for a
/// name the command registry resolves at dispatch time.
pub open spec fn typed_action(name: Seq<char>) -> Option<Action> {
    if name == "insert"@ || name == "enter-insert"@ {
        Some(Action::ChangeMode(Mode::Insert))
    } else if name == "normal"@ || name == "enter-normal"@ {
        Some(Action::ChangeMode(Mode::Normal))
    } else if name == "visual"@ || name == "enter-visual"@ {
        Some(Action::ChangeMode(Mode::Visual))
    } else if name == "visual-line"@ || name == "enter-visual-line"@ {
        Some(Action::ChangeMode(Mode::VisualLine))
    } else if name == "command"@ || name == "enter-command"@ {
        Some(Action::ChangeMode(Mode::Command))
    } else if name == "move-left"@ {
        Some(Action::Move(Motion::Left))
    } else if name == "move-right"@ {
        Some(Action::Move(Motion::Right))
    } else if name == "move-up"@ {
        Some(Action::Move(Motion::Up))
    } else if name == "move-down"@ {
        Some(Action::Move(Motion::Down))
    } else if name == "word-next-start"@ {
        Some(Action::Move(Motion::WordStartNext))
    } else if name == "word-next-end"@ {
        Some(Action::Move(Motion::WordEndNext))
    } else if name == "word-prev-start"@ {
        Some(Action::Move(Motion::WordStartPrev))
    } else if name == "line-start"@ {
        Some(Action::Move(Motion::LineStart))
    } else if name == "line-first-non-blank"@ {
        Some(Action::Move(Motion::LineFirstNonBlank))
    } else if name == "line-end"@ {
        Some(Action::Move(Motion::LineEnd))
    } else if name == "doc-start"@ {
        Some(Action::Move(Motion::DocStart))
    } else if name == "doc-end"@ {
        Some(Action::Move(Motion::DocEnd))
    } else if name == "page-up"@ {
        Some(Action::Move(Motion::PageUp))
    } else if name == "page-down"@ {
        Some(Action::Move(Motion::PageDown))
    } else if name == "half-page-up"@ {
        Some(Action::Move(Motion::HalfPageUp))
    } else if name == "half-page-down"@ {
        Some(Action::Move(Motion::HalfPageDown))
    } else if name == "forward-sexp"@ {
        Some(Action::Move(Motion::ForwardSexp))
    } else if name == "backward-sexp"@ {
        Some(Action::Move(Motion::BackwardSexp))
    } else if name == "up-list"@ {
        Some(Action::Move(Motion::UpList))
    } else if name == "down-list"@ {
        Some(Action::Move(Motion::DownList))
    } else if name == "beginning-of-defun"@ {
        Some(Action::Move(Motion::BeginningOfDefun))
    } else if name == "end-of-defun"@ {
        Some(Action::Move(Motion::EndOfDefun))
    } else if name == "beginning-of-sexp"@ {
        Some(Action::Move(Motion::BeginningOfSexp))
    } else if name == "end-of-sexp"@ {
        Some(Action::Move(Motion::EndOfSexp))
    } else if name == "search-forward"@ {
        Some(Action::SearchOpen(SearchDirection::Forward))
    } else if name == "search-backward"@ {
        Some(Action::SearchOpen(SearchDirection::Backward))
    } else if name == "search-next"@ {
        Some(Action::SearchRepeat { reverse: false })
    } else if name == "search-prev"@ {
        Some(Action::SearchRepeat { reverse: true })
    } else if name == "backspace"@ {
        Some(Action::Backspace)
    } else if name == "delete-forward"@ {
        Some(Action::DeleteForward)
    } else if name == "delete-word-before"@ {
        Some(Action::DeleteWordBefore)
    } else if name == "delete-to-line-start"@ {
        Some(Action::DeleteToLineStart)
    } else if name == "undo"@ {
        Some(Action::Undo)
    } else if name == "redo"@ {
        Some(Action::Redo)
    } else if name == "save"@ {
        Some(Action::Save)
    } else if name == "quit"@ {
        Some(Action::Quit)
    } else if name == "submit-command"@ {
        Some(Action::SubmitCommand)
    } else {
        None
    }
}

/// `a` is what the action name `name` resolves to: its typed action, or a
/// hand-off to the command registry under that name, without arguments.
pub open spec fn resolves_to(a: Action, name: Seq<char>) -> bool {
    match typed_action(name) {
        Some(t) => a == t,
        None => a matches Action::Command { name: n, args } && n@ == name && args@.len() == 0,
    }
}

fn typed_action_of(name: &str) -> (r: Option<Action>)
    ensures
        r == typed_action(name@),
{
    if str_eq(name, "insert") || str_eq(name, "enter-insert") {
        Some(Action::ChangeMode(Mode::Insert))
    } else if str_eq(name, "normal") || str_eq(name, "enter-normal") {
        Some(Action::ChangeMode(Mode::Normal))
    } else if str_eq(name, "visual") || str_eq(name, "enter-visual") {
        Some(Action::ChangeMode(Mode::Visual))
    } else if str_eq(name, "visual-line") || str_eq(name, "enter-visual-line") {
        Some(Action::ChangeMode(Mode::VisualLine))
    } else if str_eq(name, "command") || str_eq(name, "enter-command") {
        Some(Action::ChangeMode(Mode::Command))
    } else if str_eq(name, "move-left") {
        Some(Action::Move(Motion::Left))
    } else if str_eq(name, "move-right") {
        Some(Action::Move(Motion::Right))
    } else if str_eq(name, "move-up") {
        Some(Action::Move(Motion::Up))
    } else if str_eq(name, "move-down") {
        Some(Action::Move(Motion::Down))
    } else if str_eq(name, "word-next-start") {
        Some(Action::Move(Motion::WordStartNext))
    } else if str_eq(name, "word-next-end") {
        Some(Action::Move(Motion::WordEndNext))
    } else if str_eq(name, "word-prev-start") {
        Some(Action::Move(Motion::WordStartPrev))
    } else if str_eq(name, "line-start") {
        Some(Action::Move(Motion::LineStart))
    } else if str_eq(name, "line-first-non-blank") {
        Some(Action::Move(Motion::LineFirstNonBlank))
    } else if str_eq(name, "line-end") {
        Some(Action::Move(Motion::LineEnd))
    } else if str_eq(name, "doc-start") {
        Some(Action::Move(Motion::DocStart))
    } else if str_eq(name, "doc-end") {
        Some(Action::Move(Motion::DocEnd))
    } else if str_eq(name, "page-up") {
        Some(Action::Move(Motion::PageUp))
    } else if str_eq(name, "page-down") {
        Some(Action::Move(Motion::PageDown))
    } else if str_eq(name, "half-page-up") {
        Some(Action::Move(Motion::HalfPageUp))
    } else if str_eq(name, "half-page-down") {
        Some(Action::Move(Motion::HalfPageDown))
    } else if str_eq(name, "forward-sexp") {
        Some(Action::Move(Motion::ForwardSexp))
    } else if str_eq(name, "backward-sexp") {
        Some(Action::Move(Motion::BackwardSexp))
    } else if str_eq(name, "up-list") {
        Some(Action::Move(Motion::UpList))
    } else if str_eq(name, "down-list") {
        Some(Action::Move(Motion::DownList))
    } else if str_eq(name, "beginning-of-defun") {
        Some(Action::Move(Motion::BeginningOfDefun))
    } else if str_eq(name, "end-of-defun") {
        Some(Action::Move(Motion::EndOfDefun))
    } else if str_eq(name, "beginning-of-sexp") {
        Some(Action::Move(Motion::BeginningOfSexp))
    } else if str_eq(name, "end-of-sexp") {
        Some(Action::Move(Motion::EndOfSexp))
    } else if str_eq(name, "search-forward") {
        Some(Action::SearchOpen(SearchDirection::Forward))
    } else if str_eq(name, "search-backward") {
        Some(Action::SearchOpen(SearchDirection::Backward))
    } else if str_eq(name, "search-next") {
        Some(Action::SearchRepeat { reverse: false })
    } else if str_eq(name, "search-prev") {
        Some(Action::SearchRepeat { reverse: true })
    } else if str_eq(name, "backspace") {
        Some(Action::Backspace)
    } else if str_eq(name, "delete-forward") {
        Some(Action::DeleteForward)
    } else if str_eq(name, "delete-word-before") {
        Some(Action::DeleteWordBefore)
    } else if str_eq(name, "delete-to-line-start") {
        Some(Action::DeleteToLineStart)
    } else if str_eq(name, "undo") {
        Some(Action::Undo)
    } else if str_eq(name, "redo") {
        Some(Action::Redo)
    } else if str_eq(name, "save") {
        Some(Action::Save)
    } else if str_eq(name, "quit") {
        Some(Action::Quit)
    } else if str_eq(name, "submit-command") {
        Some(Action::SubmitCommand)
    } else {
        None
    }
}

/// Resolve an action name: a well-known name to its typed action, any
/// other to a command-registry hand-off. The flag is set exactly for the
/// hand-off.
pub fn resolve_action(name: &str) -> (r: (Action, bool))
    ensures
        resolves_to(r.0, name@),
        r.1 == (typed_action(name@) is None),
{
    match typed_action_of(name) {
        Some(a) => (a, false),
        None => (Action::Command { name: owned(name), args: Vec::new() }, true),
    }
}

/// `std`'s `Debug` rendering of a string: quoted, with escapes.
pub uninterp spec fn str_debug(s: Seq<char>) -> Seq<char>;

/// A string as `{:?}` renders it (`<str as Debug>::fmt`).
#[verifier::external_body]
fn debug_str(s: &str) -> (r: String)
    ensures
        r@ == str_debug(s@),
{
    format!("{s:?}")
}

/// The description a keybind binds with: its own, or its action's name.
pub open spec fn description_of(k: KeybindSpec) -> Seq<char> {
    if k.description@.len() == 0 {
        k.action@
    } else {
        k.description@
    }
}

/// What one keybind does under leader `leader`: the mode, keys and
/// whether its action defers to the command registry; or the warning.
pub open spec fn keybind_result(k: KeybindSpec, leader: Key) -> Result<(Mode, Seq<Key>, bool), Seq<char>> {
    match spec_mode_of(k.mode@) {
        None => Err(
            "defkeybind :mode "@ + str_debug(k.mode@) + " — unknown mode name: "@ + k.mode@
                + " (valid: normal, insert, visual, visual-line, command)"@,
        ),
        Some(m) => match spec_key_sequence(k.key@, leader) {
            Err(e) => Err("defkeybind :key "@ + str_debug(k.key@) + " — "@ + e),
            Ok(keys) => Ok((m, keys, typed_action(k.action@) is None)),
        },
    }
}

/// Keybind `k` binds `keys` in `mode`.
pub open spec fn binds(k: KeybindSpec, leader: Key, mode: Mode, keys: Seq<Key>) -> bool {
    keybind_result(k, leader) matches Ok((m, s, _)) && m == mode && s == keys
}

/// `b` is the binding keybind `k` makes.
pub open spec fn binding_from(b: Binding, k: KeybindSpec) -> bool {
    resolves_to(b.action, k.action@) && b.description@ == description_of(k)
}

/// What the keymap holds at `(mode, keys)`: the one-key table for one key,
/// the sequence table for more.
pub open spec fn bound_at(km: Keymap, mode: Mode, keys: Seq<Key>) -> Option<Binding> {
    if keys.len() == 1 {
        if km.spec_singles().dom().contains((mode, keys[0])) {
            Some(km.spec_singles()[(mode, keys[0])])
        } else {
            None
        }
    } else if km.spec_sequences().dom().contains((mode, keys)) {
        Some(km.spec_sequences()[(mode, keys)])
    } else {
        None
    }
}

/// The keymap holds at `(mode, keys)` the binding keybind `k` makes.
pub open spec fn holds_binding(km: Keymap, mode: Mode, keys: Seq<Key>, k: KeybindSpec) -> bool {
    match bound_at(km, mode, keys) {
        Some(b) => binding_from(b, k),
        None => false,
    }
}

/// What applying the keybind `k` does to a keymap: a keybind that does
/// not parse leaves it as it was; one that does binds its keys to it,
/// leaves every other key as it was, and appends the collisions that bind
/// notes.
pub open spec fn keybind_step(before: Keymap, after: Keymap, k: KeybindSpec) -> bool {
    &&& after.wf()
    &&& after.spec_leader() == before.spec_leader()
    &&& after.spec_reserved() == before.spec_reserved()
    &&& after.spec_collisions().len() >= before.spec_collisions().len()
    &&& after.spec_collisions().subrange(0, before.spec_collisions().len() as int) == before.spec_collisions()
    &&& match keybind_result(k, before.spec_leader()) {
        Err(_) => {
            &&& after.spec_singles() == before.spec_singles()
            &&& after.spec_sequences() == before.spec_sequences()
            &&& after.spec_collisions() == before.spec_collisions()
        },
        Ok((mode, keys, _)) => {
            &&& holds_binding(after, mode, keys, k)
            &&& forall|m2: Mode, k2: Seq<Key>|
                1 <= k2.len() && (m2, k2) != (mode, keys) ==> #[trigger] bound_at(after, m2, k2) == bound_at(
                    before,
                    m2,
                    k2,
                )
            &&& before.noted(
                after.spec_collisions().subrange(
                    before.spec_collisions().len() as int,
                    after.spec_collisions().len() as int,
                ),
                mode,
                keys,
                description_of(k),
            )
        },
    }
}

/// `states` runs from a keymap through the keybinds `ks` applied in turn.
pub open spec fn keybind_steps(states: Seq<Keymap>, ks: Seq<KeybindSpec>) -> bool {
    &&& states.len() == ks.len() + 1
    &&& forall|i: int| 0 <= i < ks.len() ==> #[trigger] keybind_step(states[i], states[i + 1], ks[i])
}

/// A keybind that binds lands in the mode its `:mode` names.
pub proof fn lemma_keybind_lands_in_named_mode(k: KeybindSpec, leader: Key)
    ensures
        keybind_result(k, leader) matches Ok((m, _, _)) ==> {
            &&& k.mode@ == "normal"@ ==> m == Mode::Normal
            &&& k.mode@ == "insert"@ ==> m == Mode::Insert
            &&& k.mode@ == "visual"@ ==> m == Mode::Visual
            &&& k.mode@ == "visual-line"@ ==> m == Mode::VisualLine
            &&& k.mode@ == "command"@ ==> m == Mode::Command
        },
{
    lemma_mode_names(k.mode@);
}

/// Apply one keybind: bind its keys, or give the warning.
fn apply_keybind(spec: &KeybindSpec, keymap: &mut Keymap) -> (r: Result<(bool, bool), String>)
    requires
        old(keymap).wf(),
    ensures
        keybind_step(*old(keymap), *final(keymap), *spec),
        match keybind_result(*spec, old(keymap).spec_leader()) {
            Err(w) => r matches Err(m) && m@ == w,
            Ok((mode, keys, deferred)) => r matches Ok((is_seq, d)) && is_seq == (keys.len() > 1) && d
                == deferred,
        },
{
    let mode = match parse_mode(spec.mode.as_str()) {
        Ok(m) => m,
        Err(_) => {
            let mut w = owned("defkeybind :mode ");
            let d = debug_str(spec.mode.as_str());
            push_str(&mut w, d.as_str());
            push_str(&mut w, " — unknown mode name: ");
            push_str(&mut w, spec.mode.as_str());
            push_str(&mut w, " (valid: normal, insert, visual, visual-line, command)");
            assert(keymap.spec_collisions().subrange(0, keymap.spec_collisions().len() as int)
                =~= keymap.spec_collisions());
            return Err(w);
        },
    };
    let leader = *keymap.leader();
    let keys = match parse_key_sequence(spec.key.as_str(), &leader) {
        Ok(ks) => ks,
        Err(e) => {
            let mut w = owned("defkeybind :key ");
            let d = debug_str(spec.key.as_str());
            push_str(&mut w, d.as_str());
            push_str(&mut w, " — ");
            push_str(&mut w, e.as_str());
            assert(keymap.spec_collisions().subrange(0, keymap.spec_collisions().len() as int)
                =~= keymap.spec_collisions());
            return Err(w);
        },
    };
    let (action, deferred) = resolve_action(spec.action.as_str());
    let description = if spec.description.unicode_len() == 0 {
        owned(spec.action.as_str())
    } else {
        owned(spec.description.as_str())
    };
    let is_sequence = keys.len() > 1;
    let ghost ks = keys@;
    keymap.bind_sequence(mode, keys, action, description.as_str());
    proof {
        assert forall|m2: Mode, k2: Seq<Key>|
            1 <= k2.len() && (m2, k2) != (mode, ks) implies #[trigger] bound_at(*keymap, m2, k2) == bound_at(
            *old(keymap),
            m2,
            k2,
        ) by {
            if k2.len() == 1 && ks.len() == 1 {
                assert((m2, k2[0]) != (mode, ks[0])) by {
                    if (m2, k2[0]) == (mode, ks[0]) {
                        assert(k2 =~= ks);
                    }
                }
            }
        }
    }
    Ok((is_sequence, deferred))
}

/// What an `apply_plan_to_*` keymap pass did.
#[derive(Debug, Clone, Default)]
pub struct ApplyReport {
    /// Keybinds bound.
    pub keybinds_applied: u32,
    /// Of those, the ones whose action defers to the command registry.
    pub keybinds_deferred_to_commands: u32,
    /// Of those, the multi-key sequences.
    pub keybinds_sequences: u32,
    /// One warning per keybind that could not be bound.
    pub warnings: Vec<String>,
}

/// How many of `ks` bind.
pub open spec fn applied_count(ks: Seq<KeybindSpec>, leader: Key) -> nat
    decreases ks.len(),
{
    if ks.len() == 0 {
        0
    } else {
        applied_count(ks.drop_last(), leader) + if keybind_result(ks.last(), leader) is Ok {
            1nat
        } else {
            0nat
        }
    }
}

/// How many of `ks` bind an action that defers to the command registry.
pub open spec fn deferred_count(ks: Seq<KeybindSpec>, leader: Key) -> nat
    decreases ks.len(),
{
    if ks.len() == 0 {
        0
    } else {
        deferred_count(ks.drop_last(), leader) + if keybind_result(ks.last(), leader) matches Ok(
            (_, _, true),
        ) {
            1nat
        } else {
            0nat
        }
    }
}

/// How many of `ks` bind a sequence of more than one key.
pub open spec fn sequence_count(ks: Seq<KeybindSpec>, leader: Key) -> nat
    decreases ks.len(),
{
    if ks.len() == 0 {
        0
    } else {
        sequence_count(ks.drop_last(), leader) + if keybind_result(ks.last(), leader) matches Ok(
            (_, s, _),
        ) && s.len() > 1 {
            1nat
        } else {
            0nat
        }
    }
}

/// The warnings of `ks`, in order.
pub open spec fn warnings_of(ks: Seq<KeybindSpec>, leader: Key) -> Seq<Seq<char>>
    decreases ks.len(),
{
    if ks.len() == 0 {
        Seq::<Seq<char>>::empty()
    } else {
        let w = warnings_of(ks.drop_last(), leader);
        match keybind_result(ks.last(), leader) {
            Err(m) => w.push(m),
            Ok(_) => w,
        }
    }
}

proof fn lemma_counts_bounded(ks: Seq<KeybindSpec>, leader: Key)
    ensures
        applied_count(ks, leader) <= ks.len(),
        deferred_count(ks, leader) <= applied_count(ks, leader),
        sequence_count(ks, leader) <= applied_count(ks, leader),
    decreases ks.len(),
{
    if ks.len() > 0 {
        lemma_counts_bounded(ks.drop_last(), leader);
    }
}

/// Apply every keybind of `plan` to `keymap`, in order. One-key binds go to
/// the one-key table, longer ones to the sequence table; the last keybind
/// for a place wins, places no keybind names keep what they had, and a
/// keybind that cannot bind becomes a warning.
#[verifier::rlimit(60)]
pub fn apply_plan_to_keymap(plan: &ApplyPlan, keymap: &mut Keymap) -> (report: ApplyReport)
    requires
        old(keymap).wf(),
        plan.keybinds@.len() <= u32::MAX,
    ensures
        final(keymap).wf(),
        final(keymap).spec_leader() == old(keymap).spec_leader(),
        final(keymap).spec_reserved() == old(keymap).spec_reserved(),
        final(keymap).spec_collisions().len() >= old(keymap).spec_collisions().len(),
        final(keymap).spec_collisions().subrange(0, old(keymap).spec_collisions().len() as int)
            == old(keymap).spec_collisions(),
        exists|states: Seq<Keymap>|
            keybind_steps(states, plan.keybinds@) && states[0] == *old(keymap) && states.last()
                == *final(keymap),
        report.keybinds_applied == applied_count(plan.keybinds@, old(keymap).spec_leader()),
        report.keybinds_deferred_to_commands == deferred_count(plan.keybinds@, old(keymap).spec_leader()),
        report.keybinds_sequences == sequence_count(plan.keybinds@, old(keymap).spec_leader()),
        report.warnings@.map_values(|w: String| w@) == warnings_of(plan.keybinds@, old(keymap).spec_leader()),
        forall|t: int, mode: Mode, keys: Seq<Key>|
            0 <= t < plan.keybinds@.len() && #[trigger] binds(plan.keybinds@[t], old(keymap).spec_leader(), mode, keys)
                && (forall|j: int|
                t < j < plan.keybinds@.len() ==> !binds(plan.keybinds@[j], old(keymap).spec_leader(), mode, keys))
                ==> holds_binding(*final(keymap), mode, keys, plan.keybinds@[t]),
        forall|mode: Mode, keys: Seq<Key>|
            1 <= keys.len() && (forall|j: int|
                0 <= j < plan.keybinds@.len() ==> !binds(plan.keybinds@[j], old(keymap).spec_leader(), mode, keys))
                ==> #[trigger] bound_at(*final(keymap), mode, keys) == bound_at(*old(keymap), mode, keys),
{
    let ghost leader = keymap.spec_leader();
    let ghost ks = plan.keybinds@;
    let ghost start = *keymap;
    let mut report = ApplyReport {
        keybinds_applied: 0,
        keybinds_deferred_to_commands: 0,
        keybinds_sequences: 0,
        warnings: Vec::new(),
    };
    let ghost mut states: Seq<Keymap> = seq![*keymap];
    let mut i: usize = 0;
    while i < plan.keybinds.len()
        invariant
            i <= ks.len(),
            ks == plan.keybinds@,
            ks.len() <= u32::MAX,
            keymap.wf(),
            keybind_steps(states, ks.subrange(0, i as int)),
            states[0] == start,
            states.last() == *keymap,
            keymap.spec_leader() == leader,
            keymap.spec_reserved() == start.spec_reserved(),
            keymap.spec_collisions().len() >= start.spec_collisions().len(),
            keymap.spec_collisions().subrange(0, start.spec_collisions().len() as int)
                == start.spec_collisions(),
            report.keybinds_applied == applied_count(ks.subrange(0, i as int), leader),
            report.keybinds_deferred_to_commands == deferred_count(ks.subrange(0, i as int), leader),
            report.keybinds_sequences == sequence_count(ks.subrange(0, i as int), leader),
            report.warnings@.map_values(|w: String| w@) == warnings_of(ks.subrange(0, i as int), leader),
            forall|t: int, mode: Mode, keys: Seq<Key>|
                0 <= t < i && #[trigger] binds(ks[t], leader, mode, keys) && (forall|j: int|
                    t < j < i ==> !binds(ks[j], leader, mode, keys)) ==> holds_binding(*keymap, mode, keys, ks[t]),
            forall|mode: Mode, keys: Seq<Key>|
                1 <= keys.len() && (forall|j: int| 0 <= j < i ==> !binds(ks[j], leader, mode, keys))
                    ==> #[trigger] bound_at(*keymap, mode, keys) == bound_at(start, mode, keys),
        decreases ks.len() - i,
    {
        let ghost before = *keymap;
        let ghost pre = ks.subrange(0, i as int);
        let ghost post = ks.subrange(0, i + 1);
        assert(post.drop_last() =~= pre);
        assert(post.last() == ks[i as int]);
        proof {
            lemma_counts_bounded(pre, leader);
        }
        let r = apply_keybind(&plan.keybinds[i], keymap);
        proof {
            let ghost prev = states;
            states = states.push(*keymap);
            assert forall|j: int| 0 <= j < post.len() implies #[trigger] keybind_step(states[j], states[j + 1], post[j]) by {
                if j < pre.len() {
                    assert(prev[j] == states[j] && prev[j + 1] == states[j + 1]);
                    assert(keybind_step(prev[j], prev[j + 1], pre[j]));
                }
            }
        }
        assert(keymap.spec_collisions().subrange(0, start.spec_collisions().len() as int) =~= before.spec_collisions().subrange(
            0,
            start.spec_collisions().len() as int,
        ));
        match r {
            Ok((is_seq, deferred)) => {
                report.keybinds_applied += 1;
                if deferred {
                    report.keybinds_deferred_to_commands += 1;
                }
                if is_seq {
                    report.keybinds_sequences += 1;
                }
            },
            Err(w) => {
                let ghost wv = report.warnings@;
                report.warnings.push(w);
                assert(report.warnings@.map_values(|w: String| w@) =~= wv.map_values(|w: String| w@).push(
                    report.warnings@.last()@,
                ));
            },
        }
        proof {
            let k = ks[i as int];
            assert forall|t: int, mode: Mode, keys: Seq<Key>|
                0 <= t < i + 1 && #[trigger] binds(ks[t], leader, mode, keys) && (forall|j: int|
                    t < j < i + 1 ==> !binds(ks[j], leader, mode, keys)) implies holds_binding(*keymap, mode, keys, ks[t]) by {
                if t < i {
                    assert(!binds(k, leader, mode, keys));
                    assert(forall|j: int| t < j < i ==> !binds(ks[j], leader, mode, keys));
                    assert(keys.len() >= 1);
                }
            }
            assert forall|mode: Mode, keys: Seq<Key>|
                1 <= keys.len() && (forall|j: int| 0 <= j < i + 1 ==> !binds(ks[j], leader, mode, keys)) implies #[trigger] bound_at(
                *keymap,
                mode,
                keys,
            ) == bound_at(start, mode, keys) by {
                assert(!binds(k, leader, mode, keys));
                assert(forall|j: int| 0 <= j < i ==> !binds(ks[j], leader, mode, keys));
                assert(bound_at(before, mode, keys) == bound_at(start, mode, keys));
            }
        }
        i += 1;
    }
    assert(ks.subrange(0, i as int) =~= ks);
    assert(keybind_steps(states, plan.keybinds@));
    report
}

impl ApplyReport {
    /// A one-line count of what the pass did.
    pub fn summary(&self) -> (s: String)
        ensures
            s@ == "keybinds="@ + decimal(self.keybinds_applied as nat) + " deferred_cmd="@ + decimal(
                self.keybinds_deferred_to_commands as nat,
            ) + " sequences="@ + decimal(self.keybinds_sequences as nat) + " warnings="@ + decimal(
                self.warnings@.len(),
            ),
    {
        let mut s = owned("keybinds=");
        push_decimal(&mut s, self.keybinds_applied as u64);
        push_str(&mut s, " deferred_cmd=");
        push_decimal(&mut s, self.keybinds_deferred_to_commands as u64);
        push_str(&mut s, " sequences=");
        push_decimal(&mut s, self.keybinds_sequences as u64);
        push_str(&mut s, " warnings=");
        push_decimal(&mut s, self.warnings.len() as u64);
        s
    }
}

/// What an [`apply_plan_to_commands`] pass did to the registry.
#[derive(Debug, Clone, Default)]
pub struct CommandApplyReport {
    /// Names registered that were not there before.
    pub registered: u32,
    /// Names whose earlier command a `defcmd` replaced.
    pub overridden: u32,
    /// Those names, in the order they were replaced.
    pub overridden_names: Vec<String>,
}

impl CommandApplyReport {
    /// A one-line count of what the pass did.
    pub fn summary(&self) -> (s: String)
        ensures
            s@ == "commands_registered="@ + decimal(self.registered as nat) + " overridden="@ + decimal(
                self.overridden as nat,
            ),
    {
        let mut s = owned("commands_registered=");
        push_decimal(&mut s, self.registered as u64);
        push_str(&mut s, " overridden=");
        push_decimal(&mut s, self.overridden as u64);
        s
    }
}

/// `n` is registered in `es`, or named by one of `cs`.
pub open spec fn named_before(es: Seq<Command>, cs: Seq<CmdSpec>, n: Seq<char>) -> bool {
    lookup(es, n) is Some || exists|j: int| 0 <= j < cs.len() && (#[trigger] cs[j]).name@ == n
}

/// The names among `cs` that replace a command: registered in `es`, or
/// named by an earlier `defcmd`.
pub open spec fn overridden_of(es: Seq<Command>, cs: Seq<CmdSpec>) -> Seq<Seq<char>>
    decreases cs.len(),
{
    if cs.len() == 0 {
        Seq::<Seq<char>>::empty()
    } else {
        let p = overridden_of(es, cs.drop_last());
        if named_before(es, cs.drop_last(), cs.last().name@) {
            p.push(cs.last().name@)
        } else {
            p
        }
    }
}

proof fn lemma_overridden_len(es: Seq<Command>, cs: Seq<CmdSpec>)
    ensures
        overridden_of(es, cs).len() <= cs.len(),
    decreases cs.len(),
{
    if cs.len() > 0 {
        lemma_overridden_len(es, cs.drop_last());
    }
}

/// Register every `defcmd` of `plan` as a command whose body is its action
/// symbol. A later `defcmd` of a name replaces the earlier command, built
/// in or not, and the replacement is reported.
#[verifier::rlimit(80)]
pub fn apply_plan_to_commands(plan: &ApplyPlan, registry: &mut CommandRegistry) -> (report: CommandApplyReport)
    requires
        plan.commands@.len() <= u32::MAX,
    ensures
        report.overridden_names@.map_values(|n: String| n@) == overridden_of(
            old(registry).spec_commands(),
            plan.commands@,
        ),
        report.overridden as nat == overridden_of(old(registry).spec_commands(), plan.commands@).len(),
        report.registered + report.overridden == plan.commands@.len(),
        forall|j: int|
            0 <= j < plan.commands@.len() && (forall|k: int|
                j < k < plan.commands@.len() ==> (#[trigger] plan.commands@[k]).name@ != plan.commands@[j].name@)
                ==> #[trigger] final(registry).spec_lookup(plan.commands@[j].name@) == Some(
                Target::Action(plan.commands@[j].action@),
            ),
        forall|n: Seq<char>|
            (forall|j: int| 0 <= j < plan.commands@.len() ==> (#[trigger] plan.commands@[j]).name@ != n)
                ==> #[trigger] final(registry).spec_lookup(n) == old(registry).spec_lookup(n),
        old(registry).wf() ==> final(registry).wf() && final(registry).spec_commands().len()
            == old(registry).spec_commands().len() + report.registered,
{
    let ghost es0 = registry.spec_commands();
    let ghost cs = plan.commands@;
    let mut report = CommandApplyReport { registered: 0, overridden: 0, overridden_names: Vec::new() };
    let mut i: usize = 0;
    while i < plan.commands.len()
        invariant
            i <= cs.len(),
            cs == plan.commands@,
            cs.len() <= u32::MAX,
            report.overridden_names@.map_values(|n: String| n@) == overridden_of(es0, cs.subrange(0, i as int)),
            report.overridden as nat == overridden_of(es0, cs.subrange(0, i as int)).len(),
            report.registered + report.overridden == i,
            forall|n: Seq<char>|
                #[trigger] lookup(registry.spec_commands(), n) is Some <==> named_before(es0, cs.subrange(0, i as int), n),
            forall|j: int|
                0 <= j < i && (forall|k: int| j < k < i ==> (#[trigger] cs[k]).name@ != cs[j].name@)
                    ==> #[trigger] registry.spec_lookup(cs[j].name@) == Some(Target::Action(cs[j].action@)),
            forall|n: Seq<char>|
                (forall|j: int| 0 <= j < i ==> (#[trigger] cs[j]).name@ != n) ==> #[trigger] registry.spec_lookup(n)
                    == lookup(es0, n),
            names_wf(es0) ==> registry.wf() && registry.spec_commands().len() == es0.len() + report.registered,
        decreases cs.len() - i,
    {
        let spec = &plan.commands[i];
        let ghost pre = cs.subrange(0, i as int);
        let ghost post = cs.subrange(0, i + 1);
        assert(post.drop_last() =~= pre);
        assert(post.last() == cs[i as int]);
        proof {
            lemma_overridden_len(es0, pre);
            lemma_lookup_has_name(registry.spec_commands(), spec.name@);
        }
        let ghost old_cmds = registry.spec_commands();
        assert(forall|n: Seq<char>| #[trigger] lookup(old_cmds, n) is Some <==> named_before(es0, pre, n));
        if registry.contains(spec.name.as_str()) {
            report.overridden += 1;
            let ghost nv = report.overridden_names@;
            report.overridden_names.push(spec.name.clone());
            assert(report.overridden_names@.map_values(|n: String| n@) =~= nv.map_values(|n: String| n@).push(
                spec.name@,
            ));
        } else {
            report.registered += 1;
        }
        registry.register(Command::action(spec.name.as_str(), spec.description.as_str(), spec.action.as_str()));
        proof {
            assert forall|n: Seq<char>| #[trigger] lookup(registry.spec_commands(), n) is Some <==> named_before(es0, post, n) by {
                if n != spec.name@ {
                    assert(registry.spec_lookup(n) == lookup(old_cmds, n));
                    assert(lookup(old_cmds, n) is Some <==> named_before(es0, pre, n));
                    if exists|j: int| 0 <= j < post.len() && (#[trigger] post[j]).name@ == n {
                        let j = choose|j: int| 0 <= j < post.len() && (#[trigger] post[j]).name@ == n;
                        assert(pre[j] == post[j]);
                    }
                    if exists|j: int| 0 <= j < pre.len() && (#[trigger] pre[j]).name@ == n {
                        let j = choose|j: int| 0 <= j < pre.len() && (#[trigger] pre[j]).name@ == n;
                        assert(pre[j] == post[j]);
                    }
                } else {
                    assert(post[i as int].name@ == n);
                }
            }
            assert forall|j: int|
                0 <= j < i + 1 && (forall|k: int| j < k < i + 1 ==> (#[trigger] cs[k]).name@ != cs[j].name@)
                    implies #[trigger] registry.spec_lookup(cs[j].name@) == Some(Target::Action(cs[j].action@)) by {
                if j < i {
                    assert(cs[i as int].name@ != cs[j].name@);
                }
            }
            assert forall|n: Seq<char>|
                (forall|j: int| 0 <= j < i + 1 ==> (#[trigger] cs[j]).name@ != n) implies #[trigger] registry.spec_lookup(n)
                    == lookup(es0, n) by {
                assert(cs[i as int].name@ != n);
            }
        }
        i += 1;
    }
    assert(cs.subrange(0, i as int) =~= cs);
    report
}

/// No two commands of `es` share a name.
pub open spec fn names_wf(es: Seq<Command>) -> bool {
    crate::command::names_unique(es)
}

/// What an [`apply_plan_to_options`] pass did to the option store.
#[derive(Debug, Clone, Default)]
pub struct OptionApplyReport {
    /// Options set that were not set before.
    pub set: u32,
    /// Options whose earlier value was replaced.
    pub overridden: u32,
}

impl OptionApplyReport {
    /// A one-line count of what the pass did.
    pub fn summary(&self) -> (s: String)
        ensures
            s@ == "options_set="@ + decimal(self.set as nat) + " overridden="@ + decimal(self.overridden as nat),
    {
        let mut s = owned("options_set=");
        push_decimal(&mut s, self.set as u64);
        push_str(&mut s, " overridden=");
        push_decimal(&mut s, self.overridden as u64);
        s
    }
}

/// Setting each of `os` in turn on the store `m`: the store after, and how
/// many of them replaced a value.
pub open spec fn options_fold(m: Map<Seq<char>, Seq<char>>, os: Seq<OptionSpec>) -> (Map<Seq<char>, Seq<char>>, nat)
    decreases os.len(),
{
    if os.len() == 0 {
        (m, 0)
    } else {
        let (m1, c) = options_fold(m, os.drop_last());
        let o = os.last();
        (m1.insert(o.name@, o.value@), if m1.dom().contains(o.name@) {
            c + 1
        } else {
            c
        })
    }
}

proof fn lemma_options_fold_count(m: Map<Seq<char>, Seq<char>>, os: Seq<OptionSpec>)
    ensures
        options_fold(m, os).1 <= os.len(),
    decreases os.len(),
{
    if os.len() > 0 {
        lemma_options_fold_count(m, os.drop_last());
    }
}

/// The value the last of `os` named `n` sets, if any does.
pub open spec fn last_value(os: Seq<OptionSpec>, n: Seq<char>) -> Option<Seq<char>>
    decreases os.len(),
{
    if os.len() == 0 {
        None
    } else if os.last().name@ == n {
        Some(os.last().value@)
    } else {
        last_value(os.drop_last(), n)
    }
}

/// How many distinct names `os` sets that `m` does not hold (each counted
/// at its first occurrence).
pub open spec fn fresh_count(m: Map<Seq<char>, Seq<char>>, os: Seq<OptionSpec>) -> nat
    decreases os.len(),
{
    if os.len() == 0 {
        0
    } else {
        fresh_count(m, os.drop_last()) + (if !m.dom().contains(os.last().name@) && last_value(
            os.drop_last(),
            os.last().name@,
        ) is None {
            1nat
        } else {
            0nat
        })
    }
}

/// Setting `os` on `m` in turn: a name ends holding the value of the last
/// option naming it, a name no option names keeps its value, no name is
/// dropped, and every option either replaced a value or set one of the
/// distinct new names.
pub proof fn lemma_options_fold_law(m: Map<Seq<char>, Seq<char>>, os: Seq<OptionSpec>)
    ensures
        forall|n: Seq<char>|
            #[trigger] options_fold(m, os).0.dom().contains(n) <==> (m.dom().contains(n) || last_value(
                os,
                n,
            ) is Some),
        forall|n: Seq<char>|
            options_fold(m, os).0.dom().contains(n) ==> #[trigger] options_fold(m, os).0[n] == (match last_value(
                os,
                n,
            ) {
                Some(v) => v,
                None => m[n],
            }),
        options_fold(m, os).1 + fresh_count(m, os) == os.len(),
    decreases os.len(),
{
    if os.len() > 0 {
        lemma_options_fold_law(m, os.drop_last());
    }
}

/// Set every `defoption` of `plan` in the option store, in order; a later
/// value for a name replaces the earlier one.
pub fn apply_plan_to_options(plan: &ApplyPlan, options: &mut OptionStore) -> (report: OptionApplyReport)
    requires
        old(options).wf(),
        plan.options@.len() <= u32::MAX,
    ensures
        final(options).wf(),
        final(options).spec_map() == options_fold(old(options).spec_map(), plan.options@).0,
        report.overridden as nat == options_fold(old(options).spec_map(), plan.options@).1,
        report.set + report.overridden == plan.options@.len(),
        report.set as nat == fresh_count(old(options).spec_map(), plan.options@),
        forall|n: Seq<char>|
            #[trigger] final(options).spec_map().dom().contains(n) <==> (old(options).spec_map().dom().contains(n)
                || last_value(plan.options@, n) is Some),
        forall|n: Seq<char>|
            final(options).spec_map().dom().contains(n) ==> #[trigger] final(options).spec_map()[n] == (
            match last_value(plan.options@, n) {
                Some(v) => v,
                None => old(options).spec_map()[n],
            }),
{
    proof {
        lemma_options_fold_law(options.spec_map(), plan.options@);
    }
    let ghost m0 = options.spec_map();
    let ghost os = plan.options@;
    let mut report = OptionApplyReport { set: 0, overridden: 0 };
    let mut i: usize = 0;
    while i < plan.options.len()
        invariant
            i <= os.len(),
            os == plan.options@,
            os.len() <= u32::MAX,
            options.wf(),
            options.spec_map() == options_fold(m0, os.subrange(0, i as int)).0,
            report.overridden as nat == options_fold(m0, os.subrange(0, i as int)).1,
            report.set + report.overridden == i,
        decreases os.len() - i,
    {
        let ghost pre = os.subrange(0, i as int);
        let ghost post = os.subrange(0, i + 1);
        assert(post.drop_last() =~= pre);
        assert(post.last() == os[i as int]);
        proof {
            lemma_options_fold_count(m0, pre);
        }
        let o = &plan.options[i];
        if options.set(o.name.as_str(), o.value.as_str()) {
            report.overridden += 1;
        } else {
            report.set += 1;
        }
        i += 1;
    }
    assert(os.subrange(0, i as int) =~= os);
    report
}

/// A filetype as its name, extensions and comment syntax.
pub type FiletypeView = (Seq<char>, Seq<Seq<char>>, Option<(Seq<char>, Seq<char>)>);

pub open spec fn ft_view(f: Filetype) -> FiletypeView {
    (f.name@, f.extensions@.map_values(|e: String| e@), comment_view(f.comment))
}

/// The filetype a `defmode` declares.
pub open spec fn mode_view(m: MajorModeSpec) -> FiletypeView {
    (m.name@, m.extensions@.map_values(|e: String| e@), spec_comment(m.commentstring@))
}

/// `vs` without the filetypes named `name`, in order.
pub open spec fn without_view(vs: Seq<FiletypeView>, name: Seq<char>) -> Seq<FiletypeView>
    decreases vs.len(),
{
    if vs.len() == 0 {
        vs
    } else {
        let r = without_view(vs.drop_last(), name);
        if vs.last().0 == name {
            r
        } else {
            r.push(vs.last())
        }
    }
}

/// Declaring each named mode of `ms` in turn on the table `vs`: the table
/// after, and how many modes were declared.
pub open spec fn filetypes_fold(vs: Seq<FiletypeView>, ms: Seq<MajorModeSpec>) -> (Seq<FiletypeView>, nat)
    decreases ms.len(),
{
    if ms.len() == 0 {
        (vs, 0)
    } else {
        let (v1, c) = filetypes_fold(vs, ms.drop_last());
        let m = ms.last();
        if m.name@.len() == 0 {
            (v1, c)
        } else {
            (without_view(v1, m.name@).push(mode_view(m)), c + 1)
        }
    }
}

proof fn lemma_without_view(es: Seq<Filetype>, name: Seq<char>)
    ensures
        without_name(es, name).map_values(|f: Filetype| ft_view(f)) == without_view(
            es.map_values(|f: Filetype| ft_view(f)),
            name,
        ),
    decreases es.len(),
{
    if es.len() > 0 {
        lemma_without_view(es.drop_last(), name);
        assert(es.drop_last().map_values(|f: Filetype| ft_view(f)) =~= es.map_values(|f: Filetype| ft_view(f)).drop_last());
        let r = without_name(es.drop_last(), name);
        assert(r.push(es.last()).map_values(|f: Filetype| ft_view(f)) =~= r.map_values(|f: Filetype| ft_view(f)).push(
            ft_view(es.last()),
        ));
    }
}

proof fn lemma_filetypes_fold_count(vs: Seq<FiletypeView>, ms: Seq<MajorModeSpec>)
    ensures
        filetypes_fold(vs, ms).1 <= ms.len(),
    decreases ms.len(),
{
    if ms.len() > 0 {
        lemma_filetypes_fold_count(vs, ms.drop_last());
    }
}

/// Declare every named `defmode` of `plan` as a filetype: its name, its
/// extensions and its comment syntax (none when the commentstring has no
/// `%s`). A later mode of a name replaces the earlier filetype. Returns how
/// many were declared.
pub fn apply_plan_to_filetypes(plan: &ApplyPlan, table: &mut FiletypeTable) -> (n: usize)
    ensures
        final(table).spec_entries().map_values(|f: Filetype| ft_view(f)) == filetypes_fold(
            old(table).spec_entries().map_values(|f: Filetype| ft_view(f)),
            plan.major_modes@,
        ).0,
        n == filetypes_fold(old(table).spec_entries().map_values(|f: Filetype| ft_view(f)), plan.major_modes@).1,
{
    let ghost v0 = table.spec_entries().map_values(|f: Filetype| ft_view(f));
    let ghost ms = plan.major_modes@;
    let mut n: usize = 0;
    let mut i: usize = 0;
    while i < plan.major_modes.len()
        invariant
            i <= ms.len(),
            ms == plan.major_modes@,
            n <= i,
            table.spec_entries().map_values(|f: Filetype| ft_view(f)) == filetypes_fold(v0, ms.subrange(0, i as int)).0,
            n == filetypes_fold(v0, ms.subrange(0, i as int)).1,
        decreases ms.len() - i,
    {
        let ghost pre = ms.subrange(0, i as int);
        let ghost post = ms.subrange(0, i + 1);
        assert(post.drop_last() =~= pre);
        assert(post.last() == ms[i as int]);
        let m = &plan.major_modes[i];
        if m.name.unicode_len() != 0 {
            let ft = Filetype {
                name: owned(m.name.as_str()),
                extensions: copy_strings(&m.extensions),
                comment: CommentString::parse(m.commentstring.as_str()),
            };
            let ghost before = table.spec_entries();
            proof {
                lemma_without_view(before, ft.name@);
            }
            table.insert(ft);
            proof {
                let w = without_name(before, m.name@);
                assert(table.spec_entries().map_values(|f: Filetype| ft_view(f)) =~= w.map_values(
                    |f: Filetype| ft_view(f),
                ).push(ft_view(table.spec_entries().last())));
            }
            n += 1;
        }
        i += 1;
    }
    assert(ms.subrange(0, i as int) =~= ms);
    n
}

/// What the grammar pass did: extensions registered, extensions skipped
/// because their language has no grammar, and those languages.
#[derive(Debug, Clone, Default)]
pub struct GrammarApplyReport {
    pub extensions_registered: u32,
    pub extensions_skipped_unknown_language: u32,
    pub unknown_languages: Vec<String>,
}

/// What the first `n` modes of `ms` do, `known[i]` telling whether mode
/// `i`'s tree-sitter language has a grammar: the `(language, extension)`
/// pairs to register, the extensions skipped, and the unknown languages,
/// each once, in order.
pub open spec fn grammar_fold(ms: Seq<MajorModeSpec>, known: Seq<bool>, n: nat) -> (
    Seq<(Seq<char>, Seq<char>)>,
    nat,
    Seq<Seq<char>>,
)
    decreases n,
{
    if n == 0 {
        (Seq::empty(), 0, Seq::empty())
    } else {
        let (regs, skipped, unknown) = grammar_fold(ms, known, (n - 1) as nat);
        let m = ms[n - 1];
        let lang = m.tree_sitter@;
        let exts = m.extensions@.map_values(|e: String| e@);
        if lang.len() == 0 {
            (regs, skipped, unknown)
        } else if known[n - 1] {
            (regs + exts.map_values(|e: Seq<char>| (lang, e)), skipped, unknown)
        } else {
            (regs, skipped + exts.len(), if unknown.contains(lang) {
                unknown
            } else {
                unknown.push(lang)
            })
        }
    }
}

/// All the extensions the modes of `ms` list.
pub open spec fn total_extensions(ms: Seq<MajorModeSpec>) -> nat
    decreases ms.len(),
{
    if ms.len() == 0 {
        0
    } else {
        total_extensions(ms.drop_last()) + ms.last().extensions@.len()
    }
}

/// Mode `i` names the tree-sitter language `l`, which has no grammar.
pub open spec fn skips_lang(ms: Seq<MajorModeSpec>, known: Seq<bool>, i: int, l: Seq<char>) -> bool {
    ms[i].tree_sitter@.len() > 0 && !known[i] && ms[i].tree_sitter@ == l
}

/// Mode `i` names a tree-sitter language that has a grammar.
pub open spec fn registers_lang(ms: Seq<MajorModeSpec>, known: Seq<bool>, i: int) -> bool {
    ms[i].tree_sitter@.len() > 0 && known[i]
}

/// The first of the first `n` modes that skips language `l`, or `n`.
pub open spec fn first_skip(ms: Seq<MajorModeSpec>, known: Seq<bool>, l: Seq<char>, n: nat) -> nat
    decreases n,
{
    if n == 0 {
        0
    } else {
        let f = first_skip(ms, known, l, (n - 1) as nat);
        if f < n - 1 {
            f
        } else if skips_lang(ms, known, n - 1, l) {
            (n - 1) as nat
        } else {
            n
        }
    }
}

/// The extensions the first `n` modes list, counting only modes that name
/// a tree-sitter language.
pub open spec fn ts_extensions(ms: Seq<MajorModeSpec>, n: nat) -> nat
    decreases n,
{
    if n == 0 {
        0
    } else {
        ts_extensions(ms, (n - 1) as nat) + (if ms[n - 1].tree_sitter@.len() > 0 {
            ms[n - 1].extensions@.len()
        } else {
            0
        })
    }
}

proof fn lemma_first_skip(ms: Seq<MajorModeSpec>, known: Seq<bool>, l: Seq<char>, k: nat)
    ensures
        first_skip(ms, known, l, k) <= k,
        first_skip(ms, known, l, k) < k ==> skips_lang(ms, known, first_skip(ms, known, l, k) as int, l),
        first_skip(ms, known, l, k) == k <==> !(exists|i: int| 0 <= i < k && #[trigger] skips_lang(ms, known, i, l)),
        forall|i: int| 0 <= i < first_skip(ms, known, l, k) ==> !#[trigger] skips_lang(ms, known, i, l),
    decreases k,
{
    if k > 0 {
        lemma_first_skip(ms, known, l, (k - 1) as nat);
    }
}

/// What registering the grammar extensions of the first `n` modes does,
/// in closed form: the pairs registered are exactly each extension of a
/// mode whose language has a grammar, paired with that language; every
/// extension of a mode naming a language is either registered or skipped;
/// and the unknown languages are each language without a grammar, once,
/// in the order a mode first names it.
pub proof fn lemma_grammar_law(ms: Seq<MajorModeSpec>, known: Seq<bool>, n: nat)
    requires
        n <= ms.len(),
    ensures
        forall|p: (Seq<char>, Seq<char>)|
            #[trigger] grammar_fold(ms, known, n).0.contains(p) <==> exists|i: int, j: int|
                0 <= i < n && registers_lang(ms, known, i) && 0 <= j < ms[i].extensions@.len() && p == (
                    ms[i].tree_sitter@,
                    #[trigger] ms[i].extensions@[j]@,
                ),
        grammar_fold(ms, known, n).0.len() + grammar_fold(ms, known, n).1 == ts_extensions(ms, n),
        forall|a: int, b: int|
            0 <= a < b < grammar_fold(ms, known, n).2.len() ==> #[trigger] grammar_fold(ms, known, n).2[a]
                != #[trigger] grammar_fold(ms, known, n).2[b],
        forall|l: Seq<char>|
            #[trigger] grammar_fold(ms, known, n).2.contains(l) <==> exists|i: int|
                0 <= i < n && #[trigger] skips_lang(ms, known, i, l),
        forall|a: int, b: int|
            0 <= a < b < grammar_fold(ms, known, n).2.len() ==> first_skip(
                ms,
                known,
                #[trigger] grammar_fold(ms, known, n).2[a],
                n,
            ) < first_skip(ms, known, #[trigger] grammar_fold(ms, known, n).2[b], n),
        forall|a: int|
            0 <= a < grammar_fold(ms, known, n).2.len() ==> first_skip(
                ms,
                known,
                #[trigger] grammar_fold(ms, known, n).2[a],
                n,
            ) < n,
    decreases n,
{
    if n > 0 {
        let k = (n - 1) as nat;
        lemma_grammar_law(ms, known, k);
        let (regs, skipped, unknown) = grammar_fold(ms, known, k);
        let m = ms[n - 1];
        let lang = m.tree_sitter@;
        let exts = m.extensions@.map_values(|e: String| e@);
        let r2 = grammar_fold(ms, known, n);
        if lang.len() == 0 {
            assert forall|p: (Seq<char>, Seq<char>)| #[trigger] r2.0.contains(p) <==> exists|i: int, j: int|
                0 <= i < n && registers_lang(ms, known, i) && 0 <= j < ms[i].extensions@.len() && p == (
                    ms[i].tree_sitter@,
                    #[trigger] ms[i].extensions@[j]@,
                ) by {
                if exists|i: int, j: int|
                    0 <= i < n && registers_lang(ms, known, i) && 0 <= j < ms[i].extensions@.len() && p == (
                        ms[i].tree_sitter@,
                        #[trigger] ms[i].extensions@[j]@,
                    ) {
                    let (i, j) = choose|i: int, j: int|
                        0 <= i < n && registers_lang(ms, known, i) && 0 <= j < ms[i].extensions@.len() && p == (
                            ms[i].tree_sitter@,
                            #[trigger] ms[i].extensions@[j]@,
                        );
                    assert(i < k);
                }
            }
            assert forall|l: Seq<char>| #[trigger] r2.2.contains(l) <==> exists|i: int|
                0 <= i < n && #[trigger] skips_lang(ms, known, i, l) by {
                if exists|i: int| 0 <= i < n && #[trigger] skips_lang(ms, known, i, l) {
                    let i = choose|i: int| 0 <= i < n && #[trigger] skips_lang(ms, known, i, l);
                    assert(i < k);
                }
            }
            assert forall|a: int| 0 <= a < r2.2.len() implies first_skip(ms, known, #[trigger] r2.2[a], n)
                == first_skip(ms, known, r2.2[a], k) by {}
        } else if known[n - 1] {
            let added = exts.map_values(|e: Seq<char>| (lang, e));
            assert forall|p: (Seq<char>, Seq<char>)| #[trigger] r2.0.contains(p) <==> exists|i: int, j: int|
                0 <= i < n && registers_lang(ms, known, i) && 0 <= j < ms[i].extensions@.len() && p == (
                    ms[i].tree_sitter@,
                    #[trigger] ms[i].extensions@[j]@,
                ) by {
                if r2.0.contains(p) {
                    let x = choose|x: int| 0 <= x < r2.0.len() && r2.0[x] == p;
                    if x < regs.len() {
                        assert(r2.0[x] == regs[x]);
                        assert(regs.contains(p));
                    } else {
                        let j = x - regs.len();
                        assert(r2.0[x] == added[j]);
                        assert(p == (ms[k as int].tree_sitter@, ms[k as int].extensions@[j]@));
                    }
                }
                if exists|i: int, j: int|
                    0 <= i < n && registers_lang(ms, known, i) && 0 <= j < ms[i].extensions@.len() && p == (
                        ms[i].tree_sitter@,
                        #[trigger] ms[i].extensions@[j]@,
                    ) {
                    let (i, j) = choose|i: int, j: int|
                        0 <= i < n && registers_lang(ms, known, i) && 0 <= j < ms[i].extensions@.len() && p == (
                            ms[i].tree_sitter@,
                            #[trigger] ms[i].extensions@[j]@,
                        );
                    if i < k {
                        assert(regs.contains(p));
                        let x = choose|x: int| 0 <= x < regs.len() && regs[x] == p;
                        assert(r2.0[x] == p);
                    } else {
                        assert(added[j] == p);
                        assert(r2.0[regs.len() + j] == p);
                    }
                }
            }
            assert forall|l: Seq<char>| #[trigger] r2.2.contains(l) <==> exists|i: int|
                0 <= i < n && #[trigger] skips_lang(ms, known, i, l) by {
                if exists|i: int| 0 <= i < n && #[trigger] skips_lang(ms, known, i, l) {
                    let i = choose|i: int| 0 <= i < n && #[trigger] skips_lang(ms, known, i, l);
                    assert(i < k);
                }
            }
            assert forall|a: int| 0 <= a < r2.2.len() implies first_skip(ms, known, #[trigger] r2.2[a], n)
                == first_skip(ms, known, r2.2[a], k) by {}
        } else {
            assert(r2.0 == regs);
            assert forall|p: (Seq<char>, Seq<char>)| #[trigger] r2.0.contains(p) <==> exists|i: int, j: int|
                0 <= i < n && registers_lang(ms, known, i) && 0 <= j < ms[i].extensions@.len() && p == (
                    ms[i].tree_sitter@,
                    #[trigger] ms[i].extensions@[j]@,
                ) by {
                if exists|i: int, j: int|
                    0 <= i < n && registers_lang(ms, known, i) && 0 <= j < ms[i].extensions@.len() && p == (
                        ms[i].tree_sitter@,
                        #[trigger] ms[i].extensions@[j]@,
                    ) {
                    let (i, j) = choose|i: int, j: int|
                        0 <= i < n && registers_lang(ms, known, i) && 0 <= j < ms[i].extensions@.len() && p == (
                            ms[i].tree_sitter@,
                            #[trigger] ms[i].extensions@[j]@,
                        );
                    assert(i < k);
                }
            }
            assert(skips_lang(ms, known, k as int, lang));
            lemma_first_skip(ms, known, lang, k);
            assert forall|l: Seq<char>| #[trigger] r2.2.contains(l) <==> exists|i: int|
                0 <= i < n && #[trigger] skips_lang(ms, known, i, l) by {
                if exists|i: int| 0 <= i < n && #[trigger] skips_lang(ms, known, i, l) {
                    let i = choose|i: int| 0 <= i < n && #[trigger] skips_lang(ms, known, i, l);
                    if i < k {
                        assert(unknown.contains(l));
                        let x = choose|x: int| 0 <= x < unknown.len() && unknown[x] == l;
                        assert(r2.2[x] == l);
                    } else {
                        assert(l == lang);
                        if unknown.contains(lang) {
                        } else {
                            assert(r2.2[unknown.len() as int] == lang);
                        }
                    }
                }
                if r2.2.contains(l) {
                    let x = choose|x: int| 0 <= x < r2.2.len() && r2.2[x] == l;
                    if x < unknown.len() {
                        assert(r2.2[x] == unknown[x]);
                        assert(unknown.contains(l));
                    } else {
                        assert(l == lang);
                        assert(skips_lang(ms, known, k as int, l));
                    }
                }
            }
            if unknown.contains(lang) {
                assert forall|a: int| 0 <= a < r2.2.len() implies first_skip(ms, known, #[trigger] r2.2[a], n)
                    == first_skip(ms, known, r2.2[a], k) by {}
            } else {
                assert(!(exists|i: int| 0 <= i < k && #[trigger] skips_lang(ms, known, i, lang))) by {
                    if exists|i: int| 0 <= i < k && #[trigger] skips_lang(ms, known, i, lang) {
                        assert(unknown.contains(lang));
                    }
                }
                assert(first_skip(ms, known, lang, k) == k);
                assert(first_skip(ms, known, lang, n) == k);
                assert forall|a: int| 0 <= a < unknown.len() implies first_skip(ms, known, #[trigger] r2.2[a], n)
                    == first_skip(ms, known, unknown[a], k) && first_skip(ms, known, unknown[a], k) < k by {
                    assert(r2.2[a] == unknown[a]);
                }
                assert forall|a: int, b: int| 0 <= a < b < r2.2.len() implies #[trigger] r2.2[a]
                    != #[trigger] r2.2[b] by {
                    if b == unknown.len() {
                        assert(r2.2[a] == unknown[a]);
                        assert(unknown.contains(unknown[a]));
                    } else {
                        assert(r2.2[a] == unknown[a] && r2.2[b] == unknown[b]);
                    }
                }
                assert forall|a: int, b: int| 0 <= a < b < r2.2.len() implies first_skip(
                    ms,
                    known,
                    #[trigger] r2.2[a],
                    n,
                ) < first_skip(ms, known, #[trigger] r2.2[b], n) by {
                    if b == unknown.len() {
                        assert(r2.2[b] == lang);
                    }
                }
            }
        }
    }
}

proof fn lemma_grammar_bounds(ms: Seq<MajorModeSpec>, known: Seq<bool>, n: nat)
    requires
        n <= ms.len(),
    ensures
        grammar_fold(ms, known, n).0.len() + grammar_fold(ms, known, n).1 <= total_extensions(ms.subrange(0, n as int)),
    decreases n,
{
    if n > 0 {
        lemma_grammar_bounds(ms, known, (n - 1) as nat);
        assert(ms.subrange(0, n as int).drop_last() =~= ms.subrange(0, n - 1));
    }
}

proof fn lemma_total_prefix(ms: Seq<MajorModeSpec>, n: int)
    requires
        0 <= n <= ms.len(),
    ensures
        total_extensions(ms.subrange(0, n)) <= total_extensions(ms),
    decreases ms.len() - n,
{
    if n < ms.len() {
        lemma_total_prefix(ms, n + 1);
        assert(ms.subrange(0, n + 1).drop_last() =~= ms.subrange(0, n));
    } else {
        assert(ms.subrange(0, n) =~= ms);
    }
}

/// Wire every `defmode` naming a tree-sitter language into the grammar
/// registry. `known[i]` says whether mode `i`'s language has a grammar;
/// the result is the report and the `(language, extension)` pairs to
/// register, in order. A mode without a language is skipped silently.
pub fn apply_plan_to_grammar_extensions(plan: &ApplyPlan, known: &Vec<bool>) -> (r: (
    GrammarApplyReport,
    Vec<(String, String)>,
))
    requires
        known@.len() == plan.major_modes@.len(),
        total_extensions(plan.major_modes@) <= u32::MAX,
    ensures
        r.1@.map_values(|p: (String, String)| (p.0@, p.1@)) == grammar_fold(
            plan.major_modes@,
            known@,
            plan.major_modes@.len(),
        ).0,
        r.0.extensions_registered as nat == grammar_fold(plan.major_modes@, known@, plan.major_modes@.len()).0.len(),
        r.0.extensions_skipped_unknown_language as nat == grammar_fold(
            plan.major_modes@,
            known@,
            plan.major_modes@.len(),
        ).1,
        r.0.unknown_languages@.map_values(|l: String| l@) == grammar_fold(
            plan.major_modes@,
            known@,
            plan.major_modes@.len(),
        ).2,
{
    let ghost ms = plan.major_modes@;
    let mut report = GrammarApplyReport {
        extensions_registered: 0,
        extensions_skipped_unknown_language: 0,
        unknown_languages: Vec::new(),
    };
    let mut regs: Vec<(String, String)> = Vec::new();
    let mut i: usize = 0;
    while i < plan.major_modes.len()
        invariant
            i <= ms.len(),
            ms == plan.major_modes@,
            known@.len() == ms.len(),
            total_extensions(ms) <= u32::MAX,
            regs@.map_values(|p: (String, String)| (p.0@, p.1@)) == grammar_fold(ms, known@, i as nat).0,
            report.extensions_registered as nat == grammar_fold(ms, known@, i as nat).0.len(),
            report.extensions_skipped_unknown_language as nat == grammar_fold(ms, known@, i as nat).1,
            report.unknown_languages@.map_values(|l: String| l@) == grammar_fold(ms, known@, i as nat).2,
        decreases ms.len() - i,
    {
        let m = &plan.major_modes[i];
        proof {
            lemma_grammar_bounds(ms, known@, (i + 1) as nat);
            lemma_total_prefix(ms, i + 1);
            assert(ms[i as int] == *m);
        }
        if m.tree_sitter.unicode_len() == 0 {
        } else if known[i] {
            let ghost base = regs@.map_values(|p: (String, String)| (p.0@, p.1@));
            let ghost exts = m.extensions@.map_values(|e: String| e@);
            let ghost skipped0 = report.extensions_skipped_unknown_language;
            let ghost unknown0 = report.unknown_languages@;
            assert(exts.subrange(0, 0) =~= Seq::<Seq<char>>::empty());
            assert(base + exts.subrange(0, 0).map_values(|e: Seq<char>| (m.tree_sitter@, e)) =~= base);
            let mut j: usize = 0;
            while j < m.extensions.len()
                invariant
                    j <= m.extensions@.len(),
                    report.extensions_skipped_unknown_language == skipped0,
                    report.unknown_languages@ == unknown0,
                    exts == m.extensions@.map_values(|e: String| e@),
                    regs@.map_values(|p: (String, String)| (p.0@, p.1@)) == base + exts.subrange(0, j as int).map_values(
                        |e: Seq<char>| (m.tree_sitter@, e),
                    ),
                    report.extensions_registered as nat == base.len() + j,
                    base.len() + exts.len() <= u32::MAX,
                decreases m.extensions@.len() - j,
            {
                let ghost rv = regs@;
                let ghost before = base + exts.subrange(0, j as int).map_values(|e: Seq<char>| (m.tree_sitter@, e));
                regs.push((owned(m.tree_sitter.as_str()), owned(m.extensions[j].as_str())));
                report.extensions_registered += 1;
                assert(regs@.map_values(|p: (String, String)| (p.0@, p.1@)) =~= rv.map_values(
                    |p: (String, String)| (p.0@, p.1@),
                ).push((m.tree_sitter@, exts[j as int])));
                assert(exts.subrange(0, j + 1).map_values(|e: Seq<char>| (m.tree_sitter@, e)) =~= exts.subrange(
                    0,
                    j as int,
                ).map_values(|e: Seq<char>| (m.tree_sitter@, e)).push((m.tree_sitter@, exts[j as int])));
                j += 1;
                assert(regs@.map_values(|p: (String, String)| (p.0@, p.1@)) =~= base + exts.subrange(0, j as int).map_values(
                    |e: Seq<char>| (m.tree_sitter@, e),
                ));
            }
            assert(exts.subrange(0, j as int) =~= exts);
        } else {
            report.extensions_skipped_unknown_language += m.extensions.len() as u32;
            let mut seen = false;
            let mut k: usize = 0;
            while k < report.unknown_languages.len()
                invariant
                    k <= report.unknown_languages@.len(),
                    seen == exists|t: int| 0 <= t < k && (#[trigger] report.unknown_languages@[t])@ == m.tree_sitter@,
                decreases report.unknown_languages@.len() - k,
            {
                if str_eq(report.unknown_languages[k].as_str(), m.tree_sitter.as_str()) {
                    seen = true;
                }
                k += 1;
            }
            let ghost uv = report.unknown_languages@.map_values(|l: String| l@);
            proof {
                if seen {
                    let t = choose|t: int| 0 <= t < k && (#[trigger] report.unknown_languages@[t])@ == m.tree_sitter@;
                    assert(uv[t] == m.tree_sitter@);
                } else {
                    assert forall|t: int| 0 <= t < uv.len() implies uv[t] != m.tree_sitter@ by {
                        assert(uv[t] == report.unknown_languages@[t]@);
                    }
                }
            }
            if !seen {
                report.unknown_languages.push(owned(m.tree_sitter.as_str()));
                assert(report.unknown_languages@.map_values(|l: String| l@) =~= uv.push(m.tree_sitter@));
            }
        }
        i += 1;
    }
    (report, regs)
}

} // verus!
