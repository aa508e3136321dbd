//! Mode-aware keybinding dispatch: single keys and multi-key sequences,
//! with every bind that will not do what its author meant recorded as it
//! happens.

use vstd::prelude::*;
use awase::{Hotkey, Reserved};
use crate::keys::{
    Key, to_hotkey, spec_to_hotkey, key_eq, keys_eq, keys_prefix, keys_start_with, keys_debug,
    keys_debug_string, refusal, reserved_refuse, reserved_fleet_darwin, key_debug, push_key_debug, claims,
};
use crate::mode::Mode;
use crate::action::{Action, CountedAction, same_action};
use crate::assoc::{assoc_map, keys_unique, lemma_assoc_dom, lemma_assoc_index, lemma_assoc_push, lemma_assoc_update};
use crate::text::{owned, push_str};
use crate::order::{seq_le, str_le, lemma_seq_le_total};

verus! {

/// What a key does, and the line a which-key popup shows for it.
#[derive(Debug, Clone)]
pub struct Binding {
    pub action: Action,
    pub description: String,
}

impl Binding {
    pub fn new(action: Action, description: &str) -> (b: Self)
        ensures
            b.action == action,
            b.description@ == description@,
    {
        Self { action, description: owned(description) }
    }

    /// A copy holding the same action and description.
    pub fn duplicate(&self) -> (b: Self)
        ensures
            same_action(b.action, self.action),
            b.description@ == self.description@,
    {
        Self { action: self.action.duplicate(), description: self.description.clone() }
    }
}

/// A binding that will not do what its author intended.
#[derive(Debug, Clone, PartialEq, Eq)]
pub enum Collision {
    /// Something outside escriba (the OS, the window manager, the terminal)
    /// owns the chord: the binding can never fire.
    Reserved { mode: Mode, key: String, description: String, why: String },
    /// A later binding displaced an earlier one for the same keys.
    Displaced { mode: Mode, key: String, replaced: String, with: String },
}

/// `c` records that `key` in `mode` (described `description`) is owned
/// elsewhere, for the reason `why`.
pub open spec fn is_reserved_note(c: Collision, mode: Mode, key: Seq<char>, description: Seq<char>, why: Seq<char>) -> bool {
    c matches Collision::Reserved { mode: m, key: k, description: d, why: w } && m == mode && k@ == key
        && d@ == description && w@ == why
}

/// `c` records that `key` in `mode` was `replaced` by `with`.
pub open spec fn is_displaced_note(c: Collision, mode: Mode, key: Seq<char>, replaced: Seq<char>, with: Seq<char>) -> bool {
    c matches Collision::Displaced { mode: m, key: k, replaced: r, with: w } && m == mode && k@ == key
        && r@ == replaced && w@ == with
}

/// A mode's `Debug` spelling.
pub open spec fn mode_debug(m: Mode) -> Seq<char> {
    match m {
        Mode::Normal => "Normal"@,
        Mode::Insert => "Insert"@,
        Mode::Visual => "Visual"@,
        Mode::VisualLine => "VisualLine"@,
        Mode::Command => "Command"@,
    }
}

/// The one line a collision reports.
pub open spec fn report_text(c: Collision) -> Seq<char> {
    match c {
        Collision::Reserved { mode, key, description, why } => mode_debug(mode) + " "@ + key@ + " ("@
            + description@ + ") \u{2014} "@ + why@,
        Collision::Displaced { mode, key, replaced, with } => mode_debug(mode) + " "@ + key@
            + " \u{2014} \""@ + replaced@ + "\" was replaced by \""@ + with@ + "\""@,
    }
}

impl Collision {
    /// One line an operator can act on.
    pub fn report(&self) -> (s: String)
        ensures
            s@ == report_text(*self),
    {
        match self {
            Collision::Reserved { mode, key, description, why } => {
                let mut s = owned(mode.variant_name());
                push_str(&mut s, " ");
                push_str(&mut s, key.as_str());
                push_str(&mut s, " (");
                push_str(&mut s, description.as_str());
                push_str(&mut s, ") \u{2014} ");
                push_str(&mut s, why.as_str());
                s
            },
            Collision::Displaced { mode, key, replaced, with } => {
                let mut s = owned(mode.variant_name());
                push_str(&mut s, " ");
                push_str(&mut s, key.as_str());
                push_str(&mut s, " \u{2014} \"");
                push_str(&mut s, replaced.as_str());
                push_str(&mut s, "\" was replaced by \"");
                push_str(&mut s, with.as_str());
                push_str(&mut s, "\"");
                s
            },
        }
    }

    /// An exact copy.
    pub fn duplicate(&self) -> (c: Self)
        ensures
            c == *self,
    {
        match self {
            Collision::Reserved { mode, key, description, why } => Collision::Reserved {
                mode: *mode,
                key: key.clone(),
                description: description.clone(),
                why: why.clone(),
            },
            Collision::Displaced { mode, key, replaced, with } => Collision::Displaced {
                mode: *mode,
                key: key.clone(),
                replaced: replaced.clone(),
                with: with.clone(),
            },
        }
    }

    /// Can this binding never fire? Only an outside claim makes it so.
    pub fn is_fatal(&self) -> (b: bool)
        ensures
            b == (*self is Reserved),
    {
        match self {
            Collision::Reserved { .. } => true,
            Collision::Displaced { .. } => false,
        }
    }
}

/// What `dispatch` does with a key instead of consulting the table.
#[derive(Debug, Clone, Copy, PartialEq, Eq, Structural)]
pub enum Preempted {
    /// Normal mode: the key is composing a count (`5` of `5dd`).
    Count,
    /// Insert mode: a printable character types itself.
    SelfInsert,
    /// Insert mode: `<CR>` opens a line.
    Newline,
    /// Command mode: a printable character types into the prompt.
    PromptInsert,
}

/// Whether `dispatch` preempts a key, and whether it always does.
#[derive(Debug, Clone, Copy, PartialEq, Eq, Structural)]
pub enum Preemption {
    /// The key never reaches the binding table: a declaration is dead.
    Always(Preempted),
    /// The key reaches the table unless a count is pending.
    WhenCounting(Preempted),
}

/// The action a preempted key resolves to.
pub open spec fn spec_resolved(p: Preempted, key: Key) -> Action {
    match p {
        Preempted::Count => Action::Pending,
        Preempted::SelfInsert | Preempted::PromptInsert => match key {
            Key::Char(c) => Action::InsertChar(c),
            _ => Action::Pending,
        },
        Preempted::Newline => Action::InsertChar('\n'),
    }
}

impl Preempted {
    /// What `dispatch` answers for a preempted key, once.
    pub fn resolved(self, key: &Key) -> (c: CountedAction)
        ensures
            c.count == 1,
            c.action == spec_resolved(self, *key),
    {
        match self {
            Preempted::Count => CountedAction::once(Action::Pending),
            Preempted::SelfInsert | Preempted::PromptInsert => match key {
                Key::Char(c) => CountedAction::once(Action::InsertChar(*c)),
                _ => CountedAction::once(Action::Pending),
            },
            Preempted::Newline => CountedAction::once(Action::InsertChar('\n')),
        }
    }
}

/// Whether `dispatch` answers `(mode, key)` before the table: in Normal,
/// `0` only while a count is typed and `1`–`9` always (a count); in Insert,
/// printable characters (they type themselves) and `<CR>` (a new line); in
/// Command, printable characters (they type into the prompt).
pub open spec fn spec_preemption(mode: Mode, key: Key) -> Option<Preemption> {
    match (mode, key) {
        (Mode::Normal, Key::Char(c)) => if c == '0' {
            Some(Preemption::WhenCounting(Preempted::Count))
        } else if '1' <= c && c <= '9' {
            Some(Preemption::Always(Preempted::Count))
        } else {
            None
        },
        (Mode::Insert, Key::Char(_)) => Some(Preemption::Always(Preempted::SelfInsert)),
        (Mode::Insert, Key::Enter) => Some(Preemption::Always(Preempted::Newline)),
        (Mode::Command, Key::Char(_)) => Some(Preemption::Always(Preempted::PromptInsert)),
        _ => None,
    }
}

/// In Normal mode `0` is the line-start key unless a count is being typed
/// (only then is it a count digit), `1`–`9` always type a count, and no
/// other character is held back; in Insert mode every character types
/// itself and `<CR>` a new line; in Command mode every character types
/// into the prompt.
pub proof fn lemma_preemption_table(c: char)
    ensures
        spec_preemption(Mode::Normal, Key::Char('0')) == Some(Preemption::WhenCounting(Preempted::Count)),
        spec_preemption(Mode::Normal, Key::Char(c)) matches Some(Preemption::Always(_)) <==> ('1' <= c
            && c <= '9'),
        ('1' <= c && c <= '9') ==> spec_preemption(Mode::Normal, Key::Char(c)) == Some(
            Preemption::Always(Preempted::Count),
        ),
        !('0' <= c && c <= '9') ==> spec_preemption(Mode::Normal, Key::Char(c)) is None,
        spec_preemption(Mode::Insert, Key::Char(c)) == Some(Preemption::Always(Preempted::SelfInsert)),
        spec_preemption(Mode::Insert, Key::Enter) == Some(Preemption::Always(Preempted::Newline)),
        spec_preemption(Mode::Command, Key::Char(c)) == Some(Preemption::Always(Preempted::PromptInsert)),
        spec_resolved(Preempted::Count, Key::Char(c)) == Action::Pending,
        spec_resolved(Preempted::SelfInsert, Key::Char(c)) == Action::InsertChar(c),
        spec_resolved(Preempted::PromptInsert, Key::Char(c)) == Action::InsertChar(c),
        spec_resolved(Preempted::Newline, Key::Enter) == Action::InsertChar('\n'),
{
}

/// Does `dispatch` answer `(mode, key)` before the binding table?
pub fn preemption(mode: Mode, key: &Key) -> (r: Option<Preemption>)
    ensures
        r == spec_preemption(mode, *key),
{
    match (mode, key) {
        (Mode::Normal, Key::Char(c)) => {
            if *c == '0' {
                Some(Preemption::WhenCounting(Preempted::Count))
            } else if '1' <= *c && *c <= '9' {
                Some(Preemption::Always(Preempted::Count))
            } else {
                None
            }
        },
        (Mode::Insert, Key::Char(_)) => Some(Preemption::Always(Preempted::SelfInsert)),
        (Mode::Insert, Key::Enter) => Some(Preemption::Always(Preempted::Newline)),
        (Mode::Command, Key::Char(_)) => Some(Preemption::Always(Preempted::PromptInsert)),
        _ => None,
    }
}

/// `s` strictly extends `p`.
pub open spec fn extends(p: Seq<Key>, s: Seq<Key>) -> bool {
    s.len() > p.len() && keys_prefix(p, s)
}

/// The sequences and bindings of a result under construction.
pub open spec fn out_view(v: Seq<(Vec<Key>, &Binding)>) -> Seq<(Seq<Key>, Binding)> {
    v.map_values(|e: (Vec<Key>, &Binding)| (e.0@, *e.1))
}

/// The texts of a list of strings.
pub open spec fn dbg_view(v: Seq<String>) -> Seq<Seq<char>> {
    v.map_values(|s: String| s@)
}

/// Each collected sequence is spelled by its `Debug` text.
pub open spec fn c_spelled(ov: Seq<(Seq<Key>, Binding)>, dv: Seq<Seq<char>>) -> bool {
    &&& dv.len() == ov.len()
    &&& forall|j: int| 0 <= j < ov.len() ==> #[trigger] dv[j] == keys_debug(ov[j].0)
}

/// Each collected entry comes from one of the first `n` entries, in
/// `mode` and extending `prefix`.
pub open spec fn c_sound(ov: Seq<(Seq<Key>, Binding)>, es: Seq<((Mode, Seq<Key>), Binding)>, n: int, mode: Mode, prefix: Seq<Key>) -> bool {
    forall|j: int|
        0 <= j < ov.len() ==> exists|k: int|
            0 <= k < n && (#[trigger] es[k]).0 == (mode, (#[trigger] ov[j]).0) && es[k].1 == ov[j].1
                && extends(prefix, ov[j].0)
}

/// Each of the first `n` entries in `mode` extending `prefix` is collected.
pub open spec fn c_complete(ov: Seq<(Seq<Key>, Binding)>, es: Seq<((Mode, Seq<Key>), Binding)>, n: int, mode: Mode, prefix: Seq<Key>) -> bool {
    forall|k: int|
        0 <= k < n && (#[trigger] es[k]).0.0 == mode && extends(prefix, es[k].0.1) ==> exists|j: int|
            0 <= j < ov.len() && (#[trigger] ov[j]).0 == es[k].0.1
}

/// No sequence is collected twice.
pub open spec fn c_unique(ov: Seq<(Seq<Key>, Binding)>) -> bool {
    forall|a: int, b: int| 0 <= a < b < ov.len() ==> (#[trigger] ov[a]).0 != (#[trigger] ov[b]).0
}

/// The spellings are in order.
pub open spec fn c_sorted(dv: Seq<Seq<char>>) -> bool {
    forall|j: int| 0 <= j < dv.len() - 1 ==> seq_le(#[trigger] dv[j], dv[j + 1])
}

/// `ov` (with `Debug` spellings `dv`) collects, in spelling order and once
/// each, exactly the entries among the first `n` of `es` that are in `mode`
/// and extend `prefix`.
#[verifier::opaque]
pub open spec fn collected(
    ov: Seq<(Seq<Key>, Binding)>,
    dv: Seq<Seq<char>>,
    es: Seq<((Mode, Seq<Key>), Binding)>,
    n: int,
    mode: Mode,
    prefix: Seq<Key>,
) -> bool {
    &&& 0 <= n <= es.len()
    &&& keys_unique(es)
    &&& c_spelled(ov, dv)
    &&& c_sound(ov, es, n, mode, prefix)
    &&& c_complete(ov, es, n, mode, prefix)
    &&& c_unique(ov)
    &&& c_sorted(dv)
}

proof fn lemma_collect_empty(es: Seq<((Mode, Seq<Key>), Binding)>, mode: Mode, prefix: Seq<Key>)
    requires
        keys_unique(es),
    ensures
        collected(Seq::empty(), Seq::empty(), es, 0, mode, prefix),
{
    reveal(collected);
}

proof fn lemma_collect_skip(
    ov: Seq<(Seq<Key>, Binding)>,
    dv: Seq<Seq<char>>,
    es: Seq<((Mode, Seq<Key>), Binding)>,
    n: int,
    mode: Mode,
    prefix: Seq<Key>,
)
    requires
        collected(ov, dv, es, n, mode, prefix),
        n < es.len(),
        !(es[n].0.0 == mode && extends(prefix, es[n].0.1)),
    ensures
        collected(ov, dv, es, n + 1, mode, prefix),
{
    reveal(collected);
    assert forall|j: int|
        0 <= j < ov.len() implies exists|k: int|
            0 <= k < n + 1 && (#[trigger] es[k]).0 == (mode, (#[trigger] ov[j]).0) && es[k].1 == ov[j].1
                && extends(prefix, ov[j].0) by {
        let k = choose|k: int|
            0 <= k < n && (#[trigger] es[k]).0 == (mode, ov[j].0) && es[k].1 == ov[j].1 && extends(prefix, ov[j].0);
    }
}

proof fn lemma_insert_spelled(ov: Seq<(Seq<Key>, Binding)>, dv: Seq<Seq<char>>, p: int, e: (Seq<Key>, Binding), d: Seq<char>)
    requires
        c_spelled(ov, dv),
        0 <= p <= ov.len(),
        d == keys_debug(e.0),
    ensures
        c_spelled(ov.insert(p, e), dv.insert(p, d)),
{
    let no = ov.insert(p, e);
    let nd = dv.insert(p, d);
    assert forall|j: int| 0 <= j < no.len() implies #[trigger] nd[j] == keys_debug(no[j].0) by {
        if j > p {
            assert(nd[j] == dv[j - 1] && no[j] == ov[j - 1]);
        } else if j < p {
            assert(nd[j] == dv[j] && no[j] == ov[j]);
        }
    }
}

proof fn lemma_insert_sound(ov: Seq<(Seq<Key>, Binding)>, es: Seq<((Mode, Seq<Key>), Binding)>, n: int, mode: Mode, prefix: Seq<Key>, p: int)
    requires
        c_sound(ov, es, n, mode, prefix),
        0 <= n < es.len(),
        es[n].0.0 == mode && extends(prefix, es[n].0.1),
        0 <= p <= ov.len(),
    ensures
        c_sound(ov.insert(p, (es[n].0.1, es[n].1)), es, n + 1, mode, prefix),
{
    let no = ov.insert(p, (es[n].0.1, es[n].1));
    assert forall|j: int|
        0 <= j < no.len() implies exists|k: int|
            0 <= k < n + 1 && (#[trigger] es[k]).0 == (mode, (#[trigger] no[j]).0) && es[k].1 == no[j].1
                && extends(prefix, no[j].0) by {
        if j < p {
            assert(no[j] == ov[j]);
            let k = choose|k: int|
                0 <= k < n && (#[trigger] es[k]).0 == (mode, ov[j].0) && es[k].1 == ov[j].1 && extends(prefix, ov[j].0);
        } else if j > p {
            assert(no[j] == ov[j - 1]);
            let k = choose|k: int|
                0 <= k < n && (#[trigger] es[k]).0 == (mode, ov[j - 1].0) && es[k].1 == ov[j - 1].1 && extends(prefix, ov[j - 1].0);
        } else {
            assert(es[n].0 == (mode, no[j].0));
        }
    }
}

proof fn lemma_insert_complete(ov: Seq<(Seq<Key>, Binding)>, es: Seq<((Mode, Seq<Key>), Binding)>, n: int, mode: Mode, prefix: Seq<Key>, p: int)
    requires
        c_complete(ov, es, n, mode, prefix),
        0 <= n < es.len(),
        0 <= p <= ov.len(),
    ensures
        c_complete(ov.insert(p, (es[n].0.1, es[n].1)), es, n + 1, mode, prefix),
{
    let no = ov.insert(p, (es[n].0.1, es[n].1));
    assert forall|k: int|
        0 <= k < n + 1 && (#[trigger] es[k]).0.0 == mode && extends(prefix, es[k].0.1) implies exists|j: int|
            0 <= j < no.len() && (#[trigger] no[j]).0 == es[k].0.1 by {
        if k < n {
            let j = choose|j: int| 0 <= j < ov.len() && (#[trigger] ov[j]).0 == es[k].0.1;
            if j < p {
                assert(no[j] == ov[j]);
            } else {
                assert(no[j + 1] == ov[j]);
            }
        } else {
            assert(no[p].0 == es[k].0.1);
        }
    }
}

proof fn lemma_insert_unique(ov: Seq<(Seq<Key>, Binding)>, es: Seq<((Mode, Seq<Key>), Binding)>, n: int, mode: Mode, prefix: Seq<Key>, p: int)
    requires
        c_unique(ov),
        c_sound(ov, es, n, mode, prefix),
        keys_unique(es),
        0 <= n < es.len(),
        es[n].0.0 == mode,
        0 <= p <= ov.len(),
    ensures
        c_unique(ov.insert(p, (es[n].0.1, es[n].1))),
{
    let e = (es[n].0.1, es[n].1);
    let no = ov.insert(p, e);
    assert forall|j: int| 0 <= j < ov.len() implies (#[trigger] ov[j]).0 != e.0 by {
        let k = choose|k: int|
            0 <= k < n && (#[trigger] es[k]).0 == (mode, ov[j].0) && es[k].1 == ov[j].1 && extends(prefix, ov[j].0);
        assert(es[k].0 != es[n].0);
    }
    assert forall|a: int, b: int| 0 <= a < b < no.len() implies (#[trigger] no[a]).0 != (#[trigger] no[b]).0 by {
        if a < p && b < p {
            assert(no[a] == ov[a] && no[b] == ov[b]);
        } else if a < p && b == p {
            assert(no[a] == ov[a]);
        } else if a < p && b > p {
            assert(no[a] == ov[a] && no[b] == ov[b - 1]);
        } else if a == p {
            assert(no[b] == ov[b - 1]);
        } else {
            assert(no[a] == ov[a - 1] && no[b] == ov[b - 1]);
        }
    }
}

proof fn lemma_insert_sorted(dv: Seq<Seq<char>>, p: int, d: Seq<char>)
    requires
        c_sorted(dv),
        0 <= p <= dv.len(),
        forall|j: int| 0 <= j < p ==> seq_le(#[trigger] dv[j], d),
        p < dv.len() ==> !seq_le(dv[p], d),
    ensures
        c_sorted(dv.insert(p, d)),
{
    let nd = dv.insert(p, d);
    if p < dv.len() {
        crate::order::lemma_seq_le_total(dv[p], d);
    }
    assert forall|j: int| 0 <= j < nd.len() - 1 implies seq_le(#[trigger] nd[j], nd[j + 1]) by {
        if j + 1 < p {
            assert(nd[j] == dv[j] && nd[j + 1] == dv[j + 1]);
        } else if j + 1 == p {
            assert(nd[j] == dv[j]);
        } else if j == p {
            assert(nd[j + 1] == dv[j]);
        } else {
            assert(nd[j] == dv[j - 1] && nd[j + 1] == dv[j]);
        }
    }
}

proof fn lemma_collect_match(
    ov: Seq<(Seq<Key>, Binding)>,
    dv: Seq<Seq<char>>,
    es: Seq<((Mode, Seq<Key>), Binding)>,
    n: int,
    mode: Mode,
    prefix: Seq<Key>,
    p: int,
    d: Seq<char>,
)
    requires
        collected(ov, dv, es, n, mode, prefix),
        n < es.len(),
        es[n].0.0 == mode && extends(prefix, es[n].0.1),
        d == keys_debug(es[n].0.1),
        0 <= p <= ov.len(),
        forall|j: int| 0 <= j < p ==> seq_le(#[trigger] dv[j], d),
        p < ov.len() ==> !seq_le(dv[p], d),
    ensures
        collected(ov.insert(p, (es[n].0.1, es[n].1)), dv.insert(p, d), es, n + 1, mode, prefix),
{
    reveal(collected);
    lemma_insert_spelled(ov, dv, p, (es[n].0.1, es[n].1), d);
    lemma_insert_sound(ov, es, n, mode, prefix, p);
    lemma_insert_complete(ov, es, n, mode, prefix, p);
    lemma_insert_unique(ov, es, n, mode, prefix, p);
    lemma_insert_sorted(dv, p, d);
}

proof fn lemma_collected_complete(
    ov: Seq<(Seq<Key>, Binding)>,
    dv: Seq<Seq<char>>,
    es: Seq<((Mode, Seq<Key>), Binding)>,
    mode: Mode,
    prefix: Seq<Key>,
)
    requires
        collected(ov, dv, es, es.len() as int, mode, prefix),
    ensures
        forall|j: int|
            0 <= j < ov.len() ==> {
                &&& assoc_map(es).dom().contains((mode, (#[trigger] ov[j]).0))
                &&& extends(prefix, ov[j].0)
                &&& ov[j].1 == assoc_map(es)[(mode, ov[j].0)]
            },
        forall|p: (Mode, Seq<Key>)|
            #[trigger] assoc_map(es).dom().contains(p) && p.0 == mode && extends(prefix, p.1)
                ==> exists|j: int| 0 <= j < ov.len() && (#[trigger] ov[j]).0 == p.1,
        forall|a: int, b: int| 0 <= a < b < ov.len() ==> (#[trigger] ov[a]).0 != (#[trigger] ov[b]).0,
        forall|j: int| 0 <= j < ov.len() - 1 ==> seq_le(keys_debug((#[trigger] ov[j]).0), keys_debug(ov[j + 1].0)),
{
    reveal(collected);
    assert forall|j: int| 0 <= j < ov.len() implies {
        &&& assoc_map(es).dom().contains((mode, (#[trigger] ov[j]).0))
        &&& extends(prefix, ov[j].0)
        &&& ov[j].1 == assoc_map(es)[(mode, ov[j].0)]
    } by {
        let k = choose|k: int|
            0 <= k < es.len() && (#[trigger] es[k]).0 == (mode, ov[j].0) && es[k].1 == ov[j].1 && extends(prefix, ov[j].0);
        lemma_assoc_index(es, k);
    }
    assert forall|p: (Mode, Seq<Key>)|
        #[trigger] assoc_map(es).dom().contains(p) && p.0 == mode && extends(prefix, p.1)
            implies exists|j: int| 0 <= j < ov.len() && (#[trigger] ov[j]).0 == p.1 by {
        lemma_assoc_dom(es, p);
        let k = choose|k: int| 0 <= k < es.len() && (#[trigger] es[k]).0 == p;
    }
    assert forall|j: int| 0 <= j < ov.len() - 1 implies seq_le(keys_debug((#[trigger] ov[j]).0), keys_debug(ov[j + 1].0)) by {
        assert(dv[j] == keys_debug(ov[j].0));
        assert(dv[j + 1] == keys_debug(ov[j + 1].0));
    }
}

/// A copy of `v`, key for key.
fn copy_keys(v: &Vec<Key>) -> (r: Vec<Key>)
    ensures
        r@ == v@,
{
    let mut r: Vec<Key> = Vec::new();
    let mut t: usize = 0;
    while t < v.len()
        invariant
            t <= v@.len(),
            r@ == v@.subrange(0, t as int),
        decreases v@.len() - t,
    {
        r.push(v[t]);
        t += 1;
        assert(r@ =~= v@.subrange(0, t as int));
    }
    assert(r@ =~= v@);
    r
}

/// The keymap: single-key bindings, multi-key sequences, the leader, the
/// chords the world owns, and every collision seen while building it.
#[derive(Debug)]
pub struct Keymap {
    bindings: Vec<((Mode, Key), Binding)>,
    sequences: Vec<((Mode, Vec<Key>), Binding)>,
    leader: Key,
    reserved: Reserved,
    collisions: Vec<Collision>,
}

/// A sequence entry with its keys as a sequence.
pub open spec fn seq_entry_view(e: ((Mode, Vec<Key>), Binding)) -> ((Mode, Seq<Key>), Binding) {
    ((e.0.0, e.0.1@), e.1)
}

impl Keymap {
    /// The single-key entries, in bind order.
    pub closed spec fn entries(&self) -> Seq<((Mode, Key), Binding)> {
        self.bindings@
    }

    /// The sequence entries, in bind order.
    pub closed spec fn seq_entries(&self) -> Seq<((Mode, Seq<Key>), Binding)> {
        self.sequences@.map_values(|e: ((Mode, Vec<Key>), Binding)| seq_entry_view(e))
    }

    /// Single keys and what they are bound to.
    pub open spec fn spec_singles(&self) -> Map<(Mode, Key), Binding> {
        assoc_map(self.entries())
    }

    /// Key sequences and what they are bound to.
    pub open spec fn spec_sequences(&self) -> Map<(Mode, Seq<Key>), Binding> {
        assoc_map(self.seq_entries())
    }

    /// The key `<leader>` stands for.
    pub closed spec fn spec_leader(&self) -> Key {
        self.leader
    }

    /// The chords the world owns.
    pub closed spec fn spec_reserved(&self) -> Reserved {
        self.reserved
    }

    /// Every collision recorded, in bind order.
    pub closed spec fn spec_collisions(&self) -> Seq<Collision> {
        self.collisions@
    }

    /// No key (or sequence) is bound twice in a mode, and every sequence has
    /// at least two keys.
    pub open spec fn wf(&self) -> bool {
        &&& keys_unique(self.entries())
        &&& keys_unique(self.seq_entries())
        &&& forall|i: int| 0 <= i < self.seq_entries().len() ==> (#[trigger] self.seq_entries()[i]).0.1.len() >= 2
    }

    /// The reason the world refuses the first of `keys`, if it does.
    pub open spec fn spec_refusal(&self, keys: Seq<Key>) -> Option<Seq<char>> {
        if keys.len() == 0 {
            None
        } else {
            match spec_to_hotkey(keys[0]) {
                Some(h) => refusal(self.spec_reserved(), h),
                None => None,
            }
        }
    }

    /// The description of what `keys` in `mode` is bound to now, if anything.
    pub open spec fn spec_displaced(&self, mode: Mode, keys: Seq<Key>) -> Option<Seq<char>> {
        if keys.len() == 1 {
            if self.spec_singles().dom().contains((mode, keys[0])) {
                Some(self.spec_singles()[(mode, keys[0])].description@)
            } else {
                None
            }
        } else if self.spec_sequences().dom().contains((mode, keys)) {
            Some(self.spec_sequences()[(mode, keys)].description@)
        } else {
            None
        }
    }

    /// `added` is what binding `keys` in `mode` (described `desc`) records
    /// on this keymap: the outside claim on its opener, if any, then the
    /// binding it displaces, if any.
    pub open spec fn noted(&self, added: Seq<Collision>, mode: Mode, keys: Seq<Key>, desc: Seq<char>) -> bool {
        let why = self.spec_refusal(keys);
        let replaced = self.spec_displaced(mode, keys);
        let r: int = if why is Some {
            1
        } else {
            0
        };
        &&& added.len() == r + (if replaced is Some {
            1int
        } else {
            0int
        })
        &&& why matches Some(w) ==> is_reserved_note(added[0], mode, keys_debug(keys), desc, w)
        &&& replaced matches Some(p) ==> is_displaced_note(added[r], mode, keys_debug(keys), p, desc)
    }

    /// An empty keymap: leader `,`, the fleet's macOS claims.
    pub fn new() -> (k: Self)
        ensures
            k.wf(),
            k.spec_singles() == Map::<(Mode, Key), Binding>::empty(),
            k.spec_sequences() == Map::<(Mode, Seq<Key>), Binding>::empty(),
            k.spec_leader() == Key::Char(','),
            k.spec_collisions() == Seq::<Collision>::empty(),
            claims(k.spec_reserved(), 4, "h"@),
            claims(k.spec_reserved(), 4, "j"@),
            claims(k.spec_reserved(), 4, "k"@),
            claims(k.spec_reserved(), 4, "l"@),
            claims(k.spec_reserved(), 12, "h"@),
            claims(k.spec_reserved(), 12, "j"@),
            claims(k.spec_reserved(), 12, "k"@),
            claims(k.spec_reserved(), 12, "l"@),
            claims(k.spec_reserved(), 2, "space"@),
            k.spec_refusal(seq![Key::Alt('h')]) is Some,
            k.spec_refusal(seq![Key::Alt('j')]) is Some,
            k.spec_refusal(seq![Key::Alt('k')]) is Some,
            k.spec_refusal(seq![Key::Alt('l')]) is Some,
            k.spec_refusal(seq![Key::Ctrl(' ')]) is Some,
    {
        let k = Keymap {
            bindings: Vec::new(),
            sequences: Vec::new(),
            leader: Key::Char(','),
            reserved: reserved_fleet_darwin(),
            collisions: Vec::new(),
        };
        assert(k.seq_entries() =~= Seq::<((Mode, Seq<Key>), Binding)>::empty());
        proof {
            reveal_strlit("h");
            reveal_strlit("j");
            reveal_strlit("k");
            reveal_strlit("l");
            assert(seq![crate::text::ascii_lower('h')] =~= "h"@);
            assert(seq![crate::text::ascii_lower('j')] =~= "j"@);
            assert(seq![crate::text::ascii_lower('k')] =~= "k"@);
            assert(seq![crate::text::ascii_lower('l')] =~= "l"@);
        }
        k
    }

    /// Where `(mode, key)` is among the single-key entries.
    fn find_single(&self, mode: Mode, key: &Key) -> (r: Option<usize>)
        ensures
            r is None ==> !self.spec_singles().dom().contains((mode, *key)),
            r matches Some(i) ==> i < self.entries().len() && self.entries()[i as int].0 == (mode, *key),
    {
        let mut i: usize = 0;
        while i < self.bindings.len()
            invariant
                i <= self.entries().len(),
                self.entries() == self.bindings@,
                forall|j: int| 0 <= j < i ==> (#[trigger] self.entries()[j]).0 != (mode, *key),
            decreases self.entries().len() - i,
        {
            let e = &self.bindings[i];
            if e.0.0 == mode && key_eq(&e.0.1, key) {
                return Some(i);
            }
            i += 1;
        }
        proof {
            lemma_assoc_dom(self.entries(), (mode, *key));
        }
        None
    }

    /// Where `(mode, keys)` is among the sequence entries.
    fn find_sequence(&self, mode: Mode, keys: &[Key]) -> (r: Option<usize>)
        ensures
            r is None ==> !self.spec_sequences().dom().contains((mode, keys@)),
            r matches Some(i) ==> i < self.seq_entries().len() && self.seq_entries()[i as int].0 == (
                mode,
                keys@,
            ),
    {
        let mut i: usize = 0;
        while i < self.sequences.len()
            invariant
                i <= self.sequences@.len(),
                self.seq_entries().len() == self.sequences@.len(),
                forall|j: int| 0 <= j < i ==> (#[trigger] self.seq_entries()[j]).0 != (mode, keys@),
            decreases self.sequences@.len() - i,
        {
            let e = &self.sequences[i];
            assert(self.seq_entries()[i as int] == seq_entry_view(self.sequences@[i as int]));
            if e.0.0 == mode && keys_eq(e.0.1.as_slice(), keys) {
                return Some(i);
            }
            i += 1;
        }
        proof {
            lemma_assoc_dom(self.seq_entries(), (mode, keys@));
        }
        None
    }

    /// Record what binding `keys` in `mode` will surprise its author with:
    /// a chord the world owns (for a sequence, its opener), and a binding it
    /// displaces.
    fn note_collisions(&mut self, mode: Mode, keys: &[Key], binding: &Binding)
        requires
            old(self).wf(),
            keys@.len() >= 1,
        ensures
            final(self).wf(),
            final(self).entries() == old(self).entries(),
            final(self).seq_entries() == old(self).seq_entries(),
            final(self).spec_leader() == old(self).spec_leader(),
            final(self).spec_reserved() == old(self).spec_reserved(),
            final(self).spec_collisions().len() >= old(self).spec_collisions().len(),
            final(self).spec_collisions().subrange(0, old(self).spec_collisions().len() as int)
                == old(self).spec_collisions(),
            old(self).noted(
                final(self).spec_collisions().subrange(
                    old(self).spec_collisions().len() as int,
                    final(self).spec_collisions().len() as int,
                ),
                mode,
                keys@,
                binding.description@,
            ),
    {
        let ghost before = self.spec_collisions();
        let first = &keys[0];
        let spelled = keys_debug_string(keys);
        match to_hotkey(first) {
            Some(hk) => match reserved_refuse(&self.reserved, &hk) {
                Some(why) => {
                    self.collisions.push(
                        Collision::Reserved {
                            mode,
                            key: spelled.clone(),
                            description: binding.description.clone(),
                            why,
                        },
                    );
                },
                None => {},
            },
            None => {},
        }
        let ghost mid = self.spec_collisions();
        let existing: Option<usize> = if keys.len() == 1 {
            self.find_single(mode, first)
        } else {
            self.find_sequence(mode, keys)
        };
        match existing {
            Some(i) => {
                let replaced = if keys.len() == 1 {
                    proof {
                        lemma_assoc_index(self.entries(), i as int);
                        assert(keys@ =~= seq![*first]);
                    }
                    self.bindings[i].1.description.clone()
                } else {
                    proof {
                        lemma_assoc_index(self.seq_entries(), i as int);
                        assert(self.seq_entries()[i as int] == seq_entry_view(self.sequences@[i as int]));
                    }
                    self.sequences[i].1.description.clone()
                };
                self.collisions.push(
                    Collision::Displaced {
                        mode,
                        key: spelled,
                        replaced,
                        with: binding.description.clone(),
                    },
                );
            },
            None => {
                proof {
                    if keys.len() == 1 {
                        assert(keys@ =~= seq![*first]);
                    }
                }
            },
        }
        proof {
            let added = self.spec_collisions().subrange(before.len() as int, self.spec_collisions().len() as int);
            assert(self.spec_collisions().subrange(0, before.len() as int) =~= before);
            if mid.len() > before.len() {
                assert(added[0] == mid[before.len() as int]);
            }
            if self.spec_collisions().len() > mid.len() {
                assert(added[mid.len() - before.len()] == self.spec_collisions()[mid.len() as int]);
            }
        }
    }

    /// Bind `key` in `mode`, replacing whatever was bound there, and record
    /// any collision the bind makes.
    pub fn bind(&mut self, mode: Mode, key: Key, action: Action, desc: &str)
        requires
            old(self).wf(),
        ensures
            final(self).wf(),
            final(self).spec_singles().dom() == old(self).spec_singles().dom().insert((mode, key)),
            final(self).spec_singles()[(mode, key)].action == action,
            final(self).spec_singles()[(mode, key)].description@ == desc@,
            forall|p: (Mode, Key)|
                p != (mode, key) && old(self).spec_singles().dom().contains(p)
                    ==> #[trigger] final(self).spec_singles()[p] == old(self).spec_singles()[p],
            final(self).spec_sequences() == old(self).spec_sequences(),
            final(self).spec_leader() == old(self).spec_leader(),
            final(self).spec_reserved() == old(self).spec_reserved(),
            final(self).spec_collisions().len() >= old(self).spec_collisions().len(),
            final(self).spec_collisions().subrange(0, old(self).spec_collisions().len() as int)
                == old(self).spec_collisions(),
            old(self).noted(
                final(self).spec_collisions().subrange(
                    old(self).spec_collisions().len() as int,
                    final(self).spec_collisions().len() as int,
                ),
                mode,
                seq![key],
                desc@,
            ),
    {
        let binding = Binding::new(action, desc);
        let ks = vec![key];
        assert(ks@ =~= seq![key]);
        self.note_collisions(mode, ks.as_slice(), &binding);
        let ghost es = self.entries();
        match self.find_single(mode, &key) {
            Some(i) => {
                proof {
                    lemma_assoc_update(es, i as int, binding);
                }
                self.bindings.set(i, ((mode, key), binding));
                assert(self.entries() =~= es.update(i as int, (es[i as int].0, binding)));
            },
            None => {
                proof {
                    lemma_assoc_push(es, (mode, key), binding);
                }
                self.bindings.push(((mode, key), binding));
            },
        }
        assert(self.spec_singles().dom() =~= old(self).spec_singles().dom().insert((mode, key)));
    }

    /// Every collision recorded while this keymap was built. Empty is the
    /// claim that every binding can fire.
    pub fn collisions(&self) -> (c: &[Collision])
        ensures
            c@ == self.spec_collisions(),
    {
        self.collisions.as_slice()
    }

    /// The collisions that mean a key can never fire, in order.
    pub fn fatal_collisions(&self) -> (v: Vec<Collision>)
        ensures
            v@ == self.spec_collisions().filter(|c: Collision| c is Reserved),
    {
        let mut v: Vec<Collision> = Vec::new();
        let mut i: usize = 0;
        while i < self.collisions.len()
            invariant
                i <= self.collisions@.len(),
                v@ == self.collisions@.subrange(0, i as int).filter(|c: Collision| c is Reserved),
            decreases self.collisions@.len() - i,
        {
            let c = &self.collisions[i];
            proof {
                reveal(Seq::filter);
                assert(self.collisions@.subrange(0, i + 1).drop_last() =~= self.collisions@.subrange(
                    0,
                    i as int,
                ));
            }
            if c.is_fatal() {
                v.push(c.duplicate());
            }
            i += 1;
        }
        assert(self.collisions@.subrange(0, self.collisions@.len() as int) =~= self.collisions@);
        v
    }

    /// What `key` in `mode` is bound to, if anything.
    pub fn lookup(&self, mode: Mode, key: &Key) -> (r: Option<&Binding>)
        requires
            self.wf(),
        ensures
            r is Some <==> self.spec_singles().dom().contains((mode, *key)),
            r matches Some(b) ==> *b == self.spec_singles()[(mode, *key)],
    {
        match self.find_single(mode, key) {
            Some(i) => {
                proof {
                    lemma_assoc_index(self.entries(), i as int);
                }
                Some(&self.bindings[i].1)
            },
            None => None,
        }
    }

    /// The key `<leader>` resolves to; `,` unless set.
    pub fn leader(&self) -> (k: &Key)
        ensures
            *k == self.spec_leader(),
    {
        &self.leader
    }

    /// Set the key `<leader>` resolves to.
    pub fn set_leader(&mut self, key: Key)
        ensures
            final(self).spec_leader() == key,
            final(self).entries() == old(self).entries(),
            final(self).seq_entries() == old(self).seq_entries(),
            final(self).spec_reserved() == old(self).spec_reserved(),
            final(self).spec_collisions() == old(self).spec_collisions(),
    {
        self.leader = key;
    }

    /// Bind a key sequence in `mode`. An empty sequence binds nothing; a
    /// one-key sequence is an ordinary [`bind`](Self::bind).
    pub fn bind_sequence(&mut self, mode: Mode, keys: Vec<Key>, action: Action, desc: &str)
        requires
            old(self).wf(),
        ensures
            final(self).wf(),
            final(self).spec_leader() == old(self).spec_leader(),
            final(self).spec_reserved() == old(self).spec_reserved(),
            keys@.len() == 0 ==> final(self).spec_singles() == old(self).spec_singles()
                && final(self).spec_sequences() == old(self).spec_sequences()
                && final(self).spec_collisions() == old(self).spec_collisions(),
            keys@.len() == 1 ==> {
                &&& final(self).spec_singles().dom() == old(self).spec_singles().dom().insert((mode, keys@[0]))
                &&& final(self).spec_singles()[(mode, keys@[0])].action == action
                &&& final(self).spec_singles()[(mode, keys@[0])].description@ == desc@
                &&& forall|p: (Mode, Key)|
                    p != (mode, keys@[0]) && old(self).spec_singles().dom().contains(p)
                        ==> #[trigger] final(self).spec_singles()[p] == old(self).spec_singles()[p]
                &&& final(self).spec_sequences() == old(self).spec_sequences()
            },
            keys@.len() >= 2 ==> {
                &&& final(self).spec_sequences().dom() == old(self).spec_sequences().dom().insert((mode, keys@))
                &&& final(self).spec_sequences()[(mode, keys@)].action == action
                &&& final(self).spec_sequences()[(mode, keys@)].description@ == desc@
                &&& forall|p: (Mode, Seq<Key>)|
                    p != (mode, keys@) && old(self).spec_sequences().dom().contains(p)
                        ==> #[trigger] final(self).spec_sequences()[p] == old(self).spec_sequences()[p]
                &&& final(self).spec_singles() == old(self).spec_singles()
            },
            keys@.len() >= 1 ==> final(self).spec_collisions().len() >= old(self).spec_collisions().len(),
            keys@.len() >= 1 ==> final(self).spec_collisions().subrange(0, old(self).spec_collisions().len() as int)
                == old(self).spec_collisions(),
            keys@.len() >= 1 ==> old(self).noted(
                final(self).spec_collisions().subrange(
                    old(self).spec_collisions().len() as int,
                    final(self).spec_collisions().len() as int,
                ),
                mode,
                keys@,
                desc@,
            ),
    {
        if keys.len() == 0 {
            return;
        }
        if keys.len() == 1 {
            let k = keys[0];
            assert(keys@ =~= seq![k]);
            self.bind(mode, k, action, desc);
            return;
        }
        let binding = Binding::new(action, desc);
        self.note_collisions(mode, keys.as_slice(), &binding);
        let ghost es = self.seq_entries();
        let ghost kv = keys@;
        match self.find_sequence(mode, keys.as_slice()) {
            Some(i) => {
                proof {
                    lemma_assoc_update(es, i as int, binding);
                }
                self.sequences.set(i, ((mode, keys), binding));
                assert(self.seq_entries() =~= es.update(i as int, (es[i as int].0, binding)));
            },
            None => {
                proof {
                    lemma_assoc_push(es, (mode, kv), binding);
                }
                self.sequences.push(((mode, keys), binding));
                assert(self.seq_entries() =~= es.push(((mode, kv), binding)));
            },
        }
        assert(self.spec_sequences().dom() =~= old(self).spec_sequences().dom().insert((mode, kv)));
    }

    /// What the whole sequence `keys` in `mode` is bound to, if anything.
    pub fn lookup_sequence(&self, mode: Mode, keys: &[Key]) -> (r: Option<&Binding>)
        requires
            self.wf(),
        ensures
            r is Some <==> self.spec_sequences().dom().contains((mode, keys@)),
            r matches Some(b) ==> *b == self.spec_sequences()[(mode, keys@)],
    {
        match self.find_sequence(mode, keys) {
            Some(i) => {
                proof {
                    lemma_assoc_index(self.seq_entries(), i as int);
                    assert(self.seq_entries()[i as int] == seq_entry_view(self.sequences@[i as int]));
                }
                Some(&self.sequences[i].1)
            },
            None => None,
        }
    }

    /// Does some bound sequence in `mode` strictly extend `prefix`? A live
    /// prefix is held pending rather than dispatched.
    pub fn is_sequence_prefix(&self, mode: Mode, prefix: &[Key]) -> (b: bool)
        ensures
            b == exists|p: (Mode, Seq<Key>)|
                #[trigger] self.spec_sequences().dom().contains(p) && p.0 == mode && p.1.len()
                    > prefix@.len() && keys_prefix(prefix@, p.1),
    {
        let mut i: usize = 0;
        while i < self.sequences.len()
            invariant
                i <= self.sequences@.len(),
                self.seq_entries().len() == self.sequences@.len(),
                forall|j: int|
                    0 <= j < i ==> !({
                        let e = #[trigger] self.seq_entries()[j];
                        e.0.0 == mode && e.0.1.len() > prefix@.len() && keys_prefix(prefix@, e.0.1)
                    }),
            decreases self.sequences@.len() - i,
        {
            let e = &self.sequences[i];
            assert(self.seq_entries()[i as int] == seq_entry_view(self.sequences@[i as int]));
            if e.0.0 == mode && e.0.1.len() > prefix.len() && keys_start_with(e.0.1.as_slice(), prefix) {
                proof {
                    let q = self.seq_entries()[i as int].0;
                    lemma_assoc_dom(self.seq_entries(), q);
                    assert(self.spec_sequences().dom().contains(q));
                    assert(q.1 == e.0.1@);
                }
                return true;
            }
            i += 1;
        }
        proof {
            assert forall|p: (Mode, Seq<Key>)|
                #[trigger] self.spec_sequences().dom().contains(p) && p.0 == mode implies !(p.1.len()
                > prefix@.len() && keys_prefix(prefix@, p.1)) by {
                lemma_assoc_dom(self.seq_entries(), p);
                let j = choose|j: int| 0 <= j < self.seq_entries().len() && (#[trigger] self.seq_entries()[j]).0 == p;
                assert(self.seq_entries()[j].0 == p);
            }
        }
        false
    }

    /// Every bound sequence in `mode` that strictly extends `prefix`, with
    /// its binding, ordered by the sequences' `Debug` spelling. An empty
    /// prefix gives every sequence of the mode.
    pub fn sequences_extending(&self, mode: Mode, prefix: &[Key]) -> (r: Vec<(Vec<Key>, &Binding)>)
        requires
            self.wf(),
        ensures
            forall|i: int|
                0 <= i < r@.len() ==> {
                    &&& self.spec_sequences().dom().contains((mode, (#[trigger] r@[i]).0@))
                    &&& extends(prefix@, r@[i].0@)
                    &&& *r@[i].1 == self.spec_sequences()[(mode, r@[i].0@)]
                },
            forall|p: (Mode, Seq<Key>)|
                #[trigger] self.spec_sequences().dom().contains(p) && p.0 == mode && extends(prefix@, p.1)
                    ==> exists|i: int| 0 <= i < r@.len() && (#[trigger] r@[i]).0@ == p.1,
            forall|i: int, j: int| 0 <= i < j < r@.len() ==> (#[trigger] r@[i]).0@ != (#[trigger] r@[j]).0@,
            forall|i: int|
                0 <= i < r@.len() - 1 ==> seq_le(keys_debug((#[trigger] r@[i]).0@), keys_debug(r@[i + 1].0@)),
    {
        let ghost es = self.seq_entries();
        let mut out: Vec<(Vec<Key>, &Binding)> = Vec::new();
        let mut dbg: Vec<String> = Vec::new();
        let mut i: usize = 0;
        assert(out_view(out@) =~= Seq::<(Seq<Key>, Binding)>::empty());
        assert(dbg_view(dbg@) =~= Seq::<Seq<char>>::empty());
        proof {
            lemma_collect_empty(es, mode, prefix@);
        }
        while i < self.sequences.len()
            invariant
                i <= self.sequences@.len(),
                es == self.seq_entries(),
                es.len() == self.sequences@.len(),
                self.wf(),
                dbg@.len() == out@.len(),
                collected(out_view(out@), dbg_view(dbg@), es, i as int, mode, prefix@),
            decreases self.sequences@.len() - i,
        {
            let e = &self.sequences[i];
            assert(es[i as int] == seq_entry_view(self.sequences@[i as int]));
            if e.0.0 == mode && e.0.1.len() > prefix.len() && keys_start_with(e.0.1.as_slice(), prefix) {
                let d = keys_debug_string(e.0.1.as_slice());
                let mut p: usize = 0;
                while p < out.len() && str_le(dbg[p].as_str(), d.as_str())
                    invariant
                        p <= out@.len(),
                        dbg@.len() == out@.len(),
                        forall|j: int| 0 <= j < p ==> seq_le((#[trigger] dbg@[j])@, d@),
                    decreases out@.len() - p,
                {
                    p += 1;
                }
                let ks = copy_keys(&e.0.1);
                let ghost ov = out_view(out@);
                let ghost dv = dbg_view(dbg@);
                proof {
                    assert forall|j: int| 0 <= j < p implies seq_le(#[trigger] dv[j], d@) by {
                        assert(dv[j] == dbg@[j]@);
                    }
                    if p < out@.len() {
                        assert(dv[p as int] == dbg@[p as int]@);
                    }
                    lemma_collect_match(ov, dv, es, i as int, mode, prefix@, p as int, d@);
                }
                out.insert(p, (ks, &e.1));
                dbg.insert(p, d);
                assert(out_view(out@) =~= ov.insert(p as int, (es[i as int].0.1, es[i as int].1)));
                assert(dbg_view(dbg@) =~= dv.insert(p as int, d@));
            } else {
                proof {
                    lemma_collect_skip(out_view(out@), dbg_view(dbg@), es, i as int, mode, prefix@);
                }
            }
            i += 1;
        }
        proof {
            lemma_collected_complete(out_view(out@), dbg_view(dbg@), es, mode, prefix@);
            let ov = out_view(out@);
            assert forall|j: int| 0 <= j < out@.len() implies (#[trigger] out@[j]).0@ == ov[j].0 && *out@[j].1 == ov[j].1 by {}
        }
        out
    }

    /// The number of bound sequences.
    pub fn sequence_len(&self) -> (n: usize)
        ensures
            n == self.seq_entries().len(),
    {
        self.sequences.len()
    }

    /// The number of single-key bindings.
    pub fn len(&self) -> (n: usize)
        ensures
            n == self.entries().len(),
    {
        self.bindings.len()
    }

    /// No single key is bound.
    pub fn is_empty(&self) -> (b: bool)
        ensures
            b == (self.entries().len() == 0),
    {
        self.bindings.len() == 0
    }

    /// The action `key` calls for in `mode` with a count of `pending_count`
    /// being typed: a preempted key answers for itself; a bound key gives
    /// its action, repeated by the count (once without one); anything else
    /// is pending.
    pub fn dispatch(&self, mode: Mode, pending_count: Option<u32>, key: &Key) -> (c: CountedAction)
        requires
            self.wf(),
        ensures
            ({
                let pre = spec_preemption(mode, *key);
                if pre is Some && (pre.unwrap() is Always || pending_count is Some) {
                    c.count == 1 && c.action == spec_resolved(
                        match pre.unwrap() {
                            Preemption::Always(p) => p,
                            Preemption::WhenCounting(p) => p,
                        },
                        *key,
                    )
                } else if self.spec_singles().dom().contains((mode, *key)) {
                    &&& c.count == (match pending_count {
                        Some(n) => if n == 0 {
                            1
                        } else {
                            n
                        },
                        None => 1,
                    })
                    &&& same_action(c.action, self.spec_singles()[(mode, *key)].action)
                } else {
                    c.count == 1 && c.action == Action::Pending
                }
            }),
            mode == Mode::Normal && *key == Key::Char('0') && pending_count is None
                && self.spec_singles().dom().contains((Mode::Normal, Key::Char('0'))) ==> c.count == 1
                && same_action(c.action, self.spec_singles()[(Mode::Normal, Key::Char('0'))].action),
            mode == Mode::Normal && *key == Key::Char('0') && pending_count is Some ==> c.count == 1 && c.action
                == Action::Pending,
            mode == Mode::Normal && (*key matches Key::Char(d) && '1' <= d && d <= '9') ==> c.count == 1
                && c.action == Action::Pending,
            mode == Mode::Insert && (*key matches Key::Char(d)) ==> c.count == 1 && c.action
                == Action::InsertChar(key->Char_0),
            mode == Mode::Command && (*key matches Key::Char(d)) ==> c.count == 1 && c.action
                == Action::InsertChar(key->Char_0),
    {
        match preemption(mode, key) {
            Some(Preemption::Always(p)) => {
                return p.resolved(key);
            },
            Some(Preemption::WhenCounting(p)) => {
                if pending_count.is_some() {
                    return p.resolved(key);
                }
            },
            None => {},
        }
        match self.lookup(mode, key) {
            Some(b) => {
                let n = match pending_count {
                    Some(n) => n,
                    None => 1,
                };
                CountedAction::repeated(n, b.action.duplicate())
            },
            None => CountedAction::once(Action::Pending),
        }
    }
}

/// The order `entries_sorted` lists bindings in: by mode label, then by
/// the key's `Debug` spelling.
pub open spec fn entry_order(m: Mode, k: Key) -> (Seq<char>, Seq<char>) {
    (mode_label(m), key_debug(k))
}

/// The status-line label of a mode (`NORMAL`, `INSERT`, …).
pub open spec fn mode_label(m: Mode) -> Seq<char> {
    match m {
        Mode::Normal => "NORMAL"@,
        Mode::Insert => "INSERT"@,
        Mode::Visual => "VISUAL"@,
        Mode::VisualLine => "V-LINE"@,
        Mode::Command => "COMMAND"@,
    }
}

/// `a` sorts no later than `b`: by the first text, then by the second.
pub open spec fn pair_le(a: (Seq<char>, Seq<char>), b: (Seq<char>, Seq<char>)) -> bool {
    if a.0 == b.0 {
        seq_le(a.1, b.1)
    } else {
        seq_le(a.0, b.0)
    }
}

/// Each pair no later than the next.
pub open spec fn pairs_sorted(v: Seq<(Seq<char>, Seq<char>)>) -> bool {
    forall|j: int| 0 <= j < v.len() - 1 ==> pair_le(#[trigger] v[j], v[j + 1])
}

proof fn lemma_insert_keeps_pairs_sorted(v: Seq<(Seq<char>, Seq<char>)>, p: int, d: (Seq<char>, Seq<char>))
    requires
        pairs_sorted(v),
        0 <= p <= v.len(),
        forall|j: int| 0 <= j < p ==> pair_le(#[trigger] v[j], d),
        p < v.len() ==> !pair_le(v[p], d),
    ensures
        pairs_sorted(v.insert(p, d)),
{
    let nd = v.insert(p, d);
    if p < v.len() {
        lemma_seq_le_total(v[p].0, d.0);
        lemma_seq_le_total(v[p].1, d.1);
    }
    assert forall|j: int| 0 <= j < nd.len() - 1 implies pair_le(#[trigger] nd[j], nd[j + 1]) by {
        if j + 1 < p {
            assert(nd[j] == v[j] && nd[j + 1] == v[j + 1]);
        } else if j + 1 == p {
            assert(nd[j] == v[j]);
        } else if j == p {
            assert(nd[j + 1] == v[j]);
        } else {
            assert(nd[j] == v[j - 1] && nd[j + 1] == v[j]);
        }
    }
}

fn pair_le_exec(a0: &str, a1: &str, b0: &str, b1: &str) -> (r: bool)
    ensures
        r == pair_le((a0@, a1@), (b0@, b1@)),
{
    if crate::text::str_eq(a0, b0) {
        str_le(a1, b1)
    } else {
        str_le(a0, b0)
    }
}

/// `x` is one of the first `n` entries of `es`.
pub open spec fn in_listing(x: (Mode, Key, Binding), es: Seq<((Mode, Key), Binding)>, n: int) -> bool {
    exists|t: int| 0 <= t < n && (#[trigger] es[t]) == ((x.0, x.1), x.2)
}

/// Entry `e`'s place is among the first `n` of `lv`.
pub open spec fn listed(e: ((Mode, Key), Binding), lv: Seq<(Mode, Key, Binding)>, n: int) -> bool {
    exists|j: int| 0 <= j < n && e.0 == ((#[trigger] lv[j]).0, lv[j].1)
}

/// `lv` lists the first `n` entries of `es`, in any order.
#[verifier::opaque]
pub open spec fn covers(lv: Seq<(Mode, Key, Binding)>, es: Seq<((Mode, Key), Binding)>, n: int) -> bool {
    &&& lv.len() == n
    &&& forall|j: int| 0 <= j < n ==> in_listing(#[trigger] lv[j], es, n)
    &&& forall|t: int| 0 <= t < n ==> listed(#[trigger] es[t], lv, n)
}

proof fn lemma_covers_insert(lv: Seq<(Mode, Key, Binding)>, es: Seq<((Mode, Key), Binding)>, n: int, p: int)
    requires
        covers(lv, es, n),
        0 <= p <= n < es.len(),
    ensures
        covers(lv.insert(p, (es[n].0.0, es[n].0.1, es[n].1)), es, n + 1),
{
    reveal(covers);
    let nv = lv.insert(p, (es[n].0.0, es[n].0.1, es[n].1));
    assert forall|j: int| 0 <= j < n + 1 implies in_listing(#[trigger] nv[j], es, n + 1) by {
        if j < p {
            assert(nv[j] == lv[j]);
            assert(in_listing(lv[j], es, n));
            let t = choose|t: int| 0 <= t < n && (#[trigger] es[t]) == ((lv[j].0, lv[j].1), lv[j].2);
            assert(es[t] == ((nv[j].0, nv[j].1), nv[j].2));
        } else if j == p {
            assert(es[n] == ((nv[j].0, nv[j].1), nv[j].2));
        } else {
            assert(nv[j] == lv[j - 1]);
            assert(in_listing(lv[j - 1], es, n));
            let t = choose|t: int| 0 <= t < n && (#[trigger] es[t]) == ((lv[j - 1].0, lv[j - 1].1), lv[j - 1].2);
            assert(es[t] == ((nv[j].0, nv[j].1), nv[j].2));
        }
    }
    assert forall|t: int| 0 <= t < n + 1 implies listed(#[trigger] es[t], nv, n + 1) by {
        if t == n {
            assert(es[t].0 == (nv[p].0, nv[p].1));
        } else {
            assert(listed(es[t], lv, n));
            let j = choose|j: int| 0 <= j < n && es[t].0 == ((#[trigger] lv[j]).0, lv[j].1);
            if j < p {
                assert(nv[j] == lv[j]);
            } else {
                assert(nv[j + 1] == lv[j]);
            }
        }
    }
}

proof fn lemma_covers_all(lv: Seq<(Mode, Key, Binding)>, es: Seq<((Mode, Key), Binding)>)
    requires
        covers(lv, es, es.len() as int),
        keys_unique(es),
    ensures
        forall|i: int|
            0 <= i < lv.len() ==> assoc_map(es).dom().contains(((#[trigger] lv[i]).0, lv[i].1))
                && lv[i].2 == assoc_map(es)[(lv[i].0, lv[i].1)],
        forall|q: (Mode, Key)|
            #[trigger] assoc_map(es).dom().contains(q) ==> exists|i: int| 0 <= i < lv.len() && ((#[trigger] lv[i]).0, lv[i].1) == q,
{
    reveal(covers);
    assert forall|j: int| 0 <= j < lv.len() implies assoc_map(es).dom().contains(((#[trigger] lv[j]).0, lv[j].1))
        && lv[j].2 == assoc_map(es)[(lv[j].0, lv[j].1)] by {
        assert(in_listing(lv[j], es, es.len() as int));
        let t = choose|t: int| 0 <= t < es.len() && (#[trigger] es[t]) == ((lv[j].0, lv[j].1), lv[j].2);
        lemma_assoc_index(es, t);
    }
    assert forall|q: (Mode, Key)| #[trigger] assoc_map(es).dom().contains(q) implies exists|i: int|
        0 <= i < lv.len() && ((#[trigger] lv[i]).0, lv[i].1) == q by {
        lemma_assoc_dom(es, q);
        let t = choose|t: int| 0 <= t < es.len() && (#[trigger] es[t]).0 == q;
        assert(listed(es[t], lv, es.len() as int));
        let j = choose|j: int| 0 <= j < es.len() && es[t].0 == ((#[trigger] lv[j]).0, lv[j].1);
        assert((lv[j].0, lv[j].1) == q);
    }
}

/// The bindings of a listing, by value.
pub open spec fn listing(v: Seq<(Mode, Key, &Binding)>) -> Seq<(Mode, Key, Binding)> {
    v.map_values(|x: (Mode, Key, &Binding)| (x.0, x.1, *x.2))
}

impl Keymap {
    /// Every one-key binding, with its mode and key, ordered by mode label
    /// and then by the key's `Debug` spelling.
    pub fn entries_sorted(&self) -> (r: Vec<(Mode, Key, &Binding)>)
        requires
            self.wf(),
        ensures
            r@.len() == self.entries().len(),
            forall|i: int|
                0 <= i < r@.len() ==> self.spec_singles().dom().contains(((#[trigger] r@[i]).0, r@[i].1))
                    && *r@[i].2 == self.spec_singles()[(r@[i].0, r@[i].1)],
            forall|p: (Mode, Key)|
                #[trigger] self.spec_singles().dom().contains(p) ==> exists|i: int|
                    0 <= i < r@.len() && ((#[trigger] r@[i]).0, r@[i].1) == p,
            forall|i: int|
                0 <= i < r@.len() - 1 ==> pair_le(
                    entry_order((#[trigger] r@[i]).0, r@[i].1),
                    entry_order(r@[i + 1].0, r@[i + 1].1),
                ),
    {
        let ghost es = self.entries();
        let mut out: Vec<(Mode, Key, &Binding)> = Vec::new();
        let mut ord: Vec<(String, String)> = Vec::new();
        let mut i: usize = 0;
        proof {
            reveal(covers);
            assert(listing(out@) =~= Seq::<(Mode, Key, Binding)>::empty());
        }
        while i < self.bindings.len()
            invariant
                i <= es.len(),
                es == self.entries(),
                es.len() == self.bindings@.len(),
                out@.len() == i,
                ord@.len() == i,
                forall|j: int|
                    0 <= j < i ==> (#[trigger] ord@[j]).0@ == mode_label(out@[j].0) && ord@[j].1@ == key_debug(
                        out@[j].1,
                    ),
                covers(listing(out@), es, i as int),
                pairs_sorted(ord@.map_values(|o: (String, String)| (o.0@, o.1@))),
            decreases es.len() - i,
        {
            let e = &self.bindings[i];
            let mode = e.0.0;
            let key = e.0.1;
            let label = owned(mode.as_str());
            let mut dbg = String::new();
            push_key_debug(&mut dbg, &key);
            let mut p: usize = 0;
            while p < out.len() && pair_le_exec(ord[p].0.as_str(), ord[p].1.as_str(), label.as_str(), dbg.as_str())
                invariant
                    p <= out@.len(),
                    ord@.len() == out@.len(),
                    forall|j: int|
                        0 <= j < p ==> pair_le(((#[trigger] ord@[j]).0@, ord@[j].1@), (label@, dbg@)),
                decreases out@.len() - p,
            {
                p += 1;
            }
            let ghost ov = ord@.map_values(|o: (String, String)| (o.0@, o.1@));
            let ghost old_out = out@;
            let ghost old_ord = ord@;
            proof {
                assert forall|j: int| 0 <= j < p implies pair_le(#[trigger] ov[j], (label@, dbg@)) by {
                    assert(ov[j] == (ord@[j].0@, ord@[j].1@));
                }
                if p < out@.len() {
                    assert(ov[p as int] == (ord@[p as int].0@, ord@[p as int].1@));
                }
                lemma_insert_keeps_pairs_sorted(ov, p as int, (label@, dbg@));
                assert(es[i as int] == self.bindings@[i as int]);
                lemma_covers_insert(listing(out@), es, i as int, p as int);
            }
            out.insert(p, (mode, key, &e.1));
            ord.insert(p, (label, dbg));
            proof {
                assert(ord@.map_values(|o: (String, String)| (o.0@, o.1@)) =~= ov.insert(p as int, (mode_label(mode), key_debug(key))));
                assert(listing(out@) =~= listing(old_out).insert(p as int, (es[i as int].0.0, es[i as int].0.1, es[i as int].1)));
                assert forall|j: int|
                    0 <= j < i + 1 implies (#[trigger] ord@[j]).0@ == mode_label(out@[j].0) && ord@[j].1@ == key_debug(out@[j].1) by {
                    if j < p {
                        assert(ord@[j] == old_ord[j] && out@[j] == old_out[j]);
                    } else if j > p {
                        assert(ord@[j] == old_ord[j - 1] && out@[j] == old_out[j - 1]);
                    }
                }
            }
            i += 1;
        }
        proof {
            let ov = ord@.map_values(|o: (String, String)| (o.0@, o.1@));
            assert forall|j: int| 0 <= j < out@.len() - 1 implies pair_le(
                entry_order((#[trigger] out@[j]).0, out@[j].1),
                entry_order(out@[j + 1].0, out@[j + 1].1),
            ) by {
                assert(ov[j] == (ord@[j].0@, ord@[j].1@));
                assert(ov[j + 1] == (ord@[j + 1].0@, ord@[j + 1].1@));
                assert(pair_le(ov[j], ov[j + 1]));
            }
            lemma_covers_all(listing(out@), es);
            let lv = listing(out@);
            assert forall|j: int| 0 <= j < out@.len() implies self.spec_singles().dom().contains(((#[trigger] out@[j]).0, out@[j].1))
                && *out@[j].2 == self.spec_singles()[(out@[j].0, out@[j].1)] by {
                assert(lv[j] == (out@[j].0, out@[j].1, *out@[j].2));
            }
            assert forall|q: (Mode, Key)| #[trigger] self.spec_singles().dom().contains(q) implies exists|j: int|
                0 <= j < out@.len() && ((#[trigger] out@[j]).0, out@[j].1) == q by {
                let j = choose|j: int| 0 <= j < lv.len() && ((#[trigger] lv[j]).0, lv[j].1) == q;
                assert(lv[j] == (out@[j].0, out@[j].1, *out@[j].2));
            }
        }
        out
    }
}

impl Default for Keymap {
    /// The same keymap as [`Keymap::new`].
    fn default() -> (k: Self)
        ensures
            k.wf(),
            k.spec_singles() == Map::<(Mode, Key), Binding>::empty(),
            k.spec_sequences() == Map::<(Mode, Seq<Key>), Binding>::empty(),
            k.spec_leader() == Key::Char(','),
            k.spec_collisions() == Seq::<Collision>::empty(),
    {
        Keymap::new()
    }
}

} // verus!
