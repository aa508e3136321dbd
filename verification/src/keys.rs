//! Keys: escriba's key vocabulary, how it reads as the fleet's chord
//! vocabulary (`awase`), and how keys are spelled in reports.

use vstd::prelude::*;
use awase::{Hotkey, Modifiers, Reserved};
use awase::Key as FleetKey;
use crate::text::{ascii_lower, decimal, push_str, push_decimal, owned, push_char};

verus! {

#[verifier::external_type_specification]
#[verifier::external_body]
pub struct ExHotkey(Hotkey);

#[verifier::external_type_specification]
#[verifier::external_body]
pub struct ExModifiers(Modifiers);

#[verifier::external_type_specification]
#[verifier::external_body]
pub struct ExFleetKey(FleetKey);

#[verifier::external_type_specification]
#[verifier::external_body]
pub struct ExReserved(Reserved);

/// A key, with at most one modifier folded in; anything richer is a
/// fleet [`Hotkey`].
#[derive(Debug, Clone, Copy, PartialEq, Eq, Hash)]
pub enum Key {
    Char(char),
    Esc,
    Enter,
    Tab,
    Backspace,
    Delete,
    Left,
    Right,
    Up,
    Down,
    PageUp,
    PageDown,
    Home,
    End,
    Ctrl(char),
    Alt(char),
    /// A function key.
    F(u8),
    /// More than one modifier, `Shift` as a modifier, `Super`: a fleet chord.
    Chord(Hotkey),
}

/// The modifier sets escriba's own keys carry.
#[derive(Debug, Clone, Copy, PartialEq, Eq, Structural)]
pub enum Mods {
    Plain,
    Ctrl,
    Alt,
}

/// The fleet key `awase::Key::from_name` gives for a name.
pub uninterp spec fn fleet_key_named(name: Seq<char>) -> Option<FleetKey>;

/// The fleet modifier set `Modifiers::from_bits` builds from a bitmask.
pub uninterp spec fn fleet_modifiers(bits: u8) -> Modifiers;

/// The fleet modifier bitmask of `m`: awase keeps `CMD` in bit 0, `CTRL`
/// in bit 1, `ALT` in bit 2 and `SHIFT` in bit 3.
pub open spec fn mods_bits(m: Mods) -> u8 {
    match m {
        Mods::Plain => 0,
        Mods::Ctrl => 2,
        Mods::Alt => 4,
    }
}

/// The chord `Hotkey::new(m, k)` builds.
pub uninterp spec fn hotkey_of(m: Modifiers, k: FleetKey) -> Hotkey;

/// Why the reserved set refuses a chord (`Reserved::refuse`), if it does.
pub uninterp spec fn refusal(r: Reserved, h: Hotkey) -> Option<Seq<char>>;

/// A chord's `Debug` spelling.
pub uninterp spec fn hotkey_debug(h: Hotkey) -> Seq<char>;

/// A char's `Debug` spelling (`'a'`, `'\n'`, …).
pub uninterp spec fn char_debug(c: char) -> Seq<char>;

/// `awase::Key::from_name`.
#[verifier::external_body]
pub(crate) fn fleet_key_from_name(name: &str) -> (r: Option<FleetKey>)
    ensures
        r == fleet_key_named(name@),
{
    FleetKey::from_name(name)
}

/// `awase::Modifiers::from_bits`.
#[verifier::external_body]
pub(crate) fn modifiers_from_bits(bits: u8) -> (r: Modifiers)
    ensures
        r == fleet_modifiers(bits),
{
    Modifiers::from_bits(bits)
}

fn bits_of(m: Mods) -> (b: u8)
    ensures
        b == mods_bits(m),
{
    match m {
        Mods::Plain => 0,
        Mods::Ctrl => 2,
        Mods::Alt => 4,
    }
}

/// `Hotkey::new`.
#[verifier::external_body]
pub(crate) fn hotkey_new(m: Modifiers, k: FleetKey) -> (r: Hotkey)
    ensures
        r == hotkey_of(m, k),
{
    Hotkey::new(m, k)
}

/// `Hotkey`'s derived `==`: the same modifiers and the same key.
#[verifier::external_body]
fn hotkey_eq(a: &Hotkey, b: &Hotkey) -> (r: bool)
    ensures
        r == (*a == *b),
{
    *a == *b
}

/// `r` claims the chord of the fleet key named `name` under the modifier
/// bitmask `bits`: there is such a key, and `Reserved::refuse` explains it.
pub open spec fn claims(r: Reserved, bits: u8, name: Seq<char>) -> bool {
    fleet_key_named(name) is Some && refusal(r, hotkey_of(fleet_modifiers(bits), fleet_key_named(name)->0)) is Some
}

/// `Reserved::fleet_darwin`: the chords the fleet's macOS setup claims.
/// Its source claims Alt and Alt+Shift with each of `h`, `j`, `k`, `l`
/// (the window manager's focus and move keys) and Ctrl+Space (input-source
/// switching); those claims are stated. That nothing else is claimed is
/// left unsaid: the claims are keyed by a chord's display text.
#[verifier::external_body]
pub(crate) fn reserved_fleet_darwin() -> (r: Reserved)
    ensures
        claims(r, 4, "h"@),
        claims(r, 4, "j"@),
        claims(r, 4, "k"@),
        claims(r, 4, "l"@),
        claims(r, 12, "h"@),
        claims(r, 12, "j"@),
        claims(r, 12, "k"@),
        claims(r, 12, "l"@),
        claims(r, 2, "space"@),
{
    Reserved::fleet_darwin()
}

/// `Reserved::refuse`: why `h` is claimed, if it is.
#[verifier::external_body]
pub(crate) fn reserved_refuse(r: &Reserved, h: &Hotkey) -> (w: Option<String>)
    ensures
        w is None <==> refusal(*r, *h) is None,
        w matches Some(s) ==> refusal(*r, *h) == Some(s@),
{
    r.refuse(h)
}

/// `Hotkey`'s `Debug` text.
#[verifier::external_body]
fn hotkey_debug_string(h: &Hotkey) -> (s: String)
    ensures
        s@ == hotkey_debug(*h),
{
    format!("{h:?}")
}

/// `char`'s `Debug` text.
#[verifier::external_body]
fn char_debug_string(c: char) -> (s: String)
    ensures
        s@ == char_debug(c),
{
    format!("{c:?}")
}

/// The fleet key a character names: a space is `Space`, anything else is
/// looked up by its ASCII-lowercased self.
pub open spec fn char_fleet_key(c: char) -> Option<FleetKey> {
    if c == ' ' {
        fleet_key_named("space"@)
    } else {
        fleet_key_named(seq![ascii_lower(c)])
    }
}

/// `k` under the modifiers `m`, if there is a fleet key.
pub open spec fn chord_with(m: Mods, k: Option<FleetKey>) -> Option<Hotkey> {
    match k {
        Some(fk) => Some(hotkey_of(fleet_modifiers(mods_bits(m)), fk)),
        None => None,
    }
}

/// The fleet chord for an escriba key, when it has one.
pub open spec fn spec_to_hotkey(key: Key) -> Option<Hotkey> {
    match key {
        Key::Char(c) => chord_with(Mods::Plain, char_fleet_key(c)),
        Key::Ctrl(c) => chord_with(Mods::Ctrl, char_fleet_key(c)),
        Key::Alt(c) => chord_with(Mods::Alt, char_fleet_key(c)),
        Key::F(n) => chord_with(Mods::Plain, fleet_key_named("f"@ + decimal(n as nat))),
        Key::Chord(h) => Some(h),
        Key::Esc => chord_with(Mods::Plain, fleet_key_named("escape"@)),
        Key::Enter => chord_with(Mods::Plain, fleet_key_named("return"@)),
        Key::Tab => chord_with(Mods::Plain, fleet_key_named("tab"@)),
        Key::Backspace => chord_with(Mods::Plain, fleet_key_named("backspace"@)),
        Key::Delete => chord_with(Mods::Plain, fleet_key_named("delete"@)),
        Key::Left => chord_with(Mods::Plain, fleet_key_named("left"@)),
        Key::Right => chord_with(Mods::Plain, fleet_key_named("right"@)),
        Key::Up => chord_with(Mods::Plain, fleet_key_named("up"@)),
        Key::Down => chord_with(Mods::Plain, fleet_key_named("down"@)),
        Key::PageUp => chord_with(Mods::Plain, fleet_key_named("pageup"@)),
        Key::PageDown => chord_with(Mods::Plain, fleet_key_named("pagedown"@)),
        Key::Home => chord_with(Mods::Plain, fleet_key_named("home"@)),
        Key::End => chord_with(Mods::Plain, fleet_key_named("end"@)),
    }
}

fn char_key(c: char) -> (r: Option<FleetKey>)
    ensures
        r == char_fleet_key(c),
{
    if c == ' ' {
        fleet_key_from_name("space")
    } else {
        let mut name = String::new();
        push_char(&mut name, crate::text::lower_char(c));
        fleet_key_from_name(name.as_str())
    }
}

fn chord(m: Mods, k: Option<FleetKey>) -> (r: Option<Hotkey>)
    ensures
        r == chord_with(m, k),
{
    match k {
        Some(fk) => Some(hotkey_new(modifiers_from_bits(bits_of(m)), fk)),
        None => None,
    }
}

/// An escriba key as a fleet chord. `None` for a key awase has no name for
/// (shifted digits and most punctuation): such a key is unaudited, not
/// available.
pub fn to_hotkey(key: &Key) -> (r: Option<Hotkey>)
    ensures
        r == spec_to_hotkey(*key),
{
    match key {
        Key::Char(c) => chord(Mods::Plain, char_key(*c)),
        Key::Ctrl(c) => chord(Mods::Ctrl, char_key(*c)),
        Key::Alt(c) => chord(Mods::Alt, char_key(*c)),
        Key::F(n) => {
            let mut name = owned("f");
            push_decimal(&mut name, *n as u64);
            chord(Mods::Plain, fleet_key_from_name(name.as_str()))
        },
        Key::Chord(h) => Some(*h),
        Key::Esc => chord(Mods::Plain, fleet_key_from_name("escape")),
        Key::Enter => chord(Mods::Plain, fleet_key_from_name("return")),
        Key::Tab => chord(Mods::Plain, fleet_key_from_name("tab")),
        Key::Backspace => chord(Mods::Plain, fleet_key_from_name("backspace")),
        Key::Delete => chord(Mods::Plain, fleet_key_from_name("delete")),
        Key::Left => chord(Mods::Plain, fleet_key_from_name("left")),
        Key::Right => chord(Mods::Plain, fleet_key_from_name("right")),
        Key::Up => chord(Mods::Plain, fleet_key_from_name("up")),
        Key::Down => chord(Mods::Plain, fleet_key_from_name("down")),
        Key::PageUp => chord(Mods::Plain, fleet_key_from_name("pageup")),
        Key::PageDown => chord(Mods::Plain, fleet_key_from_name("pagedown")),
        Key::Home => chord(Mods::Plain, fleet_key_from_name("home")),
        Key::End => chord(Mods::Plain, fleet_key_from_name("end")),
    }
}

/// Are two keys the same key?
pub fn key_eq(a: &Key, b: &Key) -> (r: bool)
    ensures
        r == (*a == *b),
{
    match (a, b) {
        (Key::Char(x), Key::Char(y)) => *x == *y,
        (Key::Ctrl(x), Key::Ctrl(y)) => *x == *y,
        (Key::Alt(x), Key::Alt(y)) => *x == *y,
        (Key::F(x), Key::F(y)) => *x == *y,
        (Key::Chord(x), Key::Chord(y)) => hotkey_eq(x, y),
        (Key::Esc, Key::Esc) => true,
        (Key::Enter, Key::Enter) => true,
        (Key::Tab, Key::Tab) => true,
        (Key::Backspace, Key::Backspace) => true,
        (Key::Delete, Key::Delete) => true,
        (Key::Left, Key::Left) => true,
        (Key::Right, Key::Right) => true,
        (Key::Up, Key::Up) => true,
        (Key::Down, Key::Down) => true,
        (Key::PageUp, Key::PageUp) => true,
        (Key::PageDown, Key::PageDown) => true,
        (Key::Home, Key::Home) => true,
        (Key::End, Key::End) => true,
        _ => false,
    }
}

/// Are two key sequences the same?
pub fn keys_eq(a: &[Key], b: &[Key]) -> (r: bool)
    ensures
        r == (a@ == b@),
{
    if a.len() != b.len() {
        return false;
    }
    let mut i: usize = 0;
    while i < a.len()
        invariant
            i <= a@.len(),
            a@.len() == b@.len(),
            forall|j: int| 0 <= j < i ==> a@[j] == b@[j],
        decreases a@.len() - i,
    {
        if !key_eq(&a[i], &b[i]) {
            return false;
        }
        i += 1;
    }
    assert(a@ =~= b@);
    true
}

/// `p` is a prefix of `s`.
pub open spec fn keys_prefix(p: Seq<Key>, s: Seq<Key>) -> bool {
    p.len() <= s.len() && s.subrange(0, p.len() as int) == p
}

/// Does `s` start with `p`?
pub fn keys_start_with(s: &[Key], p: &[Key]) -> (r: bool)
    ensures
        r == keys_prefix(p@, s@),
{
    if p.len() > s.len() {
        return false;
    }
    let mut i: usize = 0;
    while i < p.len()
        invariant
            i <= p@.len(),
            p@.len() <= s@.len(),
            forall|j: int| 0 <= j < i ==> s@[j] == p@[j],
        decreases p@.len() - i,
    {
        if !key_eq(&s[i], &p[i]) {
            assert(s@.subrange(0, p@.len() as int)[i as int] != p@[i as int]);
            return false;
        }
        i += 1;
    }
    assert(s@.subrange(0, p@.len() as int) =~= p@);
    true
}

/// A key's `Debug` spelling.
pub open spec fn key_debug(k: Key) -> Seq<char> {
    match k {
        Key::Char(c) => "Char("@ + char_debug(c) + ")"@,
        Key::Esc => "Esc"@,
        Key::Enter => "Enter"@,
        Key::Tab => "Tab"@,
        Key::Backspace => "Backspace"@,
        Key::Delete => "Delete"@,
        Key::Left => "Left"@,
        Key::Right => "Right"@,
        Key::Up => "Up"@,
        Key::Down => "Down"@,
        Key::PageUp => "PageUp"@,
        Key::PageDown => "PageDown"@,
        Key::Home => "Home"@,
        Key::End => "End"@,
        Key::Ctrl(c) => "Ctrl("@ + char_debug(c) + ")"@,
        Key::Alt(c) => "Alt("@ + char_debug(c) + ")"@,
        Key::F(n) => "F("@ + decimal(n as nat) + ")"@,
        Key::Chord(h) => "Chord("@ + hotkey_debug(h) + ")"@,
    }
}

/// The `Debug` spellings of `ks[..n]`, separated by `", "`.
pub open spec fn keys_debug_items(ks: Seq<Key>, n: nat) -> Seq<char>
    decreases n,
{
    if n == 0 || n > ks.len() {
        Seq::<char>::empty()
    } else if n == 1 {
        key_debug(ks[0])
    } else {
        keys_debug_items(ks, (n - 1) as nat) + ", "@ + key_debug(ks[n - 1])
    }
}

/// A key slice's `Debug` spelling: `[Char('g'), Char('g')]`.
pub open spec fn keys_debug(ks: Seq<Key>) -> Seq<char> {
    "["@ + keys_debug_items(ks, ks.len()) + "]"@
}

/// Append a key's `Debug` spelling.
pub fn push_key_debug(out: &mut String, k: &Key)
    ensures
        final(out)@ == old(out)@ + key_debug(*k),
{
    match k {
        Key::Char(c) => {
            push_str(out, "Char(");
            push_str(out, char_debug_string(*c).as_str());
            push_str(out, ")");
        },
        Key::Esc => push_str(out, "Esc"),
        Key::Enter => push_str(out, "Enter"),
        Key::Tab => push_str(out, "Tab"),
        Key::Backspace => push_str(out, "Backspace"),
        Key::Delete => push_str(out, "Delete"),
        Key::Left => push_str(out, "Left"),
        Key::Right => push_str(out, "Right"),
        Key::Up => push_str(out, "Up"),
        Key::Down => push_str(out, "Down"),
        Key::PageUp => push_str(out, "PageUp"),
        Key::PageDown => push_str(out, "PageDown"),
        Key::Home => push_str(out, "Home"),
        Key::End => push_str(out, "End"),
        Key::Ctrl(c) => {
            push_str(out, "Ctrl(");
            push_str(out, char_debug_string(*c).as_str());
            push_str(out, ")");
        },
        Key::Alt(c) => {
            push_str(out, "Alt(");
            push_str(out, char_debug_string(*c).as_str());
            push_str(out, ")");
        },
        Key::F(n) => {
            push_str(out, "F(");
            push_decimal(out, *n as u64);
            push_str(out, ")");
        },
        Key::Chord(h) => {
            push_str(out, "Chord(");
            push_str(out, hotkey_debug_string(h).as_str());
            push_str(out, ")");
        },
    }
    assert(out@ =~= old(out)@ + key_debug(*k));
}

/// A key slice's `Debug` spelling.
pub fn keys_debug_string(ks: &[Key]) -> (s: String)
    ensures
        s@ == keys_debug(ks@),
{
    let mut s = owned("[");
    let mut i: usize = 0;
    while i < ks.len()
        invariant
            i <= ks@.len(),
            s@ == "["@ + keys_debug_items(ks@, i as nat),
        decreases ks@.len() - i,
    {
        if i > 0 {
            push_str(&mut s, ", ");
        }
        push_key_debug(&mut s, &ks[i]);
        i += 1;
        assert(s@ =~= "["@ + keys_debug_items(ks@, i as nat));
    }
    push_str(&mut s, "]");
    s
}

} // verus!
