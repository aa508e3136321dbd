//! Input events as the window layer delivers them, and how they read as
//! escriba keys.

use vstd::prelude::*;
use awase::Hotkey;
use crate::keys::{Key, fleet_key_named, fleet_modifiers, hotkey_of, fleet_key_from_name, modifiers_from_bits, hotkey_new};
use crate::text::{ascii_lower, lower_char, push_char};

verus! {

/// A physical key.
#[derive(Debug, Clone, Copy, PartialEq, Eq, Structural)]
pub enum KeyCode {
    Enter,
    Escape,
    Backspace,
    Tab,
    Up,
    Down,
    Left,
    Right,
    Home,
    End,
    PageUp,
    PageDown,
    Space,
    Char(char),
    Delete,
    F(u8),
    Unknown,
}

/// The modifiers held during a key event.
#[derive(Debug, Clone, Copy, PartialEq, Eq, Structural, Default)]
pub struct KeyModifiers {
    pub ctrl: bool,
    pub alt: bool,
    pub shift: bool,
    pub meta: bool,
}

/// A key press or release.
#[derive(Debug, Clone, Copy, PartialEq, Eq, Structural)]
pub struct KeyEvent {
    pub key: KeyCode,
    pub pressed: bool,
    pub modifiers: KeyModifiers,
}

/// A window event.
#[derive(Debug, Clone, Copy, PartialEq, Eq, Structural)]
pub enum AppEvent {
    Key(KeyEvent),
    Resized { width: u32, height: u32 },
    Focused(bool),
    CloseRequested,
    /// Anything the editor does not route (IME, mouse, redraws).
    Other,
}

/// What the runtime should do after translating an event.
#[derive(Debug, Clone, Copy, PartialEq, Eq)]
pub enum InputOutcome {
    Key(Key),
    Resized { width: u32, height: u32 },
    Focus(bool),
    /// Exit requested (the close button).
    Quit,
    /// Nothing translatable: ignore it.
    Nothing,
}

/// The fleet modifier bits of every modifier held: `CMD` for meta, then
/// `CTRL`, `ALT`, `SHIFT`.
pub open spec fn held_bits(m: KeyModifiers) -> u8 {
    (if m.ctrl { 2u8 } else { 0u8 }) | (if m.alt { 4u8 } else { 0u8 }) | (if m.shift { 8u8 } else { 0u8 }) | (if m.meta {
        1u8
    } else {
        0u8
    })
}

/// The fleet chord of `c` under every held modifier, when awase names the
/// lowered character.
pub open spec fn spec_chord_of(c: char, m: KeyModifiers) -> Option<Hotkey> {
    match fleet_key_named(seq![ascii_lower(c)]) {
        Some(k) => Some(hotkey_of(fleet_modifiers(held_bits(m)), k)),
        None => None,
    }
}

/// The fleet chord of `c` under every held modifier.
fn chord_of(c: char, mods: KeyModifiers) -> (r: Option<Hotkey>)
    ensures
        r == spec_chord_of(c, mods),
{
    let bits: u8 = (if mods.ctrl { 2u8 } else { 0u8 }) | (if mods.alt { 4u8 } else { 0u8 }) | (if mods.shift {
        8u8
    } else {
        0u8
    }) | (if mods.meta {
        1u8
    } else {
        0u8
    });
    let mut name = String::new();
    push_char(&mut name, lower_char(c));
    match fleet_key_from_name(name.as_str()) {
        Some(k) => Some(hotkey_new(modifiers_from_bits(bits), k)),
        None => None,
    }
}

/// The key an event delivers: `None` for a release or an unknown key.
/// A character with one of Ctrl or Alt folds into that shorthand, lowered;
/// with meta, or with both, it is a fleet chord.
pub open spec fn spec_translate_key(e: KeyEvent) -> Option<Key> {
    if !e.pressed {
        None
    } else {
        match e.key {
            KeyCode::Enter => Some(Key::Enter),
            KeyCode::Escape => Some(Key::Esc),
            KeyCode::Backspace => Some(Key::Backspace),
            KeyCode::Tab => Some(Key::Tab),
            KeyCode::Up => Some(Key::Up),
            KeyCode::Down => Some(Key::Down),
            KeyCode::Left => Some(Key::Left),
            KeyCode::Right => Some(Key::Right),
            KeyCode::Home => Some(Key::Home),
            KeyCode::End => Some(Key::End),
            KeyCode::PageUp => Some(Key::PageUp),
            KeyCode::PageDown => Some(Key::PageDown),
            KeyCode::Space => Some(Key::Char(' ')),
            KeyCode::Char(c) => {
                let m = e.modifiers;
                if m.meta || (m.ctrl && m.alt) {
                    match spec_chord_of(c, m) {
                        Some(h) => Some(Key::Chord(h)),
                        None => None,
                    }
                } else if m.ctrl {
                    Some(Key::Ctrl(ascii_lower(c)))
                } else if m.alt {
                    Some(Key::Alt(ascii_lower(c)))
                } else {
                    Some(Key::Char(c))
                }
            },
            KeyCode::Delete => Some(Key::Delete),
            KeyCode::F(n) => Some(Key::F(n)),
            KeyCode::Unknown => None,
        }
    }
}

/// The key an event delivers.
pub fn translate_key(event: &KeyEvent) -> (r: Option<Key>)
    ensures
        r == spec_translate_key(*event),
{
    if !event.pressed {
        return None;
    }
    let mods = event.modifiers;
    let key = match event.key {
        KeyCode::Enter => Key::Enter,
        KeyCode::Escape => Key::Esc,
        KeyCode::Backspace => Key::Backspace,
        KeyCode::Tab => Key::Tab,
        KeyCode::Up => Key::Up,
        KeyCode::Down => Key::Down,
        KeyCode::Left => Key::Left,
        KeyCode::Right => Key::Right,
        KeyCode::Home => Key::Home,
        KeyCode::End => Key::End,
        KeyCode::PageUp => Key::PageUp,
        KeyCode::PageDown => Key::PageDown,
        KeyCode::Space => Key::Char(' '),
        KeyCode::Char(c) => {
            if mods.meta || (mods.ctrl && mods.alt) {
                return match chord_of(c, mods) {
                    Some(h) => Some(Key::Chord(h)),
                    None => None,
                };
            }
            if mods.ctrl {
                return Some(Key::Ctrl(lower_char(c)));
            }
            if mods.alt {
                return Some(Key::Alt(lower_char(c)));
            }
            Key::Char(c)
        },
        KeyCode::Delete => Key::Delete,
        KeyCode::F(n) => Key::F(n),
        KeyCode::Unknown => return None,
    };
    Some(key)
}

/// What a window event asks of the runtime.
pub fn translate_app_event(event: &AppEvent) -> (r: InputOutcome)
    ensures
        r == match *event {
            AppEvent::Key(ke) => match spec_translate_key(ke) {
                Some(k) => InputOutcome::Key(k),
                None => InputOutcome::Nothing,
            },
            AppEvent::Resized { width, height } => InputOutcome::Resized { width, height },
            AppEvent::Focused(f) => InputOutcome::Focus(f),
            AppEvent::CloseRequested => InputOutcome::Quit,
            AppEvent::Other => InputOutcome::Nothing,
        },
{
    match event {
        AppEvent::Key(ke) => match translate_key(ke) {
            Some(k) => InputOutcome::Key(k),
            None => InputOutcome::Nothing,
        },
        AppEvent::Resized { width, height } => InputOutcome::Resized { width: *width, height: *height },
        AppEvent::Focused(f) => InputOutcome::Focus(*f),
        AppEvent::CloseRequested => InputOutcome::Quit,
        AppEvent::Other => InputOutcome::Nothing,
    }
}

/// A press of `key` with `m` held.
pub open spec fn press(key: KeyCode, m: KeyModifiers) -> KeyEvent {
    KeyEvent { key, pressed: true, modifiers: m }
}

/// A release of `key` with `m` held.
pub open spec fn release(key: KeyCode, m: KeyModifiers) -> KeyEvent {
    KeyEvent { key, pressed: false, modifiers: m }
}

/// No modifier held.
pub open spec fn no_mods() -> KeyModifiers {
    KeyModifiers { ctrl: false, alt: false, shift: false, meta: false }
}

/// A pressed named key delivers the key of the same name, whatever
/// modifiers are held; Space delivers a space, a function key its number,
/// a plain character itself; a release or an unknown key delivers nothing.
pub proof fn lemma_translate_named_keys(m: KeyModifiers, c: char, n: u8, code: KeyCode)
    ensures
        spec_translate_key(press(KeyCode::Enter, m)) == Some(Key::Enter),
        spec_translate_key(press(KeyCode::Escape, m)) == Some(Key::Esc),
        spec_translate_key(press(KeyCode::Backspace, m)) == Some(Key::Backspace),
        spec_translate_key(press(KeyCode::Tab, m)) == Some(Key::Tab),
        spec_translate_key(press(KeyCode::Up, m)) == Some(Key::Up),
        spec_translate_key(press(KeyCode::Down, m)) == Some(Key::Down),
        spec_translate_key(press(KeyCode::Left, m)) == Some(Key::Left),
        spec_translate_key(press(KeyCode::Right, m)) == Some(Key::Right),
        spec_translate_key(press(KeyCode::Home, m)) == Some(Key::Home),
        spec_translate_key(press(KeyCode::End, m)) == Some(Key::End),
        spec_translate_key(press(KeyCode::PageUp, m)) == Some(Key::PageUp),
        spec_translate_key(press(KeyCode::PageDown, m)) == Some(Key::PageDown),
        spec_translate_key(press(KeyCode::Delete, m)) == Some(Key::Delete),
        spec_translate_key(press(KeyCode::Space, m)) == Some(Key::Char(' ')),
        spec_translate_key(press(KeyCode::F(n), m)) == Some(Key::F(n)),
        spec_translate_key(press(KeyCode::Char(c), no_mods())) == Some(Key::Char(c)),
        spec_translate_key(press(KeyCode::Unknown, m)) is None,
        spec_translate_key(release(code, m)) is None,
{
}

} // verus!
