use escriba::action::Action;
use escriba::keymap::{Collision, Keymap};
use escriba::keys::{to_hotkey, Key};
use escriba::mode::Mode;
use escriba::motion::Motion;

#[test]
fn default_vim_has_bindings() {
    let k = Keymap::default_vim();
    assert!(k.len() > 10);
    assert!(k.lookup(Mode::Normal, &Key::Char('h')).is_some());
    assert!(k.lookup(Mode::Insert, &Key::Esc).is_some());
    assert!(k.lookup(Mode::Normal, &Key::Alt('f')).is_some());
}

#[test]
fn dispatch_normal_motion() {
    let k = Keymap::default_vim();
    let a = k.dispatch(Mode::Normal, None, &Key::Char('h'));
    assert_eq!(a.count, 1);
    assert_eq!(a.action, Action::Move(Motion::Left));
}

#[test]
fn dispatch_count_prefix_pends() {
    let k = Keymap::default_vim();
    assert!(matches!(k.dispatch(Mode::Normal, None, &Key::Char('5')).action, Action::Pending));
}

#[test]
fn dispatch_insert_char() {
    let k = Keymap::default_vim();
    let a = k.dispatch(Mode::Insert, None, &Key::Char('a'));
    assert_eq!(a.action, Action::InsertChar('a'));
}

#[test]
fn lisp_structural_motions_bound() {
    let k = Keymap::default_vim();
    assert_eq!(k.lookup(Mode::Normal, &Key::Alt('f')).unwrap().action, Action::Move(Motion::ForwardSexp));
}

#[test]
fn default_leader_is_comma() {
    assert_eq!(Keymap::new().leader(), &Key::Char(','));
}

#[test]
fn bind_sequence_stores_multikey_and_resolves() {
    let mut k = Keymap::new();
    let seq = vec![Key::Char(','), Key::Char('f'), Key::Char('f')];
    k.bind_sequence(
        Mode::Normal,
        seq.clone(),
        Action::Command { name: "picker.files".into(), args: vec![] },
        "find files",
    );
    let b = k.lookup_sequence(Mode::Normal, &seq).expect("seq bound");
    assert!(matches!(&b.action, Action::Command { name, .. } if name == "picker.files"));
    assert!(k.is_sequence_prefix(Mode::Normal, &[Key::Char(',')]));
    assert!(k.is_sequence_prefix(Mode::Normal, &[Key::Char(','), Key::Char('f')]));
    assert!(!k.is_sequence_prefix(Mode::Normal, &seq));
    assert!(!k.is_sequence_prefix(Mode::Insert, &[Key::Char(',')]));
    assert_eq!(k.sequence_len(), 1);
}

#[test]
fn bind_sequence_length_one_delegates_to_single() {
    let mut k = Keymap::new();
    k.bind_sequence(Mode::Normal, vec![Key::Char('x')], Action::Undo, "x is undo");
    assert_eq!(k.sequence_len(), 0);
    assert!(k.lookup(Mode::Normal, &Key::Char('x')).is_some());
}

#[test]
fn modifiers_survive_the_conversion() {
    let h = to_hotkey(&Key::Ctrl('w')).expect("ctrl+w maps");
    assert!(h.modifiers.contains(awase::Modifiers::CTRL));
    assert_eq!(h.key, awase::Key::W);
}

#[test]
fn named_keys_map_to_their_fleet_spelling() {
    assert_eq!(to_hotkey(&Key::Esc).map(|h| h.key), Some(awase::Key::Escape));
    assert_eq!(to_hotkey(&Key::Enter).map(|h| h.key), Some(awase::Key::Return));
}

#[test]
fn every_variant_of_escribas_key_has_a_fleet_spelling() {
    let all = [
        Key::Char('a'),
        Key::Ctrl('a'),
        Key::Alt('a'),
        Key::Esc,
        Key::Enter,
        Key::Tab,
        Key::Backspace,
        Key::Delete,
        Key::Left,
        Key::Right,
        Key::Up,
        Key::Down,
        Key::PageUp,
        Key::PageDown,
        Key::Home,
        Key::End,
    ];
    for k in all {
        assert!(to_hotkey(&k).is_some(), "{k:?} has no fleet spelling");
    }
}

#[test]
fn sequences_can_now_be_enumerated() {
    let k = Keymap::default_vim();
    let all = k.sequences_extending(Mode::Normal, &[]);
    assert!(!all.is_empty(), "the default keymap binds sequences");
    let g = k.sequences_extending(Mode::Normal, &[Key::Char('g')]);
    assert!(g.iter().all(|(seq, _)| seq.first() == Some(&Key::Char('g'))));
}

#[test]
fn a_reserved_chord_is_recorded_at_bind_time() {
    let mut m = Keymap::new();
    m.bind(Mode::Normal, Key::Alt('j'), Action::Undo, "focus down?");
    let c = m.collisions();
    assert_eq!(c.len(), 1, "{c:?}");
    assert!(c[0].is_fatal(), "a chord the world owns can never fire");
    assert!(c[0].report().contains("window manager"), "{}", c[0].report());
}

#[test]
fn a_displaced_binding_is_recorded_but_not_fatal() {
    let mut m = Keymap::new();
    m.bind(Mode::Normal, Key::Char('x'), Action::Undo, "first");
    m.bind(Mode::Normal, Key::Char('x'), Action::Redo, "second");
    let c = m.collisions();
    assert_eq!(c.len(), 1);
    assert!(!c[0].is_fatal());
    let r = c[0].report();
    assert!(r.contains("first") && r.contains("second"), "{r}");
}

#[test]
#[allow(non_snake_case)]
fn a_sequence_whose_OPENER_is_reserved_is_caught() {
    let mut m = Keymap::new();
    m.bind_sequence(Mode::Normal, vec![Key::Alt('j'), Key::Char('x')], Action::Undo, "dead sequence");
    assert!(m.fatal_collisions().len() == 1, "{:?}", m.collisions());
}

#[test]
fn an_ordinary_keymap_records_nothing() {
    let mut m = Keymap::new();
    m.bind(Mode::Normal, Key::Char('h'), Action::Undo, "left");
    m.bind(Mode::Normal, Key::Ctrl('w'), Action::Redo, "window prefix");
    assert!(m.collisions().is_empty(), "{:?}", m.collisions());
}

#[test]
fn the_shipped_default_keymap_is_clean() {
    let m = Keymap::default_vim();
    assert!(
        m.collisions().is_empty(),
        "escriba's own defaults must not collide:\n  {}",
        m.collisions().iter().map(Collision::report).collect::<Vec<_>>().join("\n  "),
    );
}

#[test]
fn ctrl_space_and_alt_shift_chords_are_reserved() {
    let mut m = Keymap::new();
    m.bind(Mode::Insert, Key::Ctrl(' '), Action::Undo, "complete");
    m.bind(Mode::Normal, Key::Alt('h'), Action::Undo, "left");
    let c = m.collisions();
    assert_eq!(c.len(), 2, "{c:?}");
    assert!(c.iter().all(|x| x.is_fatal()));
}
