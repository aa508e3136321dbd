use escriba::config::EscribaConfig;
use escriba::input::{translate_app_event, translate_key, AppEvent, InputOutcome, KeyCode, KeyEvent, KeyModifiers};
use escriba::keymap::Keymap;
use escriba::keys::Key;
use escriba::mode::Mode;
use escriba::action::Action;
use escriba::motion::Motion;

fn key(kc: KeyCode, mods: KeyModifiers) -> KeyEvent {
    KeyEvent { key: kc, pressed: true, modifiers: mods }
}

#[test]
fn char_without_modifiers() {
    let k = translate_key(&key(KeyCode::Char('h'), KeyModifiers::default())).unwrap();
    assert_eq!(k, Key::Char('h'));
}

#[test]
fn ctrl_char_becomes_ctrl_key() {
    let mods = KeyModifiers { ctrl: true, ..KeyModifiers::default() };
    let k = translate_key(&key(KeyCode::Char('R'), mods)).unwrap();
    assert_eq!(k, Key::Ctrl('r'));
}

#[test]
fn alt_char_becomes_alt_key() {
    let mods = KeyModifiers { alt: true, ..KeyModifiers::default() };
    let k = translate_key(&key(KeyCode::Char('f'), mods)).unwrap();
    assert_eq!(k, Key::Alt('f'));
}

#[test]
fn named_keys_map() {
    assert_eq!(translate_key(&key(KeyCode::Escape, KeyModifiers::default())).unwrap(), Key::Esc);
    assert_eq!(translate_key(&key(KeyCode::Enter, KeyModifiers::default())).unwrap(), Key::Enter);
    assert_eq!(translate_key(&key(KeyCode::Space, KeyModifiers::default())).unwrap(), Key::Char(' '));
    assert_eq!(translate_key(&key(KeyCode::F(7), KeyModifiers::default())).unwrap(), Key::F(7));
    assert_eq!(translate_key(&key(KeyCode::Unknown, KeyModifiers::default())), None);
}

#[test]
fn release_returns_none() {
    let mut e = key(KeyCode::Char('a'), KeyModifiers::default());
    e.pressed = false;
    assert!(translate_key(&e).is_none());
}

#[test]
fn close_event_quits() {
    assert_eq!(translate_app_event(&AppEvent::CloseRequested), InputOutcome::Quit);
    assert_eq!(translate_app_event(&AppEvent::Resized { width: 80, height: 24 }), InputOutcome::Resized { width: 80, height: 24 });
    assert_eq!(translate_app_event(&AppEvent::Other), InputOutcome::Nothing);
}

#[test]
fn two_modifiers_make_a_fleet_chord() {
    let mods = KeyModifiers { ctrl: true, alt: true, ..KeyModifiers::default() };
    match translate_key(&key(KeyCode::Char('P'), mods)) {
        Some(Key::Chord(h)) => {
            assert!(h.modifiers.contains(awase::Modifiers::CTRL));
            assert!(h.modifiers.contains(awase::Modifiers::ALT));
            assert_eq!(h.key, awase::Key::P);
        }
        other => panic!("expected a chord, got {other:?}"),
    }
}

#[test]
fn escriba_config_bare_is_zero_opinion() {
    let b = EscribaConfig::bare();
    assert!(b.tema.is_none());
    assert!(b.numeros_linha.is_none());
    assert!(b.numeros_relativos.is_none());
    assert!(b.largura_tab.is_none());
    assert!(b.quebra_suave.is_none());
    assert!(b.mostrar_statusline.is_none());
    assert!(b.mostrar_tabbar.is_none());
}

#[test]
fn escriba_config_prescribed_mirrors_blnvim_baseline() {
    let p = EscribaConfig::prescribed_default();
    assert_eq!(p.tema.as_deref(), Some(ishou_tokens::FleetTheme::prescribed_default().preset_name()));
    assert_eq!(p.tema.as_deref(), Some("nord"));
    assert_eq!(p.numeros_linha, Some(true));
    assert_eq!(p.numeros_relativos, Some(true));
    assert_eq!(p.largura_tab, Some(2));
    assert_eq!(p.quebra_suave, Some(false));
    assert_eq!(p.mostrar_statusline, Some(true));
    assert_eq!(p.mostrar_tabbar, Some(false));
    assert_ne!(p, EscribaConfig::bare());
}

#[test]
fn entries_sorted_orders_by_mode_label_then_key() {
    let mut km = Keymap::new();
    km.bind_sequence(Mode::Normal, vec![Key::Char('j')], Action::Move(Motion::Down), "down");
    km.bind_sequence(Mode::Insert, vec![Key::Esc], Action::ChangeMode(Mode::Normal), "leave");
    km.bind_sequence(Mode::Normal, vec![Key::Char('h')], Action::Move(Motion::Left), "left");
    let v = km.entries_sorted();
    let order: Vec<(Mode, Key)> = v.iter().map(|(m, k, _)| (*m, *k)).collect();
    assert_eq!(
        order,
        vec![(Mode::Insert, Key::Esc), (Mode::Normal, Key::Char('h')), (Mode::Normal, Key::Char('j'))]
    );
    assert_eq!(v[1].2.description, "left");
    let d = Keymap::default();
    assert!(d.is_empty());
}
