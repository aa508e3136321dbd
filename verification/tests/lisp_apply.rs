use escriba::action::{Action, SearchDirection};
use escriba::command::CommandRegistry;
use escriba::filetype::FiletypeTable;
use escriba::keymap::{Collision, Keymap};
use escriba::keys::Key;
use escriba::lisp::apply::{
    apply_plan_to_commands, apply_plan_to_filetypes, apply_plan_to_grammar_extensions, apply_plan_to_keymap,
    apply_plan_to_options, parse_mode, resolve_action,
};
use escriba::lisp::cmd::CmdSpec;
use escriba::lisp::keybind::KeybindSpec;
use escriba::lisp::keygrammar::{parse_key_sequence, parse_key_token, parse_leader_key};
use escriba::lisp::mode_spec::MajorModeSpec;
use escriba::lisp::option::OptionSpec;
use escriba::lisp::plan::{ApplyPlan, LispError};
use escriba::mode::Mode;
use escriba::motion::Motion;
use escriba::option_store::OptionStore;

fn kb(mode: &str, key: &str, action: &str) -> KeybindSpec {
    KeybindSpec { mode: mode.into(), key: key.into(), action: action.into(), description: String::new() }
}

fn plan_of(keybinds: Vec<KeybindSpec>) -> ApplyPlan {
    ApplyPlan { keybinds, ..Default::default() }
}

fn cmd(name: &str, description: &str, action: &str) -> CmdSpec {
    CmdSpec { name: name.into(), description: description.into(), action: action.into() }
}

fn defmode(name: &str, ts: &str, exts: &[&str]) -> MajorModeSpec {
    MajorModeSpec {
        name: name.into(),
        extensions: exts.iter().map(|e| e.to_string()).collect(),
        tree_sitter: ts.into(),
        ..Default::default()
    }
}

fn comma() -> Key {
    Key::Char(',')
}

#[test]
fn search_action_strings_resolve_to_typed_variants() {
    for (name, expected) in [
        ("search-forward", Action::SearchOpen(SearchDirection::Forward)),
        ("search-backward", Action::SearchOpen(SearchDirection::Backward)),
        ("search-next", Action::SearchRepeat { reverse: false }),
        ("search-prev", Action::SearchRepeat { reverse: true }),
    ] {
        let (action, deferred) = resolve_action(name);
        assert_eq!(action, expected, "{name}");
        assert!(!deferred, "{name} must not defer to the command registry");
    }
}

#[test]
fn parse_single_char_token() {
    let l = Key::Char(',');
    assert_eq!(parse_key_token("a", &l), Some(Key::Char('a')));
    assert_eq!(parse_key_token("G", &l), Some(Key::Char('G')));
    assert_eq!(parse_key_token("0", &l), Some(Key::Char('0')));
}

#[test]
fn parse_named_bracket_tokens() {
    let l = Key::Char(',');
    assert_eq!(parse_key_token("<Esc>", &l), Some(Key::Esc));
    assert_eq!(parse_key_token("<CR>", &l), Some(Key::Enter));
    assert_eq!(parse_key_token("<Enter>", &l), Some(Key::Enter));
    assert_eq!(parse_key_token("<Tab>", &l), Some(Key::Tab));
    assert_eq!(parse_key_token("<Backspace>", &l), Some(Key::Backspace));
    assert_eq!(parse_key_token("<BS>", &l), Some(Key::Backspace));
    assert_eq!(parse_key_token("<Left>", &l), Some(Key::Left));
    assert_eq!(parse_key_token("<PageUp>", &l), Some(Key::PageUp));
}

#[test]
fn parse_modifier_bracket_tokens() {
    let l = Key::Char(',');
    assert_eq!(parse_key_token("<C-r>", &l), Some(Key::Ctrl('r')));
    assert_eq!(parse_key_token("<c-r>", &l), Some(Key::Ctrl('r')));
    assert_eq!(parse_key_token("<A-f>", &l), Some(Key::Alt('f')));
    assert_eq!(parse_key_token("<M-f>", &l), Some(Key::Alt('f')));
}

#[test]
fn parse_leader_token_resolves_to_leader() {
    assert_eq!(parse_key_token("<leader>", &Key::Char(',')), Some(Key::Char(',')));
    assert_eq!(parse_key_token("<Leader>", &Key::Char(' ')), Some(Key::Char(' ')));
    assert_eq!(parse_key_token("<localleader>", &Key::Char('\\')), Some(Key::Char('\\')));
}

#[test]
fn parse_token_rejects_multichar_and_unknown_bracket() {
    let l = Key::Char(',');
    assert_eq!(parse_key_token("gh", &l), None);
    assert_eq!(parse_key_token("<Galactus>", &l), None);
}

#[test]
fn parse_key_sequence_tokenizes_leader_and_brackets() {
    let comma = Key::Char(',');
    assert_eq!(
        parse_key_sequence("<leader>ff", &comma).unwrap(),
        vec![Key::Char(','), Key::Char('f'), Key::Char('f')],
    );
    assert_eq!(parse_key_sequence("gg", &comma).unwrap(), vec![Key::Char('g'), Key::Char('g')]);
    assert_eq!(parse_key_sequence("<C-w>h", &comma).unwrap(), vec![Key::Ctrl('w'), Key::Char('h')]);
    assert_eq!(parse_key_sequence("x", &comma).unwrap(), vec![Key::Char('x')]);
    assert!(parse_key_sequence("<leader", &comma).is_err());
    assert!(parse_key_sequence("<Nope>", &comma).is_err());
}

#[test]
fn key_sequence_warnings_name_the_problem() {
    let comma = Key::Char(',');
    assert_eq!(parse_key_sequence("<leader", &comma).unwrap_err(), "unterminated `<` in key `<leader`");
    assert_eq!(parse_key_sequence("a<Nope>", &comma).unwrap_err(), "unknown key token `<Nope>` in `a<Nope>`");
    assert_eq!(parse_key_sequence("", &comma).unwrap_err(), "empty key string ``");
}

#[test]
fn space_token_parses_in_tokens_and_sequences() {
    let comma = Key::Char(',');
    assert_eq!(parse_key_token("<space>", &comma), Some(Key::Char(' ')));
    assert_eq!(parse_key_token("<Space>", &comma), Some(Key::Char(' ')));
    assert_eq!(parse_key_token("<spc>", &comma), Some(Key::Char(' ')));
    assert_eq!(parse_key_sequence("<space>w", &comma).unwrap(), vec![Key::Char(' '), Key::Char('w')]);
}

#[test]
fn modifier_accepts_named_operand_and_shift() {
    let comma = Key::Char(',');
    assert_eq!(parse_key_token("<C-Space>", &comma), Some(Key::Ctrl(' ')));
    assert_eq!(parse_key_token("<c-space>", &comma), Some(Key::Ctrl(' ')));
    assert_eq!(parse_key_token("<A-Space>", &comma), Some(Key::Alt(' ')));
    assert_eq!(parse_key_token("<S-h>", &comma), Some(Key::Char('H')));
    assert_eq!(parse_key_token("<S-l>", &comma), Some(Key::Char('L')));
    assert_eq!(parse_key_token("<s-h>", &comma), Some(Key::Char('H')));
    assert_eq!(parse_key_token("<C-w>", &comma), Some(Key::Ctrl('w')));
    match parse_key_token("<C-Esc>", &comma) {
        Some(Key::Chord(h)) => {
            assert!(h.modifiers.contains(awase::Modifiers::CTRL));
            assert_eq!(h.key, awase::Key::Escape);
        }
        other => panic!("`<C-Esc>` is representable now, got {other:?}"),
    }
    assert_eq!(parse_key_token("<C-NotAKey>", &comma), None);
}

#[test]
fn parse_leader_key_handles_space_comma_and_rejects_recursion() {
    assert_eq!(parse_leader_key("<space>"), Some(Key::Char(' ')));
    assert_eq!(parse_leader_key("<Space>"), Some(Key::Char(' ')));
    assert_eq!(parse_leader_key(","), Some(Key::Char(',')));
    assert_eq!(parse_leader_key("\\"), Some(Key::Char('\\')));
    assert_eq!(parse_leader_key("<C-a>"), Some(Key::Ctrl('a')));
    assert_eq!(parse_leader_key("<leader>"), None);
    assert_eq!(parse_leader_key("nope-multichar"), None);
    assert_eq!(parse_leader_key("  ,  "), Some(Key::Char(',')));
}

#[test]
fn leader_sequence_resolves_against_configured_leader() {
    let mut km = Keymap::new();
    km.set_leader(Key::Char(' '));
    let plan = plan_of(vec![kb("normal", "<leader>ff", "picker.files")]);
    apply_plan_to_keymap(&plan, &mut km);
    let space_seq = vec![Key::Char(' '), Key::Char('f'), Key::Char('f')];
    assert!(km.lookup_sequence(Mode::Normal, &space_seq).is_some());
    let comma_seq = vec![Key::Char(','), Key::Char('f'), Key::Char('f')];
    assert!(km.lookup_sequence(Mode::Normal, &comma_seq).is_none());
}

#[test]
fn resolve_known_action_returns_typed_variant() {
    let (a, deferred) = resolve_action("move-left");
    assert_eq!(a, Action::Move(Motion::Left));
    assert!(!deferred);
}

#[test]
fn resolve_unknown_action_falls_back_to_command() {
    let (a, deferred) = resolve_action("goto-home");
    assert!(deferred);
    match a {
        Action::Command { name, .. } => assert_eq!(name, "goto-home"),
        other => panic!("expected Action::Command, got {other:?}"),
    }
}

#[test]
fn apply_populates_keymap_with_typed_action() {
    let plan = plan_of(vec![kb("normal", "h", "move-left"), kb("insert", "<Esc>", "normal")]);
    let mut km = Keymap::new();
    let report = apply_plan_to_keymap(&plan, &mut km);
    assert_eq!(report.keybinds_applied, 2);
    assert_eq!(report.keybinds_deferred_to_commands, 0);
    assert!(report.warnings.is_empty());
    let b = km.lookup(Mode::Normal, &Key::Char('h')).unwrap();
    assert_eq!(b.action, Action::Move(Motion::Left));
    assert_eq!(b.description, "move-left");
}

#[test]
fn apply_defers_unknown_action_to_command_registry() {
    let plan = plan_of(vec![kb("normal", "g", "goto-home")]);
    let mut km = Keymap::new();
    let report = apply_plan_to_keymap(&plan, &mut km);
    assert_eq!(report.keybinds_applied, 1);
    assert_eq!(report.keybinds_deferred_to_commands, 1);
}

#[test]
fn apply_binds_multi_key_sequences_into_sequence_table() {
    let plan = plan_of(vec![
        kb("normal", "gh", "doc-start"),
        kb("normal", "<leader>ff", "picker.files"),
        kb("normal", "<leader>fg", "picker.grep"),
        kb("normal", "<Leader>fb", "picker.buffers"),
    ]);
    let mut km = Keymap::new();
    let report = apply_plan_to_keymap(&plan, &mut km);
    assert_eq!(report.keybinds_applied, 4);
    assert_eq!(report.keybinds_sequences, 4);
    assert_eq!(report.keybinds_deferred_to_commands, 3);
    assert!(report.warnings.is_empty());
    let seq = vec![Key::Char(','), Key::Char('f'), Key::Char('f')];
    let b = km.lookup_sequence(Mode::Normal, &seq).expect("<leader>ff should be bound");
    assert!(matches!(&b.action, Action::Command { name, .. } if name == "picker.files"));
    let gh = vec![Key::Char('g'), Key::Char('h')];
    assert_eq!(km.lookup_sequence(Mode::Normal, &gh).unwrap().action, Action::Move(Motion::DocStart));
}

#[test]
fn apply_still_warns_on_truly_unrecognised_keys() {
    let plan = plan_of(vec![kb("normal", "<Galactus>", "home")]);
    let mut km = Keymap::new();
    let report = apply_plan_to_keymap(&plan, &mut km);
    assert_eq!(report.keybinds_applied, 0);
    assert_eq!(report.keybinds_sequences, 0);
    assert_eq!(report.warnings.len(), 1);
    assert_eq!(
        report.warnings[0],
        "defkeybind :key \"<Galactus>\" — unknown key token `<Galactus>` in `<Galactus>`"
    );
}

#[test]
fn an_unknown_mode_is_a_warning_not_a_bind() {
    let plan = plan_of(vec![kb("bogus", "g", "x")]);
    let mut km = Keymap::new();
    let report = apply_plan_to_keymap(&plan, &mut km);
    assert_eq!(report.keybinds_applied, 0);
    assert_eq!(
        report.warnings,
        vec![
            "defkeybind :mode \"bogus\" — unknown mode name: bogus (valid: normal, insert, visual, visual-line, command)"
                .to_string()
        ]
    );
    assert!(matches!(parse_mode("bogus"), Err(LispError::UnknownMode(s)) if s == "bogus"));
    assert!(matches!(parse_mode("visual-line"), Ok(Mode::VisualLine)));
}

#[test]
fn apply_report_summary_counts() {
    let plan = plan_of(vec![kb("normal", "gh", "doc-start"), kb("normal", "<x", "y")]);
    let mut km = Keymap::new();
    let report = apply_plan_to_keymap(&plan, &mut km);
    assert_eq!(report.summary(), "keybinds=1 deferred_cmd=0 sequences=1 warnings=1");
}

#[test]
fn apply_commands_registers_defcmd_into_registry() {
    let plan = ApplyPlan {
        commands: vec![
            cmd("write-all", "Write every modified buffer", "buffer.write-all"),
            cmd("pick-files", "Pick a file", "picker.files"),
        ],
        ..Default::default()
    };
    let mut registry = CommandRegistry::default_set();
    let before = registry.len();
    let report = apply_plan_to_commands(&plan, &mut registry);
    assert_eq!(report.registered, 2);
    assert_eq!(report.overridden, 0);
    assert!(registry.contains("write-all"));
    assert!(registry.contains("pick-files"));
    assert_eq!(registry.len(), before + 2);
}

#[test]
fn apply_commands_defcmd_overrides_builtin_last_writer_wins() {
    let plan = ApplyPlan { commands: vec![cmd("save", "Save, formatted", "buffer.write")], ..Default::default() };
    let mut registry = CommandRegistry::default_set();
    let report = apply_plan_to_commands(&plan, &mut registry);
    assert_eq!(report.registered, 0);
    assert_eq!(report.overridden, 1);
    assert_eq!(report.overridden_names, vec!["save".to_string()]);
    assert_eq!(report.summary(), "commands_registered=0 overridden=1");
}

#[test]
fn apply_commands_empty_plan_is_noop() {
    let plan = ApplyPlan::default();
    let mut registry = CommandRegistry::default_set();
    let before = registry.len();
    let report = apply_plan_to_commands(&plan, &mut registry);
    assert_eq!(report.registered, 0);
    assert_eq!(report.overridden, 0);
    assert_eq!(registry.len(), before);
}

#[test]
fn apply_options_sets_and_overrides() {
    let plan = ApplyPlan {
        options: vec![
            OptionSpec { name: "number".into(), value: "true".into() },
            OptionSpec { name: "tabstop".into(), value: "4".into() },
            OptionSpec { name: "number".into(), value: "false".into() },
        ],
        ..Default::default()
    };
    let mut opts = OptionStore::new();
    let report = apply_plan_to_options(&plan, &mut opts);
    assert_eq!(report.set, 2);
    assert_eq!(report.overridden, 1);
    assert_eq!(opts.get("number"), Some("false"));
    assert_eq!(opts.get("tabstop"), Some("4"));
    assert_eq!(opts.get("wrap"), None);
    assert_eq!(report.summary(), "options_set=2 overridden=1");
}

#[test]
fn grammar_apply_registers_known_and_reports_unknown() {
    let plan = ApplyPlan {
        major_modes: vec![
            defmode("rust", "rust", &["rs", "rs.in"]),
            defmode("nix", "nix", &["nix"]),
            defmode("plain", "", &["txt"]),
        ],
        ..Default::default()
    };
    let known_langs = ["rust"];
    let known: Vec<bool> = plan.major_modes.iter().map(|m| known_langs.iter().any(|k| *k == m.tree_sitter)).collect();
    let (report, registered) = apply_plan_to_grammar_extensions(&plan, &known);
    assert_eq!(report.extensions_registered, 2);
    assert_eq!(report.extensions_skipped_unknown_language, 1);
    assert_eq!(report.unknown_languages, vec!["nix".to_string()]);
    assert_eq!(
        registered,
        vec![("rust".to_string(), "rs".to_string()), ("rust".to_string(), "rs.in".to_string())]
    );
}

#[test]
fn grammar_apply_tolerates_defmode_without_tree_sitter() {
    let plan = ApplyPlan { major_modes: vec![defmode("plain", "", &["txt", "log"])], ..Default::default() };
    let (report, registered) = apply_plan_to_grammar_extensions(&plan, &vec![true]);
    assert_eq!(report.extensions_registered, 0);
    assert!(report.unknown_languages.is_empty());
    assert!(registered.is_empty());
}

#[test]
fn filetypes_take_the_modes_comment_syntax() {
    let mut rust = defmode("rust", "rust", &["rs"]);
    rust.commentstring = "// %s".into();
    let mut bad = defmode("weird", "", &["w"]);
    bad.commentstring = "#".into();
    let plan = ApplyPlan { major_modes: vec![rust, bad, defmode("", "", &["x"])], ..Default::default() };
    let mut table = FiletypeTable::new();
    assert_eq!(apply_plan_to_filetypes(&plan, &mut table), 2);
    let rust = table.by_name("rust").unwrap();
    assert_eq!(rust.comment.as_ref().map(|c| c.prefix.as_str()), Some("// "));
    assert!(table.by_name("weird").unwrap().comment.is_none());
    assert_eq!(table.resolve("src/main.rs").map(|f| f.name.as_str()), Some("rust"));
}

#[test]
fn apply_overrides_default_vim_binding() {
    let plan = plan_of(vec![kb("normal", "h", "move-right")]);
    let mut km = Keymap::default_vim();
    let before = km.lookup(Mode::Normal, &Key::Char('h')).cloned().expect("default vim should bind h");
    assert_eq!(before.action, Action::Move(Motion::Left));
    apply_plan_to_keymap(&plan, &mut km);
    let after = km.lookup(Mode::Normal, &Key::Char('h')).unwrap();
    assert_eq!(after.action, Action::Move(Motion::Right));
}

#[test]
fn function_keys_parse_and_are_no_longer_discarded() {
    assert_eq!(parse_key_token("<F5>", &comma()), Some(Key::F(5)));
    assert_eq!(parse_key_token("<f12>", &comma()), Some(Key::F(12)));
    assert_eq!(parse_key_token("<F21>", &comma()), None, "past the range");
}

#[test]
fn multi_modifier_chords_parse() {
    let k = parse_key_token("<C-S-p>", &comma()).expect("parses");
    match k {
        Key::Chord(h) => {
            assert!(h.modifiers.contains(awase::Modifiers::CTRL));
            assert!(h.modifiers.contains(awase::Modifiers::SHIFT));
            assert_eq!(h.key, awase::Key::P);
        }
        other => panic!("expected a chord, got {other:?}"),
    }
}

#[test]
fn super_parses_in_every_spelling() {
    for tok in ["<D-p>", "<Cmd-p>", "<super-p>"] {
        match parse_key_token(tok, &comma()) {
            Some(Key::Chord(h)) => {
                assert!(h.modifiers.contains(awase::Modifiers::CMD), "{tok}");
            }
            other => panic!("{tok} should be a Super chord, got {other:?}"),
        }
    }
}

#[test]
fn the_single_modifier_shorthands_are_unchanged() {
    assert_eq!(parse_key_token("<C-r>", &comma()), Some(Key::Ctrl('r')));
    assert_eq!(parse_key_token("<A-f>", &comma()), Some(Key::Alt('f')));
    assert_eq!(parse_key_token("<M-f>", &comma()), Some(Key::Alt('f')));
}

#[test]
fn shift_alone_still_folds_to_the_uppercase_char() {
    assert_eq!(parse_key_token("<S-h>", &comma()), Some(Key::Char('H')));
}

#[test]
fn applying_a_plan_records_a_displaced_binding() {
    let mut km = Keymap::new();
    let plan = plan_of(vec![kb("normal", "Q", "buffer.undo"), kb("normal", "Q", "buffer.redo")]);
    let report = apply_plan_to_keymap(&plan, &mut km);
    assert_eq!(report.keybinds_applied, 2);
    let displaced: Vec<&Collision> =
        km.collisions().iter().filter(|c| matches!(c, Collision::Displaced { .. })).collect();
    assert_eq!(displaced.len(), 1, "{:?}", km.collisions());
    match displaced[0] {
        Collision::Displaced { mode, replaced, with, .. } => {
            assert_eq!(*mode, Mode::Normal);
            assert_eq!(replaced, "buffer.undo");
            assert_eq!(with, "buffer.redo");
        },
        _ => unreachable!(),
    }
}

#[test]
fn a_keybind_that_does_not_parse_records_no_collision() {
    let mut km = Keymap::new();
    let plan = plan_of(vec![kb("bogus", "Q", "buffer.undo")]);
    let report = apply_plan_to_keymap(&plan, &mut km);
    assert_eq!(report.warnings.len(), 1);
    assert!(km.collisions().is_empty());
}
