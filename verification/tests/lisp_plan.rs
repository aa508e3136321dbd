use escriba::lisp::cmd::CmdSpec;
use escriba::lisp::hook::HookSpec;
use escriba::lisp::keybind::KeybindSpec;
use escriba::lisp::mode_spec::MajorModeSpec;
use escriba::lisp::plan::{
    is_known_preset, plan_from_forms, validate_mode, ApplyPlan, LispError, ParsedForms, StatusLineSpec, StatusSegment,
    ThemeSpec,
};

fn kb(mode: &str, key: &str, action: &str) -> KeybindSpec {
    KeybindSpec { mode: mode.into(), key: key.into(), action: action.into(), description: String::new() }
}

fn theme(p: &str) -> ThemeSpec {
    ThemeSpec { preset: p.into() }
}

fn hook(event: &str, command: &str) -> HookSpec {
    HookSpec { event: event.into(), command: command.into(), ..Default::default() }
}

fn seg(name: &str) -> StatusSegment {
    StatusSegment { segment: name.into(), ..Default::default() }
}

#[test]
fn empty_source_yields_empty_plan() {
    let plan = plan_from_forms(ParsedForms::default()).unwrap();
    assert_eq!(plan.keybinds.len(), 0);
    assert_eq!(plan.commands.len(), 0);
    assert_eq!(plan.options.len(), 0);
    assert!(plan.theme.is_none());
    assert_eq!(plan.hooks.len(), 0);
}

#[test]
fn rejects_unknown_mode() {
    let forms = ParsedForms { keybinds: vec![kb("bogus", "g", "x")], ..Default::default() };
    let err = plan_from_forms(forms).expect_err("unknown mode should error");
    assert!(matches!(err, LispError::UnknownMode(_)));
}

#[test]
fn the_first_bad_mode_is_the_one_reported() {
    let forms = ParsedForms {
        keybinds: vec![kb("normal", "g", "x"), kb("nope", "g", "x"), kb("worse", "g", "x")],
        themes: vec![theme("laser-unicorn")],
        ..Default::default()
    };
    match plan_from_forms(forms) {
        Err(LispError::UnknownMode(m)) => assert_eq!(m, "nope"),
        other => panic!("expected UnknownMode(nope), got {other:?}"),
    }
    assert!(validate_mode("visual-line").is_ok());
}

#[test]
fn rejects_unknown_theme_preset() {
    let forms = ParsedForms { themes: vec![theme("laser-unicorn")], ..Default::default() };
    let err = plan_from_forms(forms).expect_err("unknown preset should error");
    assert!(matches!(err, LispError::UnknownTheme(_)));
    assert!(is_known_preset("nord"));
    assert!(!is_known_preset(""));
}

#[test]
fn theme_last_writer_wins() {
    let forms = ParsedForms { themes: vec![theme("nord"), theme("gruvbox-dark")], ..Default::default() };
    let plan = plan_from_forms(forms).unwrap();
    assert_eq!(plan.theme.unwrap().preset, "gruvbox-dark");
}

#[test]
fn rejects_unknown_hook_event() {
    let forms = ParsedForms { hooks: vec![hook("UserFired", "zap")], ..Default::default() };
    let err = plan_from_forms(forms).expect_err("unknown event should error");
    assert!(matches!(err, LispError::UnknownHook(_)));
    assert_eq!(
        err.message(""),
        "unknown hook event: UserFired (valid: BufReadPre, BufReadPost, BufWritePre, BufWritePost, ModeChanged, CursorMoved, BufEnter, BufLeave, VimEnter, VimLeave)"
    );
}

#[test]
fn error_messages_list_what_is_valid() {
    assert_eq!(
        LispError::UnknownTheme("x".into()).message(""),
        "unknown theme preset: x (valid: nord, gruvbox-dark, tokyo-night, catppuccin-mocha)"
    );
    assert_eq!(
        LispError::UnknownMode("x".into()).message(""),
        "unknown mode name: x (valid: normal, insert, visual, visual-line, command)"
    );
    assert_eq!(LispError::Parse("bad".into()).message(""), "tatara-lisp parse error: bad");
}

#[test]
fn plan_merge_concatenates_vectors_and_overwrites_theme() {
    let mut a = ApplyPlan { keybinds: vec![kb("normal", "gh", "home")], theme: Some(theme("nord")), ..Default::default() };
    let b = ApplyPlan {
        keybinds: vec![kb("normal", "gl", "end")],
        theme: Some(theme("gruvbox-dark")),
        ..Default::default()
    };
    a.merge(b);
    assert_eq!(a.keybinds.len(), 2);
    assert_eq!(a.theme.unwrap().preset, "gruvbox-dark");
}

#[test]
fn merging_a_plan_without_a_theme_keeps_the_theme() {
    let mut a = ApplyPlan { theme: Some(theme("nord")), ..Default::default() };
    a.merge(ApplyPlan::default());
    assert_eq!(a.theme.unwrap().preset, "nord");
}

#[test]
fn summary_shape_is_useful() {
    let forms = ParsedForms {
        keybinds: vec![kb("normal", "g", "x")],
        commands: vec![CmdSpec { name: "c".into(), description: String::new(), action: "x".into() }],
        themes: vec![theme("nord")],
        hooks: vec![hook("BufEnter", "c")],
        ..Default::default()
    };
    let plan = plan_from_forms(forms).unwrap();
    let s = plan.summary();
    assert!(s.contains("keybinds=1"));
    assert!(s.contains("cmds=1"));
    assert!(s.contains("theme=1"));
    assert!(s.contains("hooks=1"));
    assert_eq!(
        s,
        "keybinds=1 cmds=1 options=0 theme=1 hooks=1 filetypes=0 abbrev=0 snippets=0 major_modes=0 plugins=0 highlights=0 statusline=0"
    );
}

#[test]
fn summary_includes_major_modes_count() {
    let modes = ["rust", "py", "lisp"]
        .iter()
        .map(|n| MajorModeSpec { name: n.to_string(), ..Default::default() })
        .collect();
    let plan = plan_from_forms(ParsedForms { major_modes: modes, ..Default::default() }).unwrap();
    assert!(plan.summary().contains("major_modes=3"));
}

#[test]
fn status_line_last_writer_wins() {
    let first = StatusLineSpec { left: vec![seg("mode")], ..Default::default() };
    let second = StatusLineSpec { right: vec![seg("time")], ..Default::default() };
    let plan = plan_from_forms(ParsedForms { status_lines: vec![first, second], ..Default::default() }).unwrap();
    let sl = plan.status_line.unwrap();
    assert!(sl.left.is_empty());
    assert_eq!(sl.right.len(), 1);
}

#[test]
fn status_line_counts_every_slot() {
    let sl = StatusLineSpec {
        left: vec![seg("mode"), seg("branch")],
        center: vec![seg("file")],
        right: vec![seg("diagnostics"), seg("time")],
    };
    assert_eq!(sl.segment_count(), 5);
}
