use escriba::command::{Command, CommandError, CommandRegistry};
use escriba::filetype::{CommentString, Filetype};
use escriba::id::BufferId;
use escriba::natives::{NativeCommand, Side};
use escriba::outcome::{BufferFacts, ConflictHere, Finding, Negai, PickerSource, Snapshot, Verdict};
use escriba::position::Position;
use escriba::edit::EditKind;

fn buffer(id: u64, path: Option<&str>, modified: bool) -> BufferFacts {
    BufferFacts { id: BufferId(id), path: path.map(|p| p.to_string()), modified, line_count: 1 }
}

fn dirty_file() -> Snapshot {
    Snapshot {
        buffers: vec![buffer(1, Some("/tmp/x.txt"), true)],
        active: Some(BufferId(1)),
        ..Default::default()
    }
}

fn scratch() -> Snapshot {
    Snapshot { buffers: vec![buffer(1, None, false)], active: Some(BufferId(1)), ..Default::default() }
}

fn snap() -> Snapshot {
    Snapshot::default()
}

#[test]
fn default_set_is_populated() {
    let r = CommandRegistry::default_set();
    let names = r.names();
    assert!(names.iter().any(|n| n == "save"));
    assert!(names.iter().any(|n| n == "quit"));
}

#[test]
fn specs_are_sorted() {
    let r = CommandRegistry::default_set();
    let specs = r.specs();
    assert!(specs.windows(2).all(|w| w[0].name <= w[1].name));
    assert_eq!(specs.len(), r.len());
}

#[test]
fn not_found_errors() {
    let r = CommandRegistry::new();
    let err = r.run("nope", &Snapshot::default(), &[]).unwrap_err();
    assert!(matches!(err, CommandError::NotFound(_)));
}

#[test]
fn a_command_asks_rather_than_acts() {
    let mut r = CommandRegistry::new();
    r.register(Command::action("w-all", "Write every modified buffer", "buffer.write-all"));
    let out = r.run("w-all", &dirty_file(), &[]).expect("registered command dispatches");
    assert_eq!(out.slips, vec![Negai::Save { buffer: BufferId(1) }]);
    assert_eq!(out.verdict, Verdict::Did);
}

#[test]
fn nothing_to_save_declines_rather_than_claiming_success() {
    let mut r = CommandRegistry::new();
    r.register(Command::action("w-all", "Write all", "buffer.write-all"));
    let out = r.run("w-all", &scratch(), &[]).expect("dispatches");
    assert!(out.slips.is_empty());
    assert_eq!(out.verdict, Verdict::Declined("no modified files".into()));
}

#[test]
fn no_active_buffer_declines_rather_than_failing() {
    let mut r = CommandRegistry::new();
    r.register(Command::action("w", "Save", "buffer.save"));
    let out = r.run("w", &Snapshot::default(), &[]).expect("dispatches");
    assert_eq!(out.verdict, Verdict::Declined("no active buffer".into()));
    assert!(out.slips.is_empty(), "a decline asks for nothing");
}

#[test]
fn unknown_action_symbol_is_reported_not_silent() {
    let mut r = CommandRegistry::new();
    r.register(Command::action("pick", "Pick a file", "picker.files"));
    let err = r
        .run("pick", &Snapshot::default(), &[])
        .expect_err("an unimplemented action must report, not report success");
    assert!(
        matches!(&err, CommandError::Unhandled(s) if s == "picker.files"),
        "expected Unhandled(picker.files), got {err:?}",
    );
    assert!(r.contains("pick"), "the command survives its own failure");
}

#[test]
fn action_naming_a_command_is_inert_not_recursive() {
    let mut r = CommandRegistry::new();
    r.register(Command::action("alias", "aliases save by name", "save"));
    let err = r.run("alias", &dirty_file(), &[]).expect_err("a command-name alias resolves nothing, and says so");
    assert!(matches!(&err, CommandError::Unhandled(s) if s == "save"), "expected Unhandled(save), got {err:?}");
}

#[test]
fn quit_is_a_request_not_a_flag_poke() {
    let mut r = CommandRegistry::new();
    r.register(Command::action("bye", "Quit", "editor.quit"));
    let out = r.run("bye", &Snapshot::default(), &[]).expect("dispatches");
    assert_eq!(out.slips, vec![Negai::Quit]);
}

#[test]
fn buffer_info_speaks_through_a_slip_not_stderr() {
    let mut r = CommandRegistry::new();
    r.register(Command::action("info", "Buffer info", "buffer.info"));
    let out = r.run("info", &dirty_file(), &[]).expect("dispatches");
    let Some(Negai::Message(m)) = out.slips.first() else {
        panic!("expected a Message slip, got {:?}", out.slips);
    };
    assert!(m.contains("buffer 1"), "{m}");
    assert!(m.contains("[modified]"), "{m}");
    assert_eq!(m, "buffer 1 — 1 line(s) [modified]");
}

#[test]
fn an_alias_reaches_a_registered_native() {
    let mut reg = CommandRegistry::new();
    reg.register(Command::native("target", "the real body", NativeCommand::Noh));
    reg.register(Command::action("Alias", "points at the native", "target"));
    assert!(reg.run("Alias", &snap(), &[]).is_ok(), "an alias whose target is registered must dispatch");
}

#[test]
fn a_builtin_is_consulted_before_the_registry() {
    let mut reg = CommandRegistry::new();
    reg.register(Command::action("Q", "quit", "editor.quit"));
    assert!(reg.run("Q", &snap(), &[]).is_ok());
}

#[test]
fn an_unknown_symbol_is_announced_not_silently_dropped() {
    let mut reg = CommandRegistry::new();
    reg.register(Command::action("Ghost", "goes nowhere", "nobody.home"));
    match reg.run("Ghost", &snap(), &[]) {
        Err(CommandError::Unhandled(s)) => assert_eq!(s, "nobody.home"),
        other => panic!("must announce the unimplemented symbol, got {other:?}"),
    }
}

#[test]
fn a_self_referential_alias_terminates_and_names_itself() {
    let mut reg = CommandRegistry::new();
    reg.register(Command::action("Loop", "points at itself", "Loop"));
    match reg.run("Loop", &snap(), &[]) {
        Err(CommandError::Unhandled(s) | CommandError::AliasCycle(s)) => assert_eq!(s, "Loop"),
        other => panic!("a self-alias must be a typed error, got {other:?}"),
    }
}

#[test]
fn a_two_step_alias_cycle_terminates() {
    let mut reg = CommandRegistry::new();
    reg.register(Command::action("A", "to B", "B"));
    reg.register(Command::action("B", "to A", "A"));
    match reg.run("A", &snap(), &[]) {
        Err(CommandError::AliasCycle(_)) => {}
        other => panic!("an A->B->A cycle must be an AliasCycle, got {other:?}"),
    }
}

#[test]
fn a_long_but_finite_chain_still_resolves() {
    let mut reg = CommandRegistry::new();
    reg.register(Command::native("end", "body", NativeCommand::Noh));
    reg.register(Command::action("c", "to end", "end"));
    reg.register(Command::action("b", "to c", "c"));
    reg.register(Command::action("a", "to b", "b"));
    assert!(reg.run("a", &snap(), &[]).is_ok(), "3 hops must resolve");
}

#[test]
fn a_chain_longer_than_the_budget_is_a_cycle() {
    let mut reg = CommandRegistry::new();
    reg.register(Command::native("n0", "body", NativeCommand::Noh));
    for i in 1..=8 {
        reg.register(Command::action(&format!("n{i}"), "hop", &format!("n{}", i - 1)));
    }
    assert!(reg.run("n7", &snap(), &[]).is_ok(), "seven hops still resolve");
    assert!(matches!(reg.run("n8", &snap(), &[]), Err(CommandError::AliasCycle(_))));
}

#[test]
fn registering_a_name_again_replaces_it() {
    let mut reg = CommandRegistry::new();
    reg.register(Command::native("x", "first", NativeCommand::Quit));
    reg.register(Command::native("x", "second", NativeCommand::Noh));
    assert_eq!(reg.len(), 1);
    let out = reg.run("x", &snap(), &[]).unwrap();
    assert_eq!(out.slips, vec![Negai::ClearSearchHighlight]);
    assert_eq!(reg.specs()[0].description, "second");
}

#[test]
fn error_messages_read_as_the_operator_sees_them() {
    assert_eq!(CommandError::NotFound("x".into()).message(), "command not found: x");
    assert_eq!(
        CommandError::Unhandled("a.b".into()).message(),
        "action `a.b` is declared but not implemented yet"
    );
    assert_eq!(CommandError::Failed("boom".into()).message(), "command failed: boom");
    assert_eq!(CommandError::AliasCycle("A".into()).message(), "alias cycle resolving `A`");
}

#[test]
fn quit_refuses_to_drop_an_unsaved_change() {
    let r = CommandRegistry::default_set();
    let out = r.run("quit", &dirty_file(), &[]).unwrap();
    assert_eq!(
        out.verdict,
        Verdict::Declined("E37: No write since last change in /tmp/x.txt (add ! to override)".into())
    );
    let out = r.run("quit!", &dirty_file(), &[]).unwrap();
    assert_eq!(out.slips, vec![Negai::Quit]);
    let mut s = scratch();
    s.buffers.push(buffer(2, None, true));
    let out = r.run("quit", &s, &[]).unwrap();
    assert_eq!(out.slips, vec![Negai::Quit], "the active buffer is clean");
    let out = r.run("quit-all", &s, &[]).unwrap();
    assert_eq!(
        out.verdict,
        Verdict::Declined("E37: No write since last change in [No Name] (add ! to override)".into())
    );
}

#[test]
fn write_quit_needs_a_file_name_and_exit_write_writes_only_if_modified() {
    let r = CommandRegistry::default_set();
    assert_eq!(r.run("write-quit", &scratch(), &[]).unwrap().verdict, Verdict::Declined("E32: No file name".into()));
    assert_eq!(
        r.run("write-quit", &dirty_file(), &[]).unwrap().slips,
        vec![Negai::Save { buffer: BufferId(1) }, Negai::Quit]
    );
    assert_eq!(r.run("exit-write", &scratch(), &[]).unwrap().slips, vec![Negai::Quit]);
    assert_eq!(
        r.run("exit-write", &dirty_file(), &[]).unwrap().slips,
        vec![Negai::Save { buffer: BufferId(1) }, Negai::Quit]
    );
    let mut s = dirty_file();
    s.buffers.push(buffer(2, None, true));
    assert_eq!(
        r.run("write-quit-all", &s, &[]).unwrap().slips,
        vec![Negai::Save { buffer: BufferId(1) }, Negai::Quit]
    );
}

#[test]
fn grep_joins_its_arguments_and_declines_without_one() {
    let r = CommandRegistry::default_set();
    let out = r.run("picker.grep", &snap(), &["fn".to_string(), "main".to_string()]).unwrap();
    assert_eq!(out.slips, vec![Negai::GrepProject { pattern: "fn main".into() }]);
    let out = r.run("picker.grep", &snap(), &[]).unwrap();
    assert!(matches!(out.verdict, Verdict::Declined(_)));
}

#[test]
fn pickers_and_windows_name_what_they_want() {
    let r = CommandRegistry::default_set();
    assert_eq!(r.run("picker.commands", &snap(), &[]).unwrap().slips, vec![Negai::OpenPicker(PickerSource::Commands)]);
    assert_eq!(r.run("files.open", &snap(), &[]).unwrap().slips, vec![Negai::OpenPicker(PickerSource::Files)]);
    assert_eq!(
        r.run("files.open-parent", &snap(), &[]).unwrap().slips,
        vec![Negai::OpenPicker(PickerSource::FilesUnder("..".into()))]
    );
    assert_eq!(r.run("pane.up", &snap(), &[]).unwrap().slips, vec![Negai::FocusDir { dx: 0, dy: -1 }]);
    assert_eq!(r.run("window.split", &snap(), &[]).unwrap().slips, vec![Negai::SplitWindow { stacked: true }]);
    assert_eq!(
        r.run("trouble.document", &snap(), &[]).unwrap().slips,
        vec![Negai::OpenPicker(PickerSource::Findings { workspace: false })]
    );
    assert_eq!(r.run("noh", &snap(), &[]).unwrap().slips, vec![Negai::ClearSearchHighlight]);
}

#[test]
fn comment_toggle_wraps_then_unwraps_keeping_the_indent() {
    let r = CommandRegistry::default_set();
    let mut s = dirty_file();
    s.lines = vec!["fn x() {".into(), "    let a = 1;".into()];
    s.cursor = Position::new(1, 0);
    s.filetype = Some(Filetype { name: "rust".into(), extensions: vec!["rs".into()], comment: CommentString::parse("// %s") });
    let out = r.run("comment.toggle-line", &s, &[]).unwrap();
    match &out.slips[..] {
        [Negai::Edit { buffer, edit }] => {
            assert_eq!(*buffer, BufferId(1));
            assert_eq!(edit.range.start, Position::new(1, 0));
            assert_eq!(edit.range.end, Position::new(1, 14));
            assert_eq!(edit.kind, EditKind::Replace { text: "    // let a = 1;".into() });
        }
        other => panic!("expected one edit, got {other:?}"),
    }
    s.lines[1] = "    // let a = 1;".into();
    let out = r.run("comment.toggle-line", &s, &[]).unwrap();
    match &out.slips[..] {
        [Negai::Edit { edit, .. }] => assert_eq!(edit.kind, EditKind::Replace { text: "    let a = 1;".into() }),
        other => panic!("expected one edit, got {other:?}"),
    }
    s.lines[1] = "   ".into();
    assert_eq!(r.run("comment.toggle-line", &s, &[]).unwrap().verdict, Verdict::Declined("nothing on this line".into()));
    s.filetype = None;
    assert_eq!(
        r.run("comment.toggle-line", &s, &[]).unwrap().verdict,
        Verdict::Declined("no filetype for this buffer".into())
    );
}

#[test]
fn conflicts_and_todos_are_published_then_walked() {
    let r = CommandRegistry::default_set();
    let mut s = dirty_file();
    assert_eq!(
        r.run("todo.next", &s, &[]).unwrap().verdict,
        Verdict::Declined("no TODO markers in this buffer".into())
    );
    let f = Finding { buffer: BufferId(1), line: 3, column: 0, message: "TODO: x".into() };
    s.todos = vec![f.clone()];
    let out = r.run("todo.prev", &s, &[]).unwrap();
    assert_eq!(
        out.slips,
        vec![
            Negai::PublishFindings { list: "todo".into(), findings: vec![f] },
            Negai::WalkList { list: "todo".into(), forward: false },
        ]
    );
    s.conflict_here = Some(ConflictHere { from: 2, to: 7, ours: "a\n".into(), theirs: "b\n".into(), both: "a\nb\n".into() });
    let out = r.run("conflict.choose-theirs", &s, &[]).unwrap();
    assert_eq!(out.slips.len(), 2);
    assert_eq!(out.slips[1], Negai::SetCursor { buffer: BufferId(1), to: Position::new(2, 0) });
    let _ = Side::Both;
}

#[test]
fn default_set_names_are_distinct_and_complete() {
    let r = CommandRegistry::default_set();
    let names = r.names();
    assert_eq!(names.len(), 45);
    assert_eq!(r.len(), 45);
    for w in names.windows(2) {
        assert!(w[0] < w[1], "{} then {}", w[0], w[1]);
    }
    for n in ["noh", "nohl", "nohlsearch", "buffer-info", "write-quit-all", "pane.up", "quit!"] {
        assert!(r.contains(n), "{n}");
    }
}
