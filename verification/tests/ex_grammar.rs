use escriba::ex::{parse, resolve, verbs};

#[test]
fn abbreviations_all_resolve() {
    for v in verbs() {
        for len in v.min..=v.full.len() {
            let word = &v.full[..len];
            assert_eq!(resolve(word), Some(v), "`:{word}` must resolve to `{}`", v.full);
        }
    }
}

#[test]
fn no_abbreviation_is_ambiguous() {
    let all = verbs();
    for v in all.iter() {
        for len in v.min..=v.full.len() {
            let word = &v.full[..len];
            let hits: Vec<&str> = all
                .iter()
                .filter(|c| c.spelled_by(word))
                .map(|c| c.full)
                .collect();
            assert_eq!(hits.len(), 1, "`:{word}` is ambiguous: {hits:?}");
        }
    }
}

#[test]
fn below_the_minimum_selects_nothing() {
    for v in verbs() {
        for len in 1..v.min {
            let word = &v.full[..len];
            let hit = resolve(word);
            assert!(
                hit.is_none_or(|h| h.full != v.full),
                "`:{word}` is below `{}`'s minimum and must not select it",
                v.full,
            );
        }
    }
}

#[test]
fn the_write_quit_family_reaches_its_commands() {
    for (typed, expect) in [
        ("w", "save"),
        ("write", "save"),
        ("wq", "write-quit"),
        ("wq!", "write-quit"),
        ("wqa", "write-quit-all"),
        ("wqall", "write-quit-all"),
        ("x", "exit-write"),
        ("xit", "exit-write"),
        ("xa", "write-quit-all"),
        ("exi", "exit-write"),
        ("exit", "exit-write"),
        ("wa", "buffer.write-all"),
        ("q", "quit"),
        ("q!", "quit!"),
        ("quit", "quit"),
        ("qa", "quit-all"),
        ("qa!", "quit-all!"),
        ("quita", "quit-all"),
        ("quitall", "quit-all"),
        ("u", "undo"),
        ("red", "redo"),
    ] {
        assert_eq!(parse(typed).map(|i| i.command), Some(expect.to_string()), "`:{typed}`");
    }
}

#[test]
fn a_leading_colon_and_surrounding_space_are_not_part_of_the_name() {
    assert_eq!(parse(":wq").map(|i| i.command), Some("write-quit".into()));
    assert_eq!(parse("  wq  ").map(|i| i.command), Some("write-quit".into()));
}

#[test]
fn an_empty_line_dispatches_nothing() {
    assert_eq!(parse(""), None);
    assert_eq!(parse("   "), None);
    assert_eq!(parse(":"), None);
}

#[test]
fn an_unknown_word_passes_through_with_its_bang() {
    assert_eq!(parse("noh").map(|i| i.command), Some("noh".into()));
    assert_eq!(parse("picker.files").map(|i| i.command), Some("picker.files".into()));
    assert_eq!(parse("Ghost!").map(|i| i.command), Some("Ghost!".into()));
}

#[test]
fn arguments_survive_the_verb() {
    let i = parse("w  foo.txt  bar").expect("a verb with arguments parses");
    assert_eq!(i.command, "save");
    assert_eq!(i.args, vec!["foo.txt".to_string(), "bar".to_string()]);
}

#[test]
fn too_short_abbreviations_never_resolve_to_their_verb() {
    for v in verbs() {
        for len in 1..v.min {
            let word = &v.full[..len];
            assert!(!v.spelled_by(word), "`:{word}`");
            assert_ne!(resolve(word).map(|h| h.full), Some(v.full), "`:{word}`");
        }
    }
}
