use escriba::damage::{Damage, LineDelta};
use escriba::filetype::{CommentString, Filetype, FiletypeTable};

#[test]
fn join_is_widening_and_full_is_top() {
    assert_eq!(Damage::Nothing.join(Damage::line(3)), Damage::line(3));
    assert_eq!(Damage::Full.join(Damage::Viewport), Damage::Full);
    assert_eq!(Damage::Viewport.join(Damage::line(3)), Damage::Viewport);
    assert_eq!(
        Damage::span(2, 4).join(Damage::span(3, 9)),
        Damage::Lines { from: 2, to: 9 },
        "two line spans union",
    );
}

#[test]
fn join_is_idempotent_and_commutative() {
    let d = Damage::span(1, 5);
    assert_eq!(d.join(d), d, "idempotent");
    assert_eq!(Damage::Viewport.join(d), d.join(Damage::Viewport), "commutative");
}

#[test]
fn line_count_change_runs_to_end() {
    let d = LineDelta { start: 10, old_lines: 40, new_lines: 41 };
    assert!(d.shifted_below());
    assert_eq!(Damage::from_delta(d), Damage::Lines { from: 10, to: u32::MAX });
}

#[test]
fn in_place_edit_is_local() {
    let d = LineDelta { start: 10, old_lines: 40, new_lines: 40 };
    assert!(!d.shifted_below());
    assert_eq!(Damage::from_delta(d), Damage::line(10));
}

#[test]
fn a_span_is_normalised_and_nothing_is_the_identity() {
    assert_eq!(Damage::span(9, 3), Damage::Lines { from: 3, to: 9 });
    assert!(Damage::Nothing.is_none());
    assert_eq!(Damage::Full.join(Damage::Nothing), Damage::Full);
}

#[test]
fn a_commentstring_without_a_placeholder_is_refused() {
    assert_eq!(CommentString::parse("//"), None);
    assert_eq!(CommentString::parse(""), None);
    assert!(CommentString::parse("// %s").is_some());
}

#[test]
fn line_and_block_styles_parse_the_same_way() {
    let line = CommentString::parse("// %s").expect("line style");
    assert_eq!(line.prefix, "// ");
    assert_eq!(line.suffix, "");

    let block = CommentString::parse("<!-- %s -->").expect("block style");
    assert_eq!(block.prefix, "<!-- ");
    assert_eq!(block.suffix, " -->");
}

#[test]
fn wrapping_then_stripping_is_a_round_trip() {
    for cs in ["// %s", "<!-- %s -->", ";; %s", "# %s"] {
        let c = CommentString::parse(cs).expect(cs);
        let wrapped = c.wrap("hello");
        assert_eq!(c.strip(&wrapped), Some("hello"), "{cs}");
        assert!(c.is_commented(&wrapped), "{cs}");
    }
}

#[test]
fn stripping_tolerates_what_a_human_would_type() {
    let c = CommentString::parse("// %s").expect("parses");
    assert_eq!(c.strip("//x"), Some("x"), "no space");
    assert_eq!(c.strip("// x"), Some("x"), "one space");
    assert_eq!(c.strip("    // x"), Some("x"), "indented");
    assert_eq!(c.strip("//  aligned"), Some(" aligned"));
    assert!(!c.is_commented("let x = 1;"), "plain code is not a comment");
    assert!(!c.is_commented(""), "an empty line is not a comment");
}

#[test]
fn resolution_is_by_extension_and_misses_are_none() {
    let mut t = FiletypeTable::new();
    t.insert(Filetype {
        name: "rust".into(),
        extensions: vec!["rs".into()],
        comment: CommentString::parse("// %s"),
    });
    assert_eq!(t.resolve("src/main.rs").map(|f| f.name.as_str()), Some("rust"));
    assert!(t.resolve("notes.txt").is_none());
    assert!(t.resolve("Makefile").is_none());
}

#[test]
fn a_later_entry_replaces_an_earlier_one_of_the_same_name() {
    let mut t = FiletypeTable::new();
    t.insert(Filetype {
        name: "rust".into(),
        extensions: vec!["rs".into()],
        comment: CommentString::parse("// %s"),
    });
    t.insert(Filetype {
        name: "rust".into(),
        extensions: vec!["rs".into()],
        comment: CommentString::parse("//! %s"),
    });
    assert_eq!(t.len(), 1);
    assert_eq!(
        t.resolve("a.rs").and_then(|f| f.comment.as_ref()).map(|c| c.prefix.as_str()),
        Some("//! "),
    );
}

#[test]
fn lookup_by_name_and_extension() {
    let mut t = FiletypeTable::new();
    assert!(t.is_empty());
    t.insert(Filetype { name: "lisp".into(), extensions: vec!["lisp".into(), "el".into()], comment: None });
    assert_eq!(t.by_name("lisp").map(|f| f.extensions.len()), Some(2));
    assert!(t.by_name("rust").is_none());
    assert_eq!(t.resolve_ext("el").map(|f| f.name.as_str()), Some("lisp"));
}

#[test]
fn inserting_a_filetype_leaves_other_names_alone() {
    let mut t = FiletypeTable::new();
    t.insert(Filetype { name: "rust".into(), extensions: vec!["rs".into()], comment: CommentString::parse("// %s") });
    t.insert(Filetype { name: "lisp".into(), extensions: vec!["lisp".into()], comment: CommentString::parse(";; %s") });
    let before = t.by_name("rust").cloned();
    t.insert(Filetype { name: "lisp".into(), extensions: vec!["el".into()], comment: CommentString::parse(";; %s") });
    assert_eq!(t.by_name("rust").cloned(), before);
    assert_eq!(t.by_name("lisp").unwrap().extensions, vec!["el".to_string()]);
    assert_eq!(t.len(), 2);
}
