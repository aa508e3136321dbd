use escriba::lisp::ruler::{is_known_style, RulerSpec, KNOWN_STYLES};
use escriba::lisp::schedule::{Dispatch, ScheduleSpec, Trigger};
use escriba::lisp::session::{is_known_layout, SessionSpec};
use escriba::lisp::sexp::Sexp;
use escriba::lisp::snippet::{Resolution, SnippetSpec};

#[test]
fn style_vocabulary_is_exactly_three_entries() {
    assert_eq!(KNOWN_STYLES, ["soft", "hard", "dim"]);
    assert!(is_known_style("soft"));
    assert!(is_known_style("hard"));
    assert!(is_known_style("dim"));
    assert!(!is_known_style("bold"));
    assert!(!is_known_style(""));
}

#[test]
fn effective_style_falls_back_to_soft() {
    let s = RulerSpec::default();
    assert_eq!(s.effective_style(), "soft");
    let s = RulerSpec { style: "hard".into(), ..Default::default() };
    assert_eq!(s.effective_style(), "hard");
}

#[test]
fn all_columns_positive_catches_zero_entries() {
    let s = RulerSpec { columns: vec![80, 120], ..Default::default() };
    assert!(s.all_columns_positive());
    let s = RulerSpec { columns: vec![80, 0, 120], ..Default::default() };
    assert!(!s.all_columns_positive());
    let s = RulerSpec::default();
    assert!(s.all_columns_positive());
}

#[test]
fn color_format_accepts_rgb_and_rgba_hex() {
    for ok in ["#000000", "#ffffff", "#4c566a", "#112233aa", "#AABBCC"] {
        let s = RulerSpec { color: ok.into(), ..Default::default() };
        assert!(s.has_valid_color_format(), "should accept {ok:?}");
    }
}

#[test]
fn color_format_rejects_named_or_malformed() {
    for bad in ["blue", "#fff", "#123456789", "rgb(0,0,0)", "#zzzzzz", "fff"] {
        let s = RulerSpec { color: bad.into(), ..Default::default() };
        assert!(!s.has_valid_color_format(), "should reject {bad:?}");
    }
}

#[test]
fn empty_color_is_valid_means_theme_default() {
    let s = RulerSpec::default();
    assert!(s.has_valid_color_format());
    assert!(s.color.is_empty());
}

fn bare(name: &str) -> ScheduleSpec {
    ScheduleSpec { name: name.into(), ..Default::default() }
}

#[test]
fn trigger_classifies_single_field_as_canonical() {
    let mut s = bare("s");
    s.cron = "0 * * * *".into();
    assert_eq!(s.trigger(), Trigger::Cron);
    let mut s = bare("s");
    s.interval_seconds = 60;
    assert_eq!(s.trigger(), Trigger::Interval);
    let mut s = bare("s");
    s.idle_seconds = 30;
    assert_eq!(s.trigger(), Trigger::Idle);
    let mut s = bare("s");
    s.at_startup = true;
    assert_eq!(s.trigger(), Trigger::Startup);
    assert_eq!(bare("s").trigger(), Trigger::Manual);
}

#[test]
fn trigger_rejects_multiple_fields_as_invalid() {
    let mut s = bare("s");
    s.cron = "0 * * * *".into();
    s.interval_seconds = 60;
    assert_eq!(s.trigger(), Trigger::Invalid);
    let mut s = bare("s");
    s.idle_seconds = 30;
    s.at_startup = true;
    assert_eq!(s.trigger(), Trigger::Invalid);
}

#[test]
fn dispatch_classifies_each_mode() {
    let mut s = bare("s");
    s.command = "save".into();
    assert_eq!(s.dispatch(), Dispatch::Command);
    let mut s = bare("s");
    s.workflow = "ship".into();
    assert_eq!(s.dispatch(), Dispatch::Workflow);
    let mut s = bare("s");
    s.action = "picker.files".into();
    assert_eq!(s.dispatch(), Dispatch::Action);
    assert_eq!(bare("s").dispatch(), Dispatch::Invalid);
    let mut s = bare("s");
    s.command = "a".into();
    s.action = "b".into();
    assert_eq!(s.dispatch(), Dispatch::Invalid);
}

#[test]
fn cron_shape_check_counts_five_fields() {
    let mut s = bare("s");
    s.cron = "0 * * * *".into();
    assert!(s.has_well_shaped_cron());
    s.cron = "0 0 * *".into();
    assert!(!s.has_well_shaped_cron());
    s.cron = "0 0 * * * *".into();
    assert!(!s.has_well_shaped_cron());
    s.cron = "garbage".into();
    assert!(!s.has_well_shaped_cron());
    s.cron = "  0 * * * *  ".into();
    assert!(s.has_well_shaped_cron());
}

#[test]
fn is_automatic_is_false_for_manual() {
    let mut s = bare("s");
    assert!(!s.is_automatic());
    s.cron = "0 * * * *".into();
    assert!(s.is_automatic());
    s.cron = String::new();
    s.interval_seconds = 0;
    s.idle_seconds = 0;
    s.at_startup = false;
    assert!(!s.is_automatic());
}

#[test]
fn trigger_label_renders_payload_for_each_kind() {
    let mut s = bare("s");
    s.cron = "*/5 * * * *".into();
    assert_eq!(s.trigger_label(), "cron:*/5 * * * *");
    s = bare("s");
    s.interval_seconds = 120;
    assert_eq!(s.trigger_label(), "interval:120s");
    s = bare("s");
    s.idle_seconds = 45;
    assert_eq!(s.trigger_label(), "idle:45s");
    s = bare("s");
    s.at_startup = true;
    assert_eq!(s.trigger_label(), "startup");
    assert_eq!(bare("s").trigger_label(), "manual");
    let mut bad = bare("bad");
    bad.cron = "0 * * * *".into();
    bad.interval_seconds = 60;
    assert_eq!(bad.trigger_label(), "invalid");
}

#[test]
fn known_layout_accepts_empty_and_canonicals() {
    assert!(is_known_layout(""));
    assert!(is_known_layout("single"));
    assert!(is_known_layout("horizontal"));
    assert!(is_known_layout("grid-2x2"));
    assert!(!is_known_layout("zigzag"));
}

#[test]
fn pane_count_handles_canonical_layouts() {
    let mut s = SessionSpec {
        name: "x".into(),
        layout: "single".into(),
        buffers: vec!["a".into(), "b".into(), "c".into()],
        ..Default::default()
    };
    assert_eq!(s.pane_count(), 1);
    s.layout = "horizontal".into();
    assert_eq!(s.pane_count(), 3);
    s.layout = "grid-2x2".into();
    assert_eq!(s.pane_count(), 4);
    s.layout = "grid-3x3".into();
    assert_eq!(s.pane_count(), 9);
    s.layout = "tabs".into();
    assert_eq!(s.pane_count(), 1);
    s.layout = "custom-plugin-layout".into();
    assert_eq!(s.pane_count(), 3);
}

#[test]
fn has_buffers_checks_emptiness() {
    let a = SessionSpec { name: "x".into(), buffers: vec!["a".into()], ..Default::default() };
    let b = SessionSpec { name: "y".into(), ..Default::default() };
    assert!(a.has_buffers());
    assert!(!b.has_buffers());
}

#[test]
fn renders_atoms() {
    assert_eq!(Sexp::sym("Biblioteca").render(), "Biblioteca");
    assert_eq!(Sexp::kw("nome").render(), ":nome");
    assert_eq!(Sexp::str("hello").render(), "\"hello\"");
}

#[test]
fn escapes_quotes_and_backslashes() {
    assert_eq!(Sexp::str(r#"a "quote" and \ slash"#).render(), r#""a \"quote\" and \\ slash""#);
}

#[test]
fn renders_nested_list() {
    let form = Sexp::list(vec![
        Sexp::sym("defcaixa"),
        Sexp::kw("nome"),
        Sexp::str("escriba-oil"),
        Sexp::kw("kind"),
        Sexp::sym("Biblioteca"),
        Sexp::kw("etiquetas"),
        Sexp::str_list(vec!["escriba-plugin".into(), "files".into()]),
    ]);
    assert_eq!(
        form.render(),
        r#"(defcaixa :nome "escriba-oil" :kind Biblioteca :etiquetas ("escriba-plugin" "files"))"#,
    );
}

#[test]
fn emitted_form_re_parses() {
    let form = Sexp::list(vec![
        Sexp::sym("defcaixa"),
        Sexp::kw("nome"),
        Sexp::str("x"),
        Sexp::kw("descricao"),
        Sexp::str(r#"has a "quote""#),
    ]);
    let rendered = form.render();
    let parsed = tatara_lisp::read(&rendered).expect("emitted form must re-parse");
    assert_eq!(parsed.len(), 1, "exactly one top-level form");
}

#[test]
fn resolution_classifies_body_and_hash_modes() {
    let inline = SnippetSpec { trigger: "fn".into(), body: "fn ${1}() { ${0} }".into(), ..Default::default() };
    assert_eq!(inline.resolution(), Resolution::Inline);
    let hashed = SnippetSpec { trigger: "deploy".into(), hash: "af42c0d18e9b3f4aa18b7c3ef1de93a4".into(), ..Default::default() };
    assert_eq!(hashed.resolution(), Resolution::Hashed);
    let neither = SnippetSpec { trigger: "oops".into(), ..Default::default() };
    assert_eq!(neither.resolution(), Resolution::Invalid);
    let both = SnippetSpec {
        trigger: "both".into(),
        body: "x".into(),
        hash: "af42c0d18e9b3f4aa18b7c3ef1de93a4".into(),
        ..Default::default()
    };
    assert_eq!(both.resolution(), Resolution::Invalid);
}

#[test]
fn hash_format_validates_blake3_128_hex() {
    let ok = SnippetSpec { trigger: "x".into(), hash: "af42c0d18e9b3f4aa18b7c3ef1de93a4".into(), ..Default::default() };
    assert!(ok.has_valid_hash_format());
    let too_short = SnippetSpec { trigger: "x".into(), hash: "af42".into(), ..Default::default() };
    assert!(!too_short.has_valid_hash_format());
    let has_uppercase = SnippetSpec { trigger: "x".into(), hash: "AF42c0d18e9b3f4aa18b7c3ef1de93a4".into(), ..Default::default() };
    assert!(!has_uppercase.has_valid_hash_format());
    let has_garbage = SnippetSpec { trigger: "x".into(), hash: "af42c0d18e9b3f4aa18b7c3ef1de93_!".into(), ..Default::default() };
    assert!(!has_garbage.has_valid_hash_format());
    let empty = SnippetSpec { trigger: "x".into(), ..Default::default() };
    assert!(!empty.has_valid_hash_format());
}

#[test]
fn pane_count_is_one_per_buffer_for_split_layouts() {
    let mut s = SessionSpec { name: "x".into(), layout: "vertical".into(), ..Default::default() };
    assert_eq!(s.pane_count(), 0);
    s.layout = "custom-plugin-layout".into();
    assert_eq!(s.pane_count(), 0);
    s.layout = "single".into();
    assert_eq!(s.pane_count(), 1);
}
