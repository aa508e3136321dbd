use escriba::lisp::attest::{
    compute_summary_hash, is_known_kind as is_known_attest_kind, is_known_severity as is_known_attest_severity,
    AttestResult, AttestSpec, KNOWN_KINDS as ATTEST_KINDS, KNOWN_SEVERITIES as ATTEST_SEVERITIES,
};
use escriba::lisp::catalog::EscribaPluginSpec;
use escriba::lisp::effect::{is_canonical_effect, is_known_kind as is_known_effect_kind, is_malformed_custom};
use escriba::lisp::fold::{is_known_method, FoldSpec, KNOWN_METHODS};
use escriba::lisp::gate::{is_known_action, GateMode, GateSpec};
use escriba::lisp::hash::{compute_blake3_128_hex, is_blake3_128_hex};
use escriba::lisp::kmacro::{is_known_mode as is_known_kmacro_mode, KmacroSpec};
use escriba::lisp::mark::{is_known_kind as is_known_mark_kind, MarkSpec, KNOWN_KINDS as MARK_KINDS};
use escriba::lisp::mcp::McpToolSpec;
use escriba::lisp::mode::{is_known_mode, KNOWN_MODES};

#[test]
fn compute_summary_hash_is_stable_and_lowercase_hex() {
    let a = compute_summary_hash("keybinds=10 cmds=5 options=20");
    let b = compute_summary_hash("keybinds=10 cmds=5 options=20");
    assert_eq!(a, b, "hash must be deterministic");
    assert_eq!(a.len(), 32, "BLAKE3-128 hex is 32 chars");
    assert!(
        a.bytes().all(|c| c.is_ascii_digit() || (b'a'..=b'f').contains(&c)),
        "hash must be lowercase hex only",
    );
}

#[test]
fn compute_summary_hash_distinguishes_different_summaries() {
    let a = compute_summary_hash("keybinds=10");
    let b = compute_summary_hash("keybinds=11");
    assert_ne!(a, b);
}

#[test]
fn effective_kind_defaults_to_pin() {
    let s = AttestSpec { id: "x".into(), ..Default::default() };
    assert_eq!(s.effective_kind(), "pin");
    let s = AttestSpec { id: "x".into(), kind: "min".into(), ..Default::default() };
    assert_eq!(s.effective_kind(), "min");
}

#[test]
fn effective_severity_defaults_to_error() {
    let s = AttestSpec { id: "x".into(), ..Default::default() };
    assert_eq!(s.effective_severity(), "error");
    let s = AttestSpec { id: "x".into(), severity: "warn".into(), ..Default::default() };
    assert_eq!(s.effective_severity(), "warn");
}

#[test]
fn kind_and_severity_classifiers_match_known_vocab() {
    for k in ATTEST_KINDS {
        assert!(is_known_attest_kind(k));
    }
    assert!(!is_known_attest_kind("strict"));
    for s in ATTEST_SEVERITIES {
        assert!(is_known_attest_severity(s));
    }
    assert!(!is_known_attest_severity("critical"));
}

#[test]
fn hash_format_requires_32_lowercase_hex() {
    let s = AttestSpec { id: "x".into(), counts_hash: "af42c0d18e9b3f4aa18b7c3ef1de93a4".into(), ..Default::default() };
    assert!(s.has_valid_hash_format());
    let s = AttestSpec { id: "x".into(), counts_hash: "AF42c0d18e9b3f4aa18b7c3ef1de93a4".into(), ..Default::default() };
    assert!(!s.has_valid_hash_format());
    let s = AttestSpec { id: "x".into(), counts_hash: "af42".into(), ..Default::default() };
    assert!(!s.has_valid_hash_format());
    let s = AttestSpec { id: "x".into(), counts_hash: "zz42c0d18e9b3f4aa18b7c3ef1de93a4".into(), ..Default::default() };
    assert!(!s.has_valid_hash_format());
    let s = AttestSpec { id: "x".into(), ..Default::default() };
    assert!(!s.has_valid_hash_format());
    assert!(s.is_empty_hash());
}

#[test]
fn evaluate_resolves_ok_drift_and_skipped() {
    let s = AttestSpec { id: "x".into(), counts_hash: compute_summary_hash("keybinds=1"), ..Default::default() };
    assert_eq!(s.evaluate(&compute_summary_hash("keybinds=1")), AttestResult::Match);
    match s.evaluate(&compute_summary_hash("keybinds=2")) {
        AttestResult::Drift { expected, actual } => {
            assert_eq!(expected, s.counts_hash);
            assert_ne!(expected, actual);
        }
        other => panic!("expected Drift, got {other:?}"),
    }
    let s = AttestSpec { id: "x".into(), ..Default::default() };
    assert_eq!(s.evaluate("whatever"), AttestResult::Skipped);
}

#[test]
fn etiquetas_dedup_and_order() {
    let spec = EscribaPluginSpec {
        name: "x".into(),
        version: String::new(),
        description: String::new(),
        category: "files".into(),
        blnvim_origin: "stevearc/oil.nvim".into(),
        ativar_em: vec![],
        tags: vec!["files".into(), "extra".into()],
        priority: 0,
    };
    assert_eq!(spec.etiquetas(), vec!["escriba-plugin", "files", "stevearc/oil.nvim", "extra"]);
}

#[test]
fn canonical_effect_table_covers_ghostty_set() {
    for name in ["cursor-glow", "bloom", "scanlines", "film-grain"] {
        assert!(is_canonical_effect(name), "canonical effect {name} missing from table");
    }
    assert!(!is_canonical_effect("laser-unicorn"));
}

#[test]
fn known_kinds_accept_all_variants() {
    for k in ["cursor", "screen", "cursor-trail", "underglow", "custom"] {
        assert!(is_known_effect_kind(k));
    }
    assert!(!is_known_effect_kind("quantum"));
}

#[test]
fn malformed_custom_classifier() {
    assert!(is_malformed_custom("custom", ""));
    assert!(!is_malformed_custom("custom", "/path/to.wgsl"));
    assert!(!is_malformed_custom("screen", ""));
}

#[test]
fn known_methods_match_vim_foldmethod_vocabulary() {
    assert_eq!(KNOWN_METHODS, ["treesitter", "indent", "marker", "heading", "syntax"]);
    for m in KNOWN_METHODS {
        assert!(is_known_method(m));
    }
    assert!(!is_known_method("origami"));
    assert!(!is_known_method(""));
}

#[test]
fn effective_method_falls_back_to_treesitter() {
    let s = FoldSpec::default();
    assert_eq!(s.effective_method(), "treesitter");
    let s = FoldSpec { method: "indent".into(), ..Default::default() };
    assert_eq!(s.effective_method(), "indent");
}

#[test]
fn marker_pair_complete_requires_both_sides() {
    let mut s = FoldSpec { method: "marker".into(), ..Default::default() };
    assert!(!s.marker_pair_complete(), "neither set");
    s.marker_start = "{{{".into();
    assert!(!s.marker_pair_complete(), "only start set");
    s.marker_end = "}}}".into();
    assert!(s.marker_pair_complete(), "both set");
}

#[test]
fn query_count_reports_query_length() {
    let s = FoldSpec::default();
    assert_eq!(s.query_count(), 0);
    let s = FoldSpec { queries: vec!["(a)".into(), "(b)".into(), "(c)".into()], ..Default::default() };
    assert_eq!(s.query_count(), 3);
}

#[test]
fn mode_classifies_spec_shape() {
    let cmd = GateSpec {
        name: "x".into(),
        on_event: "BufWritePre".into(),
        command: "rustfmt --check $FILE".into(),
        action: "reject".into(),
        ..Default::default()
    };
    assert_eq!(cmd.mode(), GateMode::Command);
    let src = GateSpec {
        name: "y".into(),
        on_event: "BufWritePost".into(),
        source: "lsp.diagnostics".into(),
        action: "warn".into(),
        ..Default::default()
    };
    assert_eq!(src.mode(), GateMode::Source);
    let bad = GateSpec { name: "z".into(), on_event: "BufWritePre".into(), action: "reject".into(), ..Default::default() };
    assert_eq!(bad.mode(), GateMode::Invalid);
    let both = GateSpec {
        name: "w".into(),
        on_event: "BufWritePre".into(),
        command: "x".into(),
        source: "y".into(),
        action: "reject".into(),
        ..Default::default()
    };
    assert_eq!(both.mode(), GateMode::Invalid);
}

#[test]
fn known_action_classifier_is_strict() {
    assert!(is_known_action("reject"));
    assert!(is_known_action("warn"));
    assert!(is_known_action("auto-fix"));
    assert!(!is_known_action("AutoFix"));
    assert!(!is_known_action("log"));
}

#[test]
fn compute_is_stable_and_lowercase_hex() {
    let a = compute_blake3_128_hex(b"hello world");
    let b = compute_blake3_128_hex(b"hello world");
    assert_eq!(a, b);
    assert_eq!(a.len(), 32);
    assert!(is_blake3_128_hex(&a));
}

#[test]
fn compute_distinguishes_different_inputs() {
    assert_ne!(compute_blake3_128_hex(b"a"), compute_blake3_128_hex(b"b"));
}

#[test]
fn compute_matches_the_first_sixteen_digest_bytes() {
    let full = blake3::hash(b"hello world").to_hex().to_string();
    assert_eq!(compute_blake3_128_hex(b"hello world"), full[..32].to_string());
}

#[test]
fn hex_validator_accepts_canonical_shape() {
    assert!(is_blake3_128_hex("af42c0d18e9b3f4aa18b7c3ef1de93a4"));
    assert!(is_blake3_128_hex("00000000000000000000000000000000"));
    assert!(is_blake3_128_hex("ffffffffffffffffffffffffffffffff"));
}

#[test]
fn hex_validator_rejects_wrong_length() {
    assert!(!is_blake3_128_hex(""));
    assert!(!is_blake3_128_hex("af42"));
    assert!(!is_blake3_128_hex("af42c0d18e9b3f4aa18b7c3ef1de93a4a"));
}

#[test]
fn hex_validator_rejects_uppercase() {
    assert!(!is_blake3_128_hex("AF42c0d18e9b3f4aa18b7c3ef1de93a4"));
}

#[test]
fn hex_validator_rejects_non_hex_chars() {
    assert!(!is_blake3_128_hex("gf42c0d18e9b3f4aa18b7c3ef1de93a4"));
    assert!(!is_blake3_128_hex("af42c0d18e9b3f4aa18b7c3ef1de93a_"));
}

fn bare_kmacro(name: &str, keys: &str) -> KmacroSpec {
    KmacroSpec { name: name.into(), keys: keys.into(), ..Default::default() }
}

#[test]
fn known_mode_vocabulary_matches_defkeybind_vocabulary() {
    assert!(is_known_kmacro_mode("normal"));
    assert!(is_known_kmacro_mode("insert"));
    assert!(is_known_kmacro_mode("visual"));
    assert!(is_known_kmacro_mode("visual-line"));
    assert!(is_known_kmacro_mode("command"));
    assert!(!is_known_kmacro_mode("superman"));
    assert!(!is_known_kmacro_mode(""));
}

#[test]
fn register_empty_is_valid() {
    let s = bare_kmacro("m", "iX<Esc>");
    assert!(s.has_valid_register());
}

#[test]
fn register_accepts_single_alphanumeric_char() {
    for r in ["a", "z", "A", "Z", "0", "9"] {
        let s = KmacroSpec { name: "m".into(), keys: "x".into(), register: r.into(), ..Default::default() };
        assert!(s.has_valid_register(), "register {r:?} should be valid");
    }
}

#[test]
fn register_rejects_multichar_or_symbols() {
    for bad in ["ab", "!", "@@", "aa", " ", "-"] {
        let s = KmacroSpec { name: "m".into(), keys: "x".into(), register: bad.into(), ..Default::default() };
        assert!(!s.has_valid_register(), "register {bad:?} should be invalid");
    }
}

#[test]
fn named_key_count_handles_canonical_sequences() {
    assert_eq!(bare_kmacro("m", "ihello").named_key_count(), 0);
    assert_eq!(bare_kmacro("m", "ihello<Esc>").named_key_count(), 1);
    assert_eq!(bare_kmacro("m", "<Esc>:wq<CR>").named_key_count(), 2);
    assert_eq!(bare_kmacro("m", "c`<C-r>\"`<Esc>").named_key_count(), 2);
}

#[test]
fn named_key_count_ignores_unclosed_or_empty_brackets() {
    assert_eq!(bare_kmacro("m", "iless <than").named_key_count(), 0);
    assert_eq!(bare_kmacro("m", "i<>x").named_key_count(), 0);
    assert_eq!(bare_kmacro("m", "i>x").named_key_count(), 0);
}

#[test]
fn known_kind_accepts_empty_and_canonicals() {
    assert!(is_known_mark_kind(""));
    for k in MARK_KINDS {
        assert!(is_known_mark_kind(k));
    }
    assert!(!is_known_mark_kind("laser"));
}

#[test]
fn vim_single_letter_classifier() {
    let cases: &[(&str, bool)] = &[
        ("'A", true),
        ("'a", true),
        ("'0", true),
        ("'9", true),
        ("'AA", false),
        ("''", false),
        ("A", false),
        ("bug-notes", false),
        ("", false),
    ];
    for (name, want) in cases {
        let m = MarkSpec { name: (*name).to_string(), ..Default::default() };
        assert_eq!(m.is_vim_single_letter(), *want, "name {name}");
    }
}

#[test]
fn effective_kind_defaults_jump() {
    let m = MarkSpec { name: "x".into(), ..Default::default() };
    assert_eq!(m.effective_kind(), "jump");
    let m = MarkSpec { name: "x".into(), kind: "anchor".into(), ..Default::default() };
    assert_eq!(m.effective_kind(), "anchor");
}

#[test]
fn qualified_id_renders_server_dot_tool() {
    let s = McpToolSpec { name: "x".into(), server: "mado".into(), tool: "clipboard_get".into(), ..Default::default() };
    assert_eq!(s.qualified_id(), "mado.clipboard_get");
}

#[test]
fn on_result_empty_is_valid_means_discard() {
    let s = McpToolSpec { name: "x".into(), ..Default::default() };
    assert!(s.has_valid_on_result());
    assert!(s.on_result.is_empty());
}

#[test]
fn on_result_accepts_each_prefix_kind() {
    for prefix in ["action:save", "command:buffer.write-all", "workflow:ship-rust"] {
        let s = McpToolSpec { name: "x".into(), on_result: prefix.into(), ..Default::default() };
        assert!(s.has_valid_on_result(), "should accept {prefix:?}");
    }
}

#[test]
fn on_result_rejects_unknown_prefix() {
    for bad in ["notify:x", "inline:x", "lol", "just-text"] {
        let s = McpToolSpec { name: "x".into(), on_result: bad.into(), ..Default::default() };
        assert!(!s.has_valid_on_result(), "should reject {bad:?}");
    }
}

#[test]
fn on_result_prefixes_const_exposes_exactly_three() {
    assert_eq!(McpToolSpec::ON_RESULT_PREFIXES, ["action:", "command:", "workflow:"]);
}

#[test]
fn canonical_modes_all_resolve() {
    for m in KNOWN_MODES {
        assert!(is_known_mode(m));
    }
}

#[test]
fn unknown_mode_falls_through() {
    assert!(!is_known_mode("superman"));
    assert!(!is_known_mode(""));
    assert!(!is_known_mode("NORMAL"));
}

#[test]
fn canonical_mode_list_is_stable() {
    assert_eq!(KNOWN_MODES, ["normal", "insert", "visual", "visual-line", "command"]);
}
