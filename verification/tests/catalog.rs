use escriba::lisp::catalog::{
    category_is_canonical, check_catalog_meta, emit_caixa_lisp, emit_defplugin_descriptor, CatalogError,
    EscribaPluginSpec,
};

/// The manifest form of the sample catalog source, as its reader yields it.
fn sample_meta() -> EscribaPluginSpec {
    EscribaPluginSpec {
        name: "escriba-oil".into(),
        version: "0.2.0".into(),
        description: "Edit the filesystem like a buffer".into(),
        category: "files".into(),
        blnvim_origin: "stevearc/oil.nvim".into(),
        ativar_em: vec!["Command: Oil".into()],
        tags: vec![],
        priority: 0,
    }
}

fn named(name: &str) -> EscribaPluginSpec {
    EscribaPluginSpec { name: name.into(), ..EscribaPluginSpec::default() }
}

#[test]
fn reads_meta_and_ignores_entry_forms() {
    let spec = check_catalog_meta(vec![sample_meta()]).expect("one meta form");
    assert_eq!(spec.name, "escriba-oil");
    assert_eq!(spec.version, "0.2.0");
    assert_eq!(spec.category, "files");
    assert_eq!(spec.ativar_em, vec!["Command: Oil"]);
    assert!(!spec.is_eager(), "a Command-triggered plugin is lazy");
}

#[test]
fn missing_meta_errors() {
    let err = check_catalog_meta(vec![]).expect_err("no meta");
    assert_eq!(err, CatalogError::MissingMeta);
}

#[test]
fn rejects_non_slug_name() {
    for bad in ["bad name", "bad/slash", "x.y"] {
        let err = check_catalog_meta(vec![named(bad)]).expect_err("non-slug name rejected");
        assert!(matches!(err, CatalogError::InvalidName(_)), "for {bad}");
    }
    assert!(check_catalog_meta(vec![named("escriba-ok_1")]).is_ok());
}

#[test]
fn multiple_meta_errors() {
    let err = check_catalog_meta(vec![named("a"), named("b")]).expect_err("two metas");
    assert!(matches!(err, CatalogError::MultipleMeta(2)));
}

#[test]
fn empty_name_errors() {
    let err = check_catalog_meta(vec![named("")]).expect_err("empty name");
    assert_eq!(err, CatalogError::EmptyName);
}

#[test]
fn emit_caixa_lisp_re_parses_as_defcaixa() {
    let spec = check_catalog_meta(vec![sample_meta()]).unwrap();
    let manifest = emit_caixa_lisp(&spec);
    let forms = tatara_lisp::read(&manifest).expect("emitted caixa.lisp re-parses");
    assert_eq!(forms.len(), 1);
    assert!(manifest.contains("Biblioteca"));
    assert!(manifest.contains("escriba-oil"));
    assert!(manifest.contains("stevearc/oil.nvim"));
}

#[test]
fn emit_defplugin_descriptor_re_parses_with_lazy_command_trigger() {
    let spec = check_catalog_meta(vec![sample_meta()]).unwrap();
    let desc = emit_defplugin_descriptor(&spec);
    let forms = tatara_lisp::read(&desc).expect("descriptor re-parses");
    assert_eq!(forms.len(), 1);
    assert!(desc.starts_with("(defplugin"));
    assert!(desc.contains(":name \"escriba-oil\""));
    assert!(desc.contains(":on-command \"Oil\""));
    assert!(desc.contains(":lazy #t"));
}

#[test]
fn effective_version_defaults() {
    let mut spec = check_catalog_meta(vec![sample_meta()]).unwrap();
    spec.version = String::new();
    assert_eq!(spec.effective_version(), "0.1.0");
}

#[test]
fn category_canonical_accepts_known_and_empty() {
    assert!(category_is_canonical(&sample_meta()));
    assert!(category_is_canonical(&named("x")));
    let mut odd = named("x");
    odd.category = "filez".into();
    assert!(!category_is_canonical(&odd));
}

#[test]
fn catalog_error_messages() {
    assert_eq!(
        CatalogError::MissingMeta.message(),
        "catalog source has no (defescribaplugin …) manifest form"
    );
    assert_eq!(
        CatalogError::MultipleMeta(2).message(),
        "catalog source has 2 (defescribaplugin …) forms — expected exactly 1"
    );
    assert_eq!(CatalogError::EmptyName.message(), "(defescribaplugin …) has empty :name");
    assert_eq!(
        CatalogError::InvalidName("x.y".into()).message(),
        "(defescribaplugin …) :name `x.y` is not a clean slug (allowed: letters, digits, `-`, `_`)"
    );
    assert_eq!(CatalogError::Parse("eof".into()).message(), "catalog parse error: eof");
}
