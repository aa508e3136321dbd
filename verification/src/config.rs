//! The editor configuration an rc declares with `defescriba`, and the
//! other `def…` declarations of the configuration surface.

use vstd::prelude::*;
use ishou_tokens::fleet_theme::FleetTheme;
use crate::text::owned;

verus! {

#[verifier::external_type_specification]
#[verifier::external_body]
pub struct ExFleetTheme(FleetTheme);

/// The palette-preset name ishou gives a fleet theme.
pub uninterp spec fn fleet_preset_name(t: FleetTheme) -> Seq<char>;

/// `ishou_tokens::FleetTheme::prescribed_default`: the theme the fleet
/// prescribes. In the ishou version this crate builds with, that is
/// `FleetTheme::PlemeDark`, whose palette-preset name is `nord`; the
/// contract states the name.
#[verifier::external_body]
fn fleet_prescribed_theme() -> (t: FleetTheme)
    ensures
        fleet_preset_name(t) == "nord"@,
{
    FleetTheme::prescribed_default()
}

/// `FleetTheme::preset_name`.
#[verifier::external_body]
fn preset_name_of(t: &FleetTheme) -> (r: &'static str)
    ensures
        r@ == fleet_preset_name(*t),
{
    t.preset_name()
}

/// One `(defescriba …)` form: every field optional.
#[derive(Debug, Clone, PartialEq, Eq, Default)]
pub struct EscribaConfig {
    pub tema: Option<String>,
    pub numeros_linha: Option<bool>,
    pub numeros_relativos: Option<bool>,
    pub largura_tab: Option<i64>,
    pub quebra_suave: Option<bool>,
    pub mostrar_statusline: Option<bool>,
    pub mostrar_tabbar: Option<bool>,
}

/// One `(defkeymap …)` form.
#[derive(Debug, Clone, PartialEq, Eq)]
pub struct KeymapDecl {
    pub modo: String,
    pub tecla: String,
    pub comando: String,
    pub descricao: Option<String>,
}

/// One `(defcommand …)` form.
#[derive(Debug, Clone, PartialEq, Eq)]
pub struct CommandDecl {
    pub nome: String,
    pub descricao: String,
    pub args: Vec<String>,
}

/// One `(defplugin …)` form of the configuration surface.
#[derive(Debug, Clone, PartialEq, Eq)]
pub struct PluginDecl {
    pub caixa: String,
    pub versao: String,
    pub ativar_em: Vec<String>,
}

/// One `(defmajor-mode …)` form.
#[derive(Debug, Clone, PartialEq, Eq)]
pub struct MajorMode {
    pub nome: String,
    pub extensoes: Vec<String>,
    pub estrutural_lisp: Option<bool>,
    pub tamanho_indent: Option<i64>,
}

/// One `(defminor-mode …)` form.
#[derive(Debug, Clone, PartialEq, Eq)]
pub struct MinorMode {
    pub nome: String,
    pub hooks: Vec<String>,
    pub descricao: Option<String>,
}

impl EscribaConfig {
    /// The zero-opinion floor: every field unset.
    pub fn bare() -> (c: Self)
        ensures
            c.tema is None,
            c.numeros_linha is None,
            c.numeros_relativos is None,
            c.largura_tab is None,
            c.quebra_suave is None,
            c.mostrar_statusline is None,
            c.mostrar_tabbar is None,
    {
        Self {
            tema: None,
            numeros_linha: None,
            numeros_relativos: None,
            largura_tab: None,
            quebra_suave: None,
            mostrar_statusline: None,
            mostrar_tabbar: None,
        }
    }

    /// The defaults escriba ships: the fleet's prescribed theme (`nord`), line and
    /// relative numbers on, tab width 2, no soft wrap, a status line and no
    /// tab bar.
    pub fn prescribed_default() -> (c: Self)
        ensures
            c.tema matches Some(t) && t@ == "nord"@,
            c.numeros_linha == Some(true),
            c.numeros_relativos == Some(true),
            c.largura_tab == Some(2i64),
            c.quebra_suave == Some(false),
            c.mostrar_statusline == Some(true),
            c.mostrar_tabbar == Some(false),
    {
        let theme = fleet_prescribed_theme();
        let name = preset_name_of(&theme);
        Self {
            tema: Some(owned(name)),
            numeros_linha: Some(true),
            numeros_relativos: Some(true),
            largura_tab: Some(2),
            quebra_suave: Some(false),
            mostrar_statusline: Some(true),
            mostrar_tabbar: Some(false),
        }
    }
}

} // verus!
