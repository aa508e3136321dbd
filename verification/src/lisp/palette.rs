//! `defpalette`: a named base16 colour palette a theme can reference.

use vstd::prelude::*;

verus! {

/// One `(defpalette …)` form: eight base colours and eight accents.
#[derive(Debug, Clone, PartialEq, Eq, Default)]
pub struct PaletteSpec {
    pub name: String,
    pub base00: String,
    pub base01: String,
    pub base02: String,
    pub base03: String,
    pub base04: String,
    pub base05: String,
    pub base06: String,
    pub base07: String,
    pub base08: String,
    pub base09: String,
    pub base0a: String,
    pub base0b: String,
    pub base0c: String,
    pub base0d: String,
    pub base0e: String,
    pub base0f: String,
}

} // verus!
