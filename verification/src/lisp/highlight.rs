//! `defhighlight`: a highlight-group override, applied on top of the theme.

use vstd::prelude::*;
use crate::text::{contains_str, views};

verus! {

/// One `(defhighlight …)` form: colours, attributes, or a link to another
/// group.
#[derive(Debug, Clone, PartialEq, Eq, Default)]
pub struct HighlightSpec {
    pub group: String,
    pub fg: String,
    pub bg: String,
    pub bold: bool,
    pub italic: bool,
    pub underline: bool,
    pub undercurl: bool,
    pub strikethrough: bool,
    pub reverse: bool,
    pub link: String,
}

impl HighlightSpec {
    /// The group links to another group rather than styling itself.
    pub fn is_link(&self) -> (b: bool)
        ensures
            b == (self.link@.len() > 0),
    {
        !self.link.as_str().is_empty()
    }

    /// At least one text attribute is set.
    pub fn has_attrs(&self) -> (b: bool)
        ensures
            b == (self.bold || self.italic || self.underline || self.undercurl || self.strikethrough
                || self.reverse),
    {
        self.bold || self.italic || self.underline || self.undercurl || self.strikethrough
            || self.reverse
    }
}

/// The highlight groups every theme is expected to style.
pub const CANONICAL_GROUPS: [&'static str; 50] = [
    "Normal",
    "Comment",
    "String",
    "Number",
    "Boolean",
    "Function",
    "Keyword",
    "Statement",
    "Conditional",
    "Repeat",
    "Operator",
    "Type",
    "Structure",
    "Identifier",
    "Constant",
    "PreProc",
    "Macro",
    "Special",
    "CursorLine",
    "CursorColumn",
    "LineNr",
    "SignColumn",
    "Visual",
    "VisualNOS",
    "Search",
    "IncSearch",
    "MatchParen",
    "StatusLine",
    "StatusLineNC",
    "TabLine",
    "TabLineFill",
    "TabLineSel",
    "VertSplit",
    "Pmenu",
    "PmenuSel",
    "PmenuSbar",
    "PmenuThumb",
    "NormalFloat",
    "FloatBorder",
    "DiagnosticError",
    "DiagnosticWarn",
    "DiagnosticInfo",
    "DiagnosticHint",
    "GitSignsAdd",
    "GitSignsChange",
    "GitSignsDelete",
    "DiffAdd",
    "DiffChange",
    "DiffDelete",
    "DiffText",
];

/// Is `name` one of [`CANONICAL_GROUPS`]?
pub fn is_canonical_group(name: &str) -> (b: bool)
    ensures
        b == views(CANONICAL_GROUPS@).contains(name@),
{
    contains_str(&CANONICAL_GROUPS, name)
}

} // verus!
