//! `defplugin`: a plugin with its lazy-loading triggers.

use vstd::prelude::*;
use crate::text::{views, str_eq_ignore_ascii_case, eq_ignore_ascii_case};

verus! {

/// One `(defplugin …)` form.
#[derive(Debug, Clone, PartialEq, Eq, Default)]
pub struct PluginSpec {
    pub name: String,
    pub description: String,
    pub category: String,
    pub on_event: String,
    pub on_command: String,
    pub on_filetype: String,
    pub keybinds: Vec<String>,
    pub lazy: bool,
    pub priority: i32,
}

/// The plugin categories.
pub const KNOWN_CATEGORIES: [&'static str; 12] = [
    "common",
    "completion",
    "formatting",
    "keybindings",
    "lsp",
    "telescope",
    "theming",
    "tmux",
    "treesitter",
    "files",
    "git",
    "ai",
];

/// Is `name` one of [`KNOWN_CATEGORIES`], ignoring ASCII case?
pub fn is_known_category(name: &str) -> (b: bool)
    ensures
        b == exists|i: int|
            0 <= i < KNOWN_CATEGORIES@.len() && eq_ignore_ascii_case(
                #[trigger] views(KNOWN_CATEGORIES@)[i],
                name@,
            ),
{
    let mut i: usize = 0;
    while i < 12
        invariant
            i <= 12,
            forall|k: int| 0 <= k < i ==> !eq_ignore_ascii_case(#[trigger] views(KNOWN_CATEGORIES@)[k], name@),
        decreases 12 - i,
    {
        if str_eq_ignore_ascii_case(KNOWN_CATEGORIES[i], name) {
            assert(eq_ignore_ascii_case(views(KNOWN_CATEGORIES@)[i as int], name@));
            return true;
        }
        i += 1;
    }
    false
}

} // verus!
