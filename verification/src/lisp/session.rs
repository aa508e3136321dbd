//! `defsession`: a named set of buffers and how they are laid out.

use vstd::prelude::*;
use crate::text::{contains_str, views, str_eq};

verus! {

/// One `(defsession …)` form.
#[derive(Debug, Clone, PartialEq, Eq, Default)]
pub struct SessionSpec {
    pub name: String,
    pub description: String,
    pub buffers: Vec<String>,
    pub layout: String,
    pub cwd: String,
    pub keybind: String,
    pub on_enter: Vec<String>,
    pub on_leave: Vec<String>,
}

/// The layouts a session can ask for.
pub const KNOWN_LAYOUTS: [&'static str; 7] = [
    "single",
    "horizontal",
    "vertical",
    "grid-2x2",
    "grid-3x3",
    "main-side",
    "tabs",
];

/// Is `name` empty (the default layout) or one of [`KNOWN_LAYOUTS`]?
pub fn is_known_layout(name: &str) -> (b: bool)
    ensures
        b == (name@.len() == 0 || views(KNOWN_LAYOUTS@).contains(name@)),
{
    name.is_empty() || contains_str(&KNOWN_LAYOUTS, name)
}

/// The number of panes a layout opens for `n` buffers.
pub open spec fn spec_pane_count(layout: Seq<char>, n: nat) -> nat {
    if layout == "single"@ || layout == "tabs"@ {
        1
    } else if layout == "grid-2x2"@ {
        4
    } else if layout == "grid-3x3"@ {
        9
    } else {
        n
    }
}

impl SessionSpec {
    /// The session names at least one buffer.
    pub fn has_buffers(&self) -> (b: bool)
        ensures
            b == (self.buffers@.len() > 0),
    {
        self.buffers.len() > 0
    }

    /// The number of panes the layout opens: one for `single` and `tabs`,
    /// four and nine for the grids, else one per buffer.
    pub fn pane_count(&self) -> (n: usize)
        ensures
            n == spec_pane_count(self.layout@, self.buffers@.len()),
    {
        let l = self.layout.as_str();
        if str_eq(l, "single") || str_eq(l, "tabs") {
            1
        } else if str_eq(l, "grid-2x2") {
            4
        } else if str_eq(l, "grid-3x3") {
            9
        } else {
            self.buffers.len()
        }
    }
}

} // verus!
