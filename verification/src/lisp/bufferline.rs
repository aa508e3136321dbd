//! `defbufferline`: how the buffer line along the top is drawn.

use vstd::prelude::*;

verus! {

/// One `(defbufferline …)` form.
#[derive(Debug, Clone, PartialEq, Eq, Default)]
pub struct BufferLineSpec {
    pub show_close_icons: bool,
    pub separator: String,
    pub modified_indicator: String,
    pub show_diagnostics: bool,
    pub max_name_length: u32,
    pub no_icons: bool,
    pub no_click: bool,
}

} // verus!
