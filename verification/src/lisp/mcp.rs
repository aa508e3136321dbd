//! `defmcp`: an MCP tool exposed as an editor command.

use vstd::prelude::*;
use crate::text::{is_prefix, views, str_starts_with, push_str};

verus! {

/// One `(defmcp …)` form.
#[derive(Debug, Clone, PartialEq, Eq, Default)]
pub struct McpToolSpec {
    pub name: String,
    pub description: String,
    pub server: String,
    pub tool: String,
    pub input_schema: String,
    pub filetype: String,
    pub keybind: String,
    pub on_result: String,
    pub background: bool,
}

impl McpToolSpec {
    /// The prefixes an `:on-result` route may start with.
    pub const ON_RESULT_PREFIXES: [&'static str; 3] = ["action:", "command:", "workflow:"];

    /// `server.tool`.
    pub fn qualified_id(&self) -> (s: String)
        ensures
            s@ == self.server@ + seq!['.'] + self.tool@,
    {
        let mut s = crate::text::owned(self.server.as_str());
        crate::text::push_char(&mut s, '.');
        push_str(&mut s, self.tool.as_str());
        s
    }

    /// The result route is empty (discard) or starts with one of
    /// [`Self::ON_RESULT_PREFIXES`].
    pub fn has_valid_on_result(&self) -> (b: bool)
        ensures
            b == (self.on_result@.len() == 0 || is_prefix("action:"@, self.on_result@) || is_prefix(
                "command:"@,
                self.on_result@,
            ) || is_prefix("workflow:"@, self.on_result@)),
    {
        if self.on_result.as_str().is_empty() {
            return true;
        }
        let r = self.on_result.as_str();
        str_starts_with(r, "action:") || str_starts_with(r, "command:") || str_starts_with(
            r,
            "workflow:",
        )
    }
}

} // verus!
