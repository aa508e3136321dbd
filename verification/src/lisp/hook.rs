//! `defhook`: an editor event hook, with Neovim's autocmd event names.

use vstd::prelude::*;
use crate::text::{contains_str, views};

verus! {

/// One `(defhook …)` form.
#[derive(Debug, Clone, PartialEq, Eq, Default)]
pub struct HookSpec {
    /// The autocmd-style event name.
    pub event: String,
    /// The command (registered name) to invoke when the hook fires.
    pub command: String,
    /// Optional `ModeChanged :from` qualifier.
    pub from: String,
    /// Optional `ModeChanged :to` qualifier.
    pub to: String,
    /// Optional buffer pattern qualifier.
    pub pattern: String,
}

/// The canonical event list; a spec naming any other event is rejected.
pub const KNOWN_EVENTS: [&'static str; 10] = [
    "BufReadPre",
    "BufReadPost",
    "BufWritePre",
    "BufWritePost",
    "ModeChanged",
    "CursorMoved",
    "BufEnter",
    "BufLeave",
    "VimEnter",
    "VimLeave",
];

/// Is `name` one of [`KNOWN_EVENTS`]?
pub fn is_known_event(name: &str) -> (b: bool)
    ensures
        b == views(KNOWN_EVENTS@).contains(name@),
{
    contains_str(&KNOWN_EVENTS, name)
}

} // verus!
