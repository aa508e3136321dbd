//! `defdap`: a debug adapter.

use vstd::prelude::*;
use crate::text::{contains_str, views};

verus! {

/// One `(defdap …)` form.
#[derive(Debug, Clone, PartialEq, Eq, Default)]
pub struct DapAdapterSpec {
    pub name: String,
    pub command: String,
    pub args: Vec<String>,
    pub filetypes: Vec<String>,
    pub port: u32,
    pub init_configuration: String,
    pub startup_timeout_ms: u64,
}

/// The adapters escriba knows how to talk to.
pub const KNOWN_ADAPTERS: [&'static str; 12] = [
    "lldb",
    "codelldb",
    "debugpy",
    "delve",
    "node2",
    "js-debug",
    "chrome",
    "firefox",
    "dart",
    "ruby-debug",
    "php",
    "coreclr",
];

/// Is `name` one of [`KNOWN_ADAPTERS`]?
pub fn is_known_adapter(name: &str) -> (b: bool)
    ensures
        b == views(KNOWN_ADAPTERS@).contains(name@),
{
    contains_str(&KNOWN_ADAPTERS, name)
}

} // verus!
