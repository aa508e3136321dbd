//! `deflsp`: a language server.

use vstd::prelude::*;
use crate::text::{contains_str, views};

verus! {

/// One `(deflsp …)` form.
#[derive(Debug, Clone, PartialEq, Eq, Default)]
pub struct LspServerSpec {
    pub name: String,
    pub command: String,
    pub args: Vec<String>,
    pub filetypes: Vec<String>,
    pub root_markers: Vec<String>,
    pub init_options: String,
    pub manual_only: bool,
}

/// The servers escriba knows by name.
pub const KNOWN_SERVERS: [&'static str; 25] = [
    "rust-analyzer",
    "typescript-language-server",
    "pyright",
    "gopls",
    "lua-language-server",
    "nil",
    "nixd",
    "clangd",
    "zls",
    "bash-language-server",
    "yaml-language-server",
    "jsonls",
    "tailwindcss-language-server",
    "svelte-language-server",
    "taplo",
    "marksman",
    "terraformls",
    "ansiblels",
    "dockerls",
    "graphql-language-service-cli",
    "elmls",
    "ocamllsp",
    "ruff-lsp",
    "solargraph",
    "prismals",
];

/// Is `name` one of [`KNOWN_SERVERS`]?
pub fn is_known_server(name: &str) -> (b: bool)
    ensures
        b == views(KNOWN_SERVERS@).contains(name@),
{
    contains_str(&KNOWN_SERVERS, name)
}

} // verus!
