//! The typed declarations a Lisp rc file can make, their validation, and
//! how a plan of them is applied to the editor.

pub mod mode;
pub mod hook;
pub mod keybind;
pub mod cmd;
pub mod option;
pub mod abbrev;
pub mod filetype;
pub mod mode_spec;
pub mod palette;
pub mod bufferline;
pub mod formatter;
pub mod plugin;
pub mod highlight;
pub mod icon;
pub mod dap;
pub mod lsp;
pub mod fold;
pub mod gate;
pub mod mark;
pub mod session;
pub mod hash;
pub mod attest;
pub mod snippet;
pub mod ruler;
pub mod kmacro;
pub mod mcp;
pub mod schedule;
pub mod effect;
pub mod sexp;
pub mod catalog;
pub mod plan;
pub mod keygrammar;
pub mod apply;
