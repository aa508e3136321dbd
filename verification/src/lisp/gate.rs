//! `defgate`: a check run on an editor event that can reject, warn or fix.

use vstd::prelude::*;
use crate::text::{contains_str, views};

verus! {

/// One `(defgate …)` form.
#[derive(Debug, Clone, PartialEq, Eq, Default)]
pub struct GateSpec {
    pub name: String,
    pub on_event: String,
    pub filetype: String,
    pub command: String,
    pub source: String,
    pub severity: String,
    pub action: String,
    pub auto_fix: String,
    pub message: String,
    pub timeout_ms: u64,
}

/// What a failing gate does.
pub const KNOWN_ACTIONS: [&'static str; 3] = ["reject", "warn", "auto-fix"];

/// The severities a gate can carry.
pub const KNOWN_SEVERITIES: [&'static str; 4] = ["hint", "info", "warn", "error"];

/// The sources a gate can read its findings from.
pub const KNOWN_SOURCES: [&'static str; 6] = [
    "lsp.diagnostics",
    "formatter.drift",
    "ts.query",
    "git.status",
    "secrets.scan",
    "type.check",
];

/// Is `name` one of [`KNOWN_ACTIONS`]?
pub fn is_known_action(name: &str) -> (b: bool)
    ensures
        b == views(KNOWN_ACTIONS@).contains(name@),
{
    contains_str(&KNOWN_ACTIONS, name)
}

/// Is `name` one of [`KNOWN_SEVERITIES`]?
pub fn is_known_severity(name: &str) -> (b: bool)
    ensures
        b == views(KNOWN_SEVERITIES@).contains(name@),
{
    contains_str(&KNOWN_SEVERITIES, name)
}

/// Is `name` one of [`KNOWN_SOURCES`]?
pub fn is_known_source(name: &str) -> (b: bool)
    ensures
        b == views(KNOWN_SOURCES@).contains(name@),
{
    contains_str(&KNOWN_SOURCES, name)
}

/// Where a gate's verdict comes from.
#[derive(Debug, Clone, Copy, PartialEq, Eq)]
pub enum GateMode {
    /// It runs a command.
    Command,
    /// It reads a finding source.
    Source,
    /// Neither or both were given.
    Invalid,
}

impl GateSpec {
    /// A gate names exactly one of a command and a source.
    pub fn mode(&self) -> (m: GateMode)
        ensures
            m == (if self.command@.len() > 0 && self.source@.len() == 0 {
                GateMode::Command
            } else if self.command@.len() == 0 && self.source@.len() > 0 {
                GateMode::Source
            } else {
                GateMode::Invalid
            }),
    {
        let has_command = !self.command.as_str().is_empty();
        let has_source = !self.source.as_str().is_empty();
        if has_command && !has_source {
            GateMode::Command
        } else if !has_command && has_source {
            GateMode::Source
        } else {
            GateMode::Invalid
        }
    }
}

} // verus!
