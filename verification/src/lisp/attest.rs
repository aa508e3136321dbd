//! `defattest`: a pinned hash of a summary, checked for drift.

use vstd::prelude::*;
use vstd::utf8::encode_utf8;
use crate::text::{contains_str, views, str_eq, owned};
use crate::lisp::hash::{is_blake3_128_hex, is_hex128, compute_blake3_128_hex, hex_lower, blake3_digest};

verus! {

/// One `(defattest …)` form.
#[derive(Debug, Clone, PartialEq, Eq, Default)]
pub struct AttestSpec {
    pub id: String,
    pub description: String,
    pub counts_hash: String,
    pub kind: String,
    pub severity: String,
}

/// The attestation kinds.
pub const KNOWN_KINDS: [&'static str; 3] = ["pin", "min", "max"];

/// The attestation severities.
pub const KNOWN_SEVERITIES: [&'static str; 3] = ["info", "warn", "error"];

/// Is `kind` one of [`KNOWN_KINDS`]?
pub fn is_known_kind(kind: &str) -> (b: bool)
    ensures
        b == views(KNOWN_KINDS@).contains(kind@),
{
    contains_str(&KNOWN_KINDS, kind)
}

/// Is `severity` one of [`KNOWN_SEVERITIES`]?
pub fn is_known_severity(severity: &str) -> (b: bool)
    ensures
        b == views(KNOWN_SEVERITIES@).contains(severity@),
{
    contains_str(&KNOWN_SEVERITIES, severity)
}

/// The hash a summary is pinned by: BLAKE3 of its UTF-8 bytes, cut to 16
/// bytes, in lowercase hex.
pub fn compute_summary_hash(summary: &str) -> (s: String)
    ensures
        s@ == hex_lower(blake3_digest(encode_utf8(summary@)).subrange(0, 16)),
{
    compute_blake3_128_hex(summary.as_bytes())
}

/// How a pinned hash compares with the hash computed now.
#[derive(Debug, Clone, PartialEq, Eq)]
pub enum AttestResult {
    /// The hashes agree.
    Match,
    /// The hashes differ.
    Drift { expected: String, actual: String },
    /// No hash is pinned.
    Skipped,
}

impl AttestSpec {
    /// The kind in force: `pin` when none is given.
    pub fn effective_kind(&self) -> (s: &str)
        ensures
            s@ == (if self.kind@.len() == 0 {
                "pin"@
            } else {
                self.kind@
            }),
    {
        if self.kind.as_str().is_empty() {
            "pin"
        } else {
            self.kind.as_str()
        }
    }

    /// The severity in force: `error` when none is given.
    pub fn effective_severity(&self) -> (s: &str)
        ensures
            s@ == (if self.severity@.len() == 0 {
                "error"@
            } else {
                self.severity@
            }),
    {
        if self.severity.as_str().is_empty() {
            "error"
        } else {
            self.severity.as_str()
        }
    }

    /// The pinned hash is 32 lowercase hex digits.
    pub fn has_valid_hash_format(&self) -> (b: bool)
        ensures
            b == is_hex128(encode_utf8(self.counts_hash@)),
    {
        is_blake3_128_hex(self.counts_hash.as_str())
    }

    /// No hash is pinned.
    pub fn is_empty_hash(&self) -> (b: bool)
        ensures
            b == (self.counts_hash@.len() == 0),
    {
        self.counts_hash.as_str().is_empty()
    }

    /// Compare the pinned hash with `actual_hash`: skipped when nothing is
    /// pinned, else agreement or drift naming both.
    pub fn evaluate(&self, actual_hash: &str) -> (r: AttestResult)
        ensures
            self.counts_hash@.len() == 0 ==> r is Skipped,
            self.counts_hash@.len() > 0 && self.counts_hash@ == actual_hash@ ==> r is Match,
            self.counts_hash@.len() > 0 && self.counts_hash@ != actual_hash@ ==> (r matches AttestResult::Drift {
                expected,
                actual,
            } && expected@ == self.counts_hash@ && actual@ == actual_hash@),
    {
        if self.is_empty_hash() {
            return AttestResult::Skipped;
        }
        if str_eq(self.counts_hash.as_str(), actual_hash) {
            AttestResult::Match
        } else {
            AttestResult::Drift { expected: self.counts_hash.clone(), actual: owned(actual_hash) }
        }
    }
}

} // verus!
