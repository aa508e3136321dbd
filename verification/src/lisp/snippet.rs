//! `defsnippet`: a snippet given inline or by the hash of a stored body.

use vstd::prelude::*;
use vstd::utf8::encode_utf8;
use crate::lisp::hash::{is_blake3_128_hex, is_hex128};

verus! {

/// One `(defsnippet …)` form.
#[derive(Debug, Clone, PartialEq, Eq, Default)]
pub struct SnippetSpec {
    pub trigger: String,
    pub body: String,
    pub hash: String,
    pub filetype: String,
    pub description: String,
}

/// Where a snippet's body comes from.
#[derive(Debug, Clone, Copy, PartialEq, Eq)]
pub enum Resolution {
    /// The body is given inline.
    Inline,
    /// The body is stored under its hash.
    Hashed,
    /// Neither or both were given.
    Invalid,
}

impl SnippetSpec {
    /// A snippet gives exactly one of a body and a hash.
    pub fn resolution(&self) -> (r: Resolution)
        ensures
            r == (if self.body@.len() > 0 && self.hash@.len() == 0 {
                Resolution::Inline
            } else if self.body@.len() == 0 && self.hash@.len() > 0 {
                Resolution::Hashed
            } else {
                Resolution::Invalid
            }),
    {
        let has_body = !self.body.as_str().is_empty();
        let has_hash = !self.hash.as_str().is_empty();
        if has_body && !has_hash {
            Resolution::Inline
        } else if !has_body && has_hash {
            Resolution::Hashed
        } else {
            Resolution::Invalid
        }
    }

    /// The hash is 32 lowercase hex digits.
    pub fn has_valid_hash_format(&self) -> (b: bool)
        ensures
            b == is_hex128(encode_utf8(self.hash@)),
    {
        is_blake3_128_hex(self.hash.as_str())
    }
}

} // verus!
