//! The vocabulary of `defeffect`: effect kinds and the canonical effects.
//! The effect form itself carries floating-point strengths and lives with
//! the renderer.

use vstd::prelude::*;
use crate::text::{contains_str, views, str_eq};

verus! {

/// The effect kinds.
pub const KNOWN_KINDS: [&'static str; 5] = ["cursor", "screen", "cursor-trail", "underglow", "custom"];

/// The canonical effects, each with its kind.
pub const CANONICAL_EFFECTS: [(&'static str, &'static str); 9] = [
    ("cursor-glow", "cursor"),
    ("cursor-pulse", "cursor"),
    ("cursor-trail", "cursor-trail"),
    ("bloom", "screen"),
    ("scanlines", "screen"),
    ("film-grain", "screen"),
    ("crt-warp", "screen"),
    ("chromatic-aberration", "screen"),
    ("underglow", "underglow"),
];

/// Is `name` one of [`KNOWN_KINDS`]?
pub fn is_known_kind(name: &str) -> (b: bool)
    ensures
        b == views(KNOWN_KINDS@).contains(name@),
{
    contains_str(&KNOWN_KINDS, name)
}

/// Is `name` the name of one of [`CANONICAL_EFFECTS`]?
pub fn is_canonical_effect(name: &str) -> (b: bool)
    ensures
        b == exists|i: int| 0 <= i < 9 && (#[trigger] CANONICAL_EFFECTS@[i]).0@ == name@,
{
    let mut i: usize = 0;
    while i < 9
        invariant
            i <= 9,
            forall|k: int| 0 <= k < i ==> (#[trigger] CANONICAL_EFFECTS@[k]).0@ != name@,
        decreases 9 - i,
    {
        if str_eq(CANONICAL_EFFECTS[i].0, name) {
            return true;
        }
        i += 1;
    }
    false
}

/// A custom effect needs a shader: `custom` with no shader is malformed.
pub fn is_malformed_custom(kind: &str, shader: &str) -> (b: bool)
    ensures
        b == (kind@ == "custom"@ && shader@.len() == 0),
{
    str_eq(kind, "custom") && shader.is_empty()
}

} // verus!
