//! `defkmacro`: a named keyboard macro.

use vstd::prelude::*;
use vstd::utf8::encode_utf8;
use crate::text::{contains_str, views, chars_of, ascii_alnum, is_ascii_alnum};

verus! {

/// One `(defkmacro …)` form.
#[derive(Debug, Clone, PartialEq, Eq, Default)]
pub struct KmacroSpec {
    pub name: String,
    pub description: String,
    pub keys: String,
    pub mode: String,
    pub filetype: String,
    pub keybind: String,
    pub register: String,
}

/// The modes a macro may run in; the same vocabulary `defkeybind` uses.
pub const KNOWN_MODES: [&'static str; 5] = ["normal", "insert", "visual", "visual-line", "command"];

/// Is `mode` one of [`KNOWN_MODES`]?
pub fn is_known_mode(mode: &str) -> (b: bool)
    ensures
        b == views(KNOWN_MODES@).contains(mode@),
{
    contains_str(&KNOWN_MODES, mode)
}

/// The offset, from `from`, of the first `>` in `b[from..]`.
pub open spec fn first_close(b: Seq<u8>, from: int) -> Option<nat>
    decreases b.len() - from,
{
    if from < 0 || from >= b.len() {
        None
    } else if b[from] == 62 {
        Some(0)
    } else {
        match first_close(b, from + 1) {
            Some(k) => Some(k + 1),
            None => None,
        }
    }
}

/// The named keys (`<Esc>`, `<C-r>`, …) in `b[i..]`: a `<` whose first
/// following `>` is not right after it counts one and resumes past that
/// `>`; anything else moves on by one byte.
pub open spec fn named_keys_from(b: Seq<u8>, i: int) -> nat
    decreases b.len() - i,
{
    if i < 0 || i >= b.len() {
        0
    } else if b[i] == 60 && first_close(b, i + 1) is Some && first_close(b, i + 1).unwrap() > 0 {
        proof {
            lemma_first_close_bound(b, i + 1);
        }
        1 + named_keys_from(b, i + first_close(b, i + 1).unwrap() + 2)
    } else {
        named_keys_from(b, i + 1)
    }
}

/// The first `>` at or after `from`, found by a scan.
fn find_close(b: &[u8], from: usize) -> (r: Option<usize>)
    requires
        from <= b@.len(),
    ensures
        r is Some <==> first_close(b@, from as int) is Some,
        r matches Some(k) ==> first_close(b@, from as int) == Some(k as nat),
    decreases b@.len() - from,
{
    if from >= b.len() {
        None
    } else if b[from] == 62u8 {
        Some(0)
    } else {
        match find_close(b, from + 1) {
            Some(k) => {
                proof {
                    assert(first_close(b@, from + 1) == Some(k as nat));
                }
                assert(k + from + 1 < b@.len()) by {
                    lemma_first_close_bound(b@, from + 1);
                }
                Some(k + 1)
            },
            None => None,
        }
    }
}

/// A `>` found from `from` lies in the sequence.
pub proof fn lemma_first_close_bound(b: Seq<u8>, from: int)
    ensures
        first_close(b, from) matches Some(k) ==> from + k < b.len() && 0 <= from,
    decreases b.len() - from,
{
    if 0 <= from < b.len() && b[from] != 62 {
        lemma_first_close_bound(b, from + 1);
    }
}

impl KmacroSpec {
    /// The register is empty (unnamed) or exactly one ASCII letter or digit.
    pub fn has_valid_register(&self) -> (b: bool)
        ensures
            b == (self.register@.len() == 0 || (self.register@.len() == 1 && is_ascii_alnum(
                self.register@[0],
            ))),
    {
        if self.register.as_str().is_empty() {
            return true;
        }
        let v = chars_of(self.register.as_str());
        v.len() == 1 && ascii_alnum(v[0])
    }

    /// The number of named keys (`<Esc>`, `<CR>`, `<C-r>`) in the macro's
    /// keys; an unclosed or empty bracket is not one.
    pub fn named_key_count(&self) -> (n: usize)
        ensures
            n == named_keys_from(encode_utf8(self.keys@), 0),
    {
        let bytes = self.keys.as_str().as_bytes();
        let mut count: usize = 0;
        let mut i: usize = 0;
        while i < bytes.len()
            invariant
                i <= bytes@.len(),
                bytes@ == encode_utf8(self.keys@),
                count + named_keys_from(bytes@, i as int) == named_keys_from(bytes@, 0),
                count <= i,
            decreases bytes@.len() - i,
        {
            if bytes[i] == 60u8 {
                match find_close(bytes, i + 1) {
                    Some(j) => {
                        if j > 0 {
                            proof {
                                lemma_first_close_bound(bytes@, i + 1);
                            }
                            count += 1;
                            i += j + 2;
                            continue;
                        }
                    },
                    None => {},
                }
            }
            i += 1;
        }
        count
    }
}

} // verus!
