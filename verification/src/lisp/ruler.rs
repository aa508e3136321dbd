//! `defruler`: vertical guide columns.

use vstd::prelude::*;
use vstd::utf8::encode_utf8;
use crate::text::{contains_str, views};

verus! {

/// One `(defruler …)` form.
#[derive(Debug, Clone, PartialEq, Eq, Default)]
pub struct RulerSpec {
    pub columns: Vec<u32>,
    pub filetype: String,
    pub style: String,
    pub color: String,
    pub description: String,
}

/// The ruler styles.
pub const KNOWN_STYLES: [&'static str; 3] = ["soft", "hard", "dim"];

/// Is `style` one of [`KNOWN_STYLES`]?
pub fn is_known_style(style: &str) -> (b: bool)
    ensures
        b == views(KNOWN_STYLES@).contains(style@),
{
    contains_str(&KNOWN_STYLES, style)
}

/// `b` is a hex digit of either case.
pub open spec fn is_hex_byte(b: u8) -> bool {
    (48 <= b <= 57) || (97 <= b <= 102) || (65 <= b <= 70)
}

/// `bytes` is a colour: `#` then six or eight hex digits of either case.
pub open spec fn is_hex_color(bytes: Seq<u8>) -> bool {
    &&& bytes.len() > 0
    &&& bytes[0] == 35
    &&& (bytes.len() == 7 || bytes.len() == 9)
    &&& forall|i: int| 1 <= i < bytes.len() ==> is_hex_byte(#[trigger] bytes[i])
}

impl RulerSpec {
    /// The style in force: `soft` when none is given.
    pub fn effective_style(&self) -> (s: &str)
        ensures
            s@ == (if self.style@.len() == 0 {
                "soft"@
            } else {
                self.style@
            }),
    {
        if self.style.as_str().is_empty() {
            "soft"
        } else {
            self.style.as_str()
        }
    }

    /// Every column is at least 1.
    pub fn all_columns_positive(&self) -> (b: bool)
        ensures
            b == forall|i: int| 0 <= i < self.columns@.len() ==> #[trigger] self.columns@[i] > 0,
    {
        let mut i: usize = 0;
        while i < self.columns.len()
            invariant
                i <= self.columns@.len(),
                forall|k: int| 0 <= k < i ==> #[trigger] self.columns@[k] > 0,
            decreases self.columns@.len() - i,
        {
            if self.columns[i] == 0 {
                return false;
            }
            i += 1;
        }
        true
    }

    /// The colour is empty (theme default) or `#` with six or eight hex
    /// digits.
    pub fn has_valid_color_format(&self) -> (b: bool)
        ensures
            b == (self.color@.len() == 0 || is_hex_color(encode_utf8(self.color@))),
    {
        if self.color.as_str().is_empty() {
            return true;
        }
        let bytes = self.color.as_str().as_bytes();
        proof {
            vstd::utf8::encode_utf8_valid_utf8(self.color@);
            assert(self.color@.len() > 0 ==> encode_utf8(self.color@).len() > 0) by {
                assert(encode_utf8(self.color@) == vstd::utf8::encode_scalar(self.color@[0] as u32)
                    + encode_utf8(self.color@.drop_first()));
            }
        }
        if bytes.len() == 0 || bytes[0] != 35u8 {
            return false;
        }
        if bytes.len() != 7 && bytes.len() != 9 {
            return false;
        }
        let mut i: usize = 1;
        while i < bytes.len()
            invariant
                1 <= i <= bytes@.len(),
                bytes@ == encode_utf8(self.color@),
                bytes@[0] == 35,
                bytes@.len() == 7 || bytes@.len() == 9,
                forall|k: int| 1 <= k < i ==> is_hex_byte(#[trigger] bytes@[k]),
            decreases bytes@.len() - i,
        {
            let c = bytes[i];
            if !((48u8 <= c && c <= 57u8) || (97u8 <= c && c <= 102u8) || (65u8 <= c && c <= 70u8)) {
                return false;
            }
            i += 1;
        }
        true
    }
}

} // verus!
