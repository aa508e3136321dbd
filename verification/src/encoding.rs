//! Text encodings a buffer may carry.

use vstd::prelude::*;

verus! {

/// Encoding — only UTF-8 is read and written today.
#[derive(Debug, Clone, Copy, PartialEq, Eq, Structural, Default)]
pub enum Encoding {
    #[default]
    Utf8,
    Latin1,
    Utf16Le,
    Utf16Be,
}

impl Encoding {
    /// The conventional label.
    pub fn as_str(self) -> (s: &'static str)
        ensures
            s@ == (match self {
                Encoding::Utf8 => "utf-8"@,
                Encoding::Latin1 => "latin1"@,
                Encoding::Utf16Le => "utf-16le"@,
                Encoding::Utf16Be => "utf-16be"@,
            }),
    {
        match self {
            Encoding::Utf8 => "utf-8",
            Encoding::Latin1 => "latin1",
            Encoding::Utf16Le => "utf-16le",
            Encoding::Utf16Be => "utf-16be",
        }
    }
}

} // verus!
