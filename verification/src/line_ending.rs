//! Line-ending flavors, preserved across save round trips.

use vstd::prelude::*;
use crate::text::chars_of;

verus! {

/// Line-ending flavor.
#[derive(Debug, Clone, Copy, PartialEq, Eq, Structural, Default)]
pub enum LineEnding {
    #[default]
    Lf,
    Crlf,
    Cr,
}

/// How many line endings of each flavor the first `n` chars of `s` hold:
/// `\r\n` pairs, bare `\n`s, bare `\r`s (a pair counts once, at its `\r`).
pub open spec fn ending_counts(s: Seq<char>, n: int) -> (nat, nat, nat)
    decreases n,
{
    if n <= 0 {
        (0, 0, 0)
    } else {
        let t = ending_counts(s, n - 1);
        let j = n - 1;
        if s[j] == '\r' && j + 1 < s.len() && s[j + 1] == '\n' {
            (t.0 + 1, t.1, t.2)
        } else if s[j] == '\r' {
            (t.0, t.1, t.2 + 1)
        } else if s[j] == '\n' && !(j > 0 && s[j - 1] == '\r') {
            (t.0, t.1 + 1, t.2)
        } else {
            t
        }
    }
}

/// The flavor a sample uses most; LF wins any tie it is in, and CRLF
/// wins a tie with CR.
pub open spec fn spec_detect(s: Seq<char>) -> LineEnding {
    let t = ending_counts(s, s.len() as int);
    if t.0 > t.1 && t.0 >= t.2 {
        LineEnding::Crlf
    } else if t.2 > t.1 && t.2 > t.0 {
        LineEnding::Cr
    } else {
        LineEnding::Lf
    }
}

impl LineEnding {
    /// The terminator this flavor writes.
    pub fn as_str(self) -> (s: &'static str)
        ensures
            s@ == (match self {
                LineEnding::Lf => "\n"@,
                LineEnding::Crlf => "\r\n"@,
                LineEnding::Cr => "\r"@,
            }),
    {
        match self {
            LineEnding::Lf => "\n",
            LineEnding::Crlf => "\r\n",
            LineEnding::Cr => "\r",
        }
    }

    /// Detect from a sample: the flavor most of its line endings use.
    /// LF wins in ties — fewer bytes, more common.
    pub fn detect(src: &str) -> (e: Self)
        ensures
            e == spec_detect(src@),
    {
        let v = chars_of(src);
        let n = v.len();
        let mut i: usize = 0;
        let mut crlf: usize = 0;
        let mut lf: usize = 0;
        let mut cr: usize = 0;
        while i < n
            invariant
                i <= n,
                n == v@.len(),
                v@ == src@,
                (crlf as nat, lf as nat, cr as nat) == ending_counts(v@, i as int),
                crlf + lf + cr <= i,
            decreases n - i,
        {
            if v[i] == '\r' {
                if i + 1 < n && v[i + 1] == '\n' {
                    crlf += 1;
                } else {
                    cr += 1;
                }
            } else if v[i] == '\n' && !(i > 0 && v[i - 1] == '\r') {
                lf += 1;
            }
            i += 1;
        }
        if crlf > lf && crlf >= cr {
            LineEnding::Crlf
        } else if cr > lf && cr > crlf {
            LineEnding::Cr
        } else {
            LineEnding::Lf
        }
    }
}

} // verus!
