//! The register — captured text plus how it was captured, which decides
//! how a put replays it.

use vstd::prelude::*;
use crate::text::{owned, chars_of, push_str, push_char};

verus! {

/// How a register's text was captured.
#[derive(Debug, Clone, Copy, PartialEq, Eq, Structural)]
pub enum RegisterKind {
    /// A run of characters; a put inserts it at a column.
    Charwise,
    /// Whole lines, terminators included; a put opens new lines.
    Linewise,
}

/// The unnamed register's contents, stored exactly as captured.
#[derive(Debug, Clone, PartialEq, Eq)]
pub struct Register {
    pub text: String,
    pub kind: RegisterKind,
}

/// `s` repeated `n` times.
pub open spec fn repeat(s: Seq<char>, n: nat) -> Seq<char>
    decreases n,
{
    if n == 0 {
        Seq::empty()
    } else {
        repeat(s, (n - 1) as nat) + s
    }
}

/// The text one copy of a put inserts: linewise text is newline-terminated.
pub open spec fn replay_unit(text: Seq<char>, kind: RegisterKind) -> Seq<char> {
    match kind {
        RegisterKind::Charwise => text,
        RegisterKind::Linewise => if text.len() > 0 && text.last() == '\n' {
            text
        } else {
            text.push('\n')
        },
    }
}

impl Register {
    pub fn new(text: &str, kind: RegisterKind) -> (r: Self)
        ensures
            r.text@ == text@,
            r.kind == kind,
    {
        Self { text: owned(text), kind }
    }

    pub fn charwise(text: &str) -> (r: Self)
        ensures
            r.text@ == text@,
            r.kind == RegisterKind::Charwise,
    {
        Self::new(text, RegisterKind::Charwise)
    }

    pub fn linewise(text: &str) -> (r: Self)
        ensures
            r.text@ == text@,
            r.kind == RegisterKind::Linewise,
    {
        Self::new(text, RegisterKind::Linewise)
    }

    pub fn is_linewise(&self) -> (b: bool)
        ensures
            b == (self.kind == RegisterKind::Linewise),
    {
        matches!(self.kind, RegisterKind::Linewise)
    }

    /// The text a put of `count` copies inserts: the replay unit repeated
    /// `max(count, 1)` times, so a zero count still puts once.
    pub fn replayed(&self, count: u32) -> (s: String)
        ensures
            s@ == repeat(replay_unit(self.text@, self.kind), if count == 0 { 1 } else { count as nat }),
    {
        let chars = chars_of(self.text.as_str());
        let mut unit = self.text.clone();
        match self.kind {
            RegisterKind::Charwise => {},
            RegisterKind::Linewise => {
                let n = chars.len();
                if n > 0 && chars[n - 1] == '\n' {
                } else {
                    push_char(&mut unit, '\n');
                }
            },
        }
        let times: u32 = if count == 0 { 1 } else { count };
        let mut out = String::new();
        let mut i: u32 = 0;
        while i < times
            invariant
                i <= times,
                unit@ == replay_unit(self.text@, self.kind),
                out@ == repeat(unit@, i as nat),
            decreases times - i,
        {
            push_str(&mut out, unit.as_str());
            i += 1;
        }
        out
    }
}

} // verus!
