//! Editor modes and the cursor shape each one renders.

use vstd::prelude::*;

verus! {

/// Editor modes — vim-inspired with a small ceiling.
#[derive(Debug, Clone, Copy, PartialEq, Eq, Structural, Hash, Default)]
pub enum Mode {
    #[default]
    Normal,
    Insert,
    Visual,
    VisualLine,
    Command,
}

/// The on-screen shape a cursor takes.
#[derive(Debug, Clone, Copy, PartialEq, Eq, Structural, Hash, Default)]
pub enum CursorShape {
    /// Full-cell solid block — Normal / Command modes.
    #[default]
    Block,
    /// Thin vertical bar between cells — Insert mode.
    Bar,
    /// Underline along the baseline — Visual / VisualLine modes.
    Underline,
}

/// A one-shot transition request.
#[derive(Debug, Clone, Copy, PartialEq, Eq, Structural)]
pub struct ModeTransition {
    pub from: Mode,
    pub to: Mode,
}

/// The shape each mode renders: block in navigation and command entry,
/// bar in Insert, underline in the visual modes.
pub open spec fn spec_cursor_shape(m: Mode) -> CursorShape {
    match m {
        Mode::Normal | Mode::Command => CursorShape::Block,
        Mode::Insert => CursorShape::Bar,
        Mode::Visual | Mode::VisualLine => CursorShape::Underline,
    }
}

impl Mode {
    /// The status-line label.
    pub fn as_str(self) -> (s: &'static str)
        ensures
            s@ == (match self {
                Mode::Normal => "NORMAL"@,
                Mode::Insert => "INSERT"@,
                Mode::Visual => "VISUAL"@,
                Mode::VisualLine => "V-LINE"@,
                Mode::Command => "COMMAND"@,
            }),
    {
        match self {
            Mode::Normal => "NORMAL",
            Mode::Insert => "INSERT",
            Mode::Visual => "VISUAL",
            Mode::VisualLine => "V-LINE",
            Mode::Command => "COMMAND",
        }
    }

    /// The Rust spelling of the variant (`Normal`, `VisualLine`, …).
    pub fn variant_name(self) -> (s: &'static str)
        ensures
            s@ == (match self {
                Mode::Normal => "Normal"@,
                Mode::Insert => "Insert"@,
                Mode::Visual => "Visual"@,
                Mode::VisualLine => "VisualLine"@,
                Mode::Command => "Command"@,
            }),
    {
        match self {
            Mode::Normal => "Normal",
            Mode::Insert => "Insert",
            Mode::Visual => "Visual",
            Mode::VisualLine => "VisualLine",
            Mode::Command => "Command",
        }
    }

    pub fn is_insertish(self) -> (b: bool)
        ensures
            b == (self == Mode::Insert || self == Mode::Command),
    {
        matches!(self, Mode::Insert | Mode::Command)
    }

    pub fn is_visualish(self) -> (b: bool)
        ensures
            b == (self == Mode::Visual || self == Mode::VisualLine),
    {
        matches!(self, Mode::Visual | Mode::VisualLine)
    }

    /// The cursor shape this mode renders.
    pub fn cursor_shape(self) -> (c: CursorShape)
        ensures
            c == spec_cursor_shape(self),
    {
        match self {
            Mode::Normal | Mode::Command => CursorShape::Block,
            Mode::Insert => CursorShape::Bar,
            Mode::Visual | Mode::VisualLine => CursorShape::Underline,
        }
    }
}

impl CursorShape {
    /// A short stable label.
    pub fn as_str(self) -> (s: &'static str)
        ensures
            s@ == (match self {
                CursorShape::Block => "block"@,
                CursorShape::Bar => "bar"@,
                CursorShape::Underline => "underline"@,
            }),
    {
        match self {
            CursorShape::Block => "block",
            CursorShape::Bar => "bar",
            CursorShape::Underline => "underline",
        }
    }
}

/// Insert is the only mode that renders a bar cursor.
pub proof fn lemma_insert_is_the_only_bar(m: Mode)
    ensures
        (spec_cursor_shape(m) == CursorShape::Bar) <==> (m == Mode::Insert),
{
}

} // verus!
