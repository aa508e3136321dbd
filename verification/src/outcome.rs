//! What a command sees and what it may ask for.
//!
//! A command body reads a [`Snapshot`] of the editor and answers with an
//! [`Outcome`]: a verdict and a list of requests ([`Negai`]) that the
//! interpreter carries out. A body never touches editor state itself.

use vstd::prelude::*;
use crate::id::BufferId;
use crate::position::Position;
use crate::edit::Edit;
use crate::filetype::Filetype;
use crate::text::owned;

verus! {

/// What a command can read about one open buffer.
#[derive(Debug, Clone, PartialEq, Eq)]
pub struct BufferFacts {
    pub id: BufferId,
    /// The file it is backed by; `None` for a scratch buffer.
    pub path: Option<String>,
    pub modified: bool,
    pub line_count: usize,
}

/// A located finding in the active buffer (a TODO marker, a conflict).
#[derive(Debug, Clone, PartialEq, Eq)]
pub struct Finding {
    pub buffer: BufferId,
    pub line: u32,
    pub column: u32,
    pub message: String,
}

/// The merge conflict under the cursor: its line span and the text each
/// resolution leaves in its place.
#[derive(Debug, Clone, PartialEq, Eq)]
pub struct ConflictHere {
    /// First line of the conflict (its `<<<<<<<` marker).
    pub from: u32,
    /// The line after its `>>>>>>>` marker.
    pub to: u32,
    pub ours: String,
    pub theirs: String,
    pub both: String,
}

/// A read-only view of the editor, as much as a command may see.
#[derive(Debug, Clone, PartialEq, Eq, Default)]
pub struct Snapshot {
    /// The open buffers, in the order the editor lists them.
    pub buffers: Vec<BufferFacts>,
    /// The buffer in front of the operator.
    pub active: Option<BufferId>,
    /// The cursor in the active window.
    pub cursor: Position,
    /// The active buffer's lines, without their terminators.
    pub lines: Vec<String>,
    /// The active buffer's filetype, if one is known.
    pub filetype: Option<Filetype>,
    /// The TODO/FIXME markers of the active buffer, in order.
    pub todos: Vec<Finding>,
    /// The merge conflicts of the active buffer, in order.
    pub conflicts: Vec<Finding>,
    /// The conflict the cursor stands in, if any.
    pub conflict_here: Option<ConflictHere>,
    /// The parent of the working directory, when it has one.
    pub cwd_parent: Option<String>,
}

/// Which list a picker shows.
#[derive(Debug, Clone, PartialEq, Eq)]
pub enum PickerSource {
    Buffers,
    Commands,
    Help,
    Files,
    Project,
    /// Files under a given root.
    FilesUnder(String),
    /// Located findings, of this buffer or of the whole workspace.
    Findings { workspace: bool },
}

/// A request a command hands the interpreter.
#[derive(Debug, Clone, PartialEq, Eq)]
pub enum Negai {
    Save { buffer: BufferId },
    Undo { buffer: BufferId },
    Redo { buffer: BufferId },
    /// A line for the status bar.
    Message(String),
    Quit,
    OpenPicker(PickerSource),
    GrepProject { pattern: String },
    SplitWindow { stacked: bool },
    CloseWindow,
    FocusDir { dx: i8, dy: i8 },
    PublishFindings { list: String, findings: Vec<Finding> },
    WalkList { list: String, forward: bool },
    Edit { buffer: BufferId, edit: Edit },
    SetCursor { buffer: BufferId, to: Position },
    CycleBuffer { forward: bool },
    CloseBuffer(BufferId),
    ClearSearchHighlight,
}

/// How a command went.
#[derive(Debug, Clone, PartialEq, Eq)]
pub enum Verdict {
    /// It ran and asked for its slips.
    Did,
    /// It chose not to act, and says why. Not a failure.
    Declined(String),
}

/// A command's answer.
#[derive(Debug, Clone, PartialEq, Eq)]
pub struct Outcome {
    pub verdict: Verdict,
    pub slips: Vec<Negai>,
}

/// `o` ran and asks for exactly `slips`.
pub open spec fn did_spec(o: Outcome, slips: Seq<Negai>) -> bool {
    o.verdict is Did && o.slips@ == slips
}

/// `o` declined with `msg` and asks for nothing.
pub open spec fn declined_spec(o: Outcome, msg: Seq<char>) -> bool {
    &&& o.verdict matches Verdict::Declined(m) && m@ == msg
    &&& o.slips@.len() == 0
}

impl Outcome {
    /// It ran and asks for `slips`.
    pub fn did(slips: Vec<Negai>) -> (o: Self)
        ensures
            o.verdict is Did,
            o.slips@ == slips@,
    {
        Outcome { verdict: Verdict::Did, slips }
    }

    /// It declines, saying `why`.
    pub fn declined(why: &str) -> (o: Self)
        ensures
            declined_spec(o, why@),
    {
        Outcome { verdict: Verdict::Declined(owned(why)), slips: Vec::new() }
    }
}

impl Snapshot {
    /// The facts of buffer `id`, the first listed with that id.
    pub open spec fn spec_get(&self, id: BufferId) -> Option<BufferFacts> {
        let i = first_with_id(self.buffers@, id);
        if i < self.buffers@.len() {
            Some(self.buffers@[i as int])
        } else {
            None
        }
    }

    /// The facts of the active buffer, when there is one and it is open.
    pub open spec fn spec_active(&self) -> Option<BufferFacts> {
        match self.active {
            Some(id) => self.spec_get(id),
            None => None,
        }
    }

    /// The facts of the active buffer.
    pub fn active_buffer(&self) -> (r: Option<&BufferFacts>)
        ensures
            match r {
                Some(b) => self.spec_active() == Some(*b),
                None => self.spec_active() is None,
            },
    {
        match self.active {
            None => None,
            Some(id) => {
                let mut i: usize = 0;
                while i < self.buffers.len()
                    invariant
                        i <= self.buffers@.len(),
                        self.active == Some(id),
                        forall|k: int| 0 <= k < i ==> (#[trigger] self.buffers@[k]).id != id,
                    decreases self.buffers@.len() - i,
                {
                    if self.buffers[i].id == id {
                        proof {
                            lemma_first_with_id(self.buffers@, id, i as int);
                        }
                        return Some(&self.buffers[i]);
                    }
                    i += 1;
                }
                proof {
                    lemma_first_with_id_absent(self.buffers@, id);
                }
                None
            },
        }
    }
}

/// The index of the first buffer with id `id`, or the length when none has.
pub open spec fn first_with_id(bs: Seq<BufferFacts>, id: BufferId) -> nat
    decreases bs.len(),
{
    if bs.len() == 0 {
        0
    } else if bs[0].id == id {
        0
    } else {
        1 + first_with_id(bs.drop_first(), id)
    }
}

proof fn lemma_first_with_id(bs: Seq<BufferFacts>, id: BufferId, i: int)
    requires
        0 <= i < bs.len(),
        bs[i].id == id,
        forall|k: int| 0 <= k < i ==> (#[trigger] bs[k]).id != id,
    ensures
        first_with_id(bs, id) == i,
    decreases bs.len(),
{
    if i > 0 {
        assert(bs[0].id != id);
        let t = bs.drop_first();
        assert(t[i - 1] == bs[i]);
        assert forall|k: int| 0 <= k < i - 1 implies (#[trigger] t[k]).id != id by {
            assert(t[k] == bs[k + 1]);
        }
        lemma_first_with_id(t, id, i - 1);
    }
}

proof fn lemma_first_with_id_absent(bs: Seq<BufferFacts>, id: BufferId)
    requires
        forall|k: int| 0 <= k < bs.len() ==> (#[trigger] bs[k]).id != id,
    ensures
        first_with_id(bs, id) == bs.len(),
    decreases bs.len(),
{
    if bs.len() > 0 {
        assert(bs[0].id != id);
        let t = bs.drop_first();
        assert forall|k: int| 0 <= k < t.len() implies (#[trigger] t[k]).id != id by {
            assert(t[k] == bs[k + 1]);
        }
        lemma_first_with_id_absent(t, id);
    }
}

} // verus!
