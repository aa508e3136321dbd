//! The built-in command bodies.
//!
//! Each body reads a [`Snapshot`] and answers an [`Outcome`]; none of them
//! touches the editor. [`native_outcome`] states, body by body, exactly
//! which outcome each snapshot and argument list gets.

use vstd::prelude::*;
use crate::id::BufferId;
use crate::position::Position;
use crate::range::Range;
use crate::edit::{Edit, EditKind};
use crate::filetype::{spec_strip, CommentString};
use crate::outcome::{
    BufferFacts, ConflictHere, Finding, Negai, Outcome, PickerSource, Snapshot, Verdict,
    did_spec, declined_spec,
};
use crate::text::{
    chars_of, decimal, owned, push_decimal, push_str, push_char, slice_vec, string_of,
    trim_start_ws, trim_ws, trim_end_ws, leading_ws_len, trailing_ws_len, lemma_trim_start_ws,
    lemma_trim_end_ws, string_views, is_ws,
};
use crate::lisp::sexp::join_space;

verus! {

/// Which side of a merge conflict to keep.
#[derive(Debug, Clone, Copy, PartialEq, Eq, Structural)]
pub enum Side {
    Ours,
    Theirs,
    Both,
}

/// A compiled-in command body.
#[derive(Debug, Clone, Copy, PartialEq, Eq, Structural)]
pub enum NativeCommand {
    /// Write the active buffer.
    Save,
    /// Write every modified, path-backed buffer.
    WriteAll,
    Undo,
    Redo,
    /// Report the active buffer's shape on the status line.
    Info,
    /// Leave, whatever the buffers say.
    Quit,
    /// Leave unless that drops an unsaved change: of the active buffer, or
    /// of any buffer when `all`.
    QuitChecked { all: bool },
    /// Write the active buffer, then leave.
    WriteQuit,
    /// Write every modified, path-backed buffer, then leave.
    WriteQuitAll,
    /// Write the active buffer if modified, then leave.
    ExitWrite,
    BufferNext,
    BufferPrev,
    /// Close the active buffer.
    BufferDelete,
    /// Open the buffer picker, or the command picker when `commands`.
    OpenPicker { commands: bool },
    /// Open the keybinding picker.
    HelpPicker,
    /// Search the project for the arguments, joined by spaces.
    GrepPicker,
    /// Open the file picker, or the project picker when `project`.
    WalkPicker { project: bool },
    /// Open the file picker one level above the working directory.
    ParentPicker,
    /// Show located findings, of this buffer or the workspace.
    FindingsPicker { workspace: bool },
    SplitWindow { stacked: bool },
    CloseWindow,
    FocusDir { dx: i8, dy: i8 },
    /// Walk the merge conflicts of the active buffer.
    ConflictWalk { forward: bool },
    /// Resolve the conflict under the cursor.
    ChooseSide { side: Side },
    /// Walk the TODO markers of the active buffer.
    TodoWalk { forward: bool },
    /// Comment the cursor line, or uncomment it if it is commented.
    CommentToggle,
    /// Stop highlighting matches, keeping the pattern.
    Noh,
}

/// A request to save each modified, path-backed buffer of `bs`, in order.
pub open spec fn save_slips(bs: Seq<BufferFacts>) -> Seq<Negai>
    decreases bs.len(),
{
    if bs.len() == 0 {
        Seq::<Negai>::empty()
    } else {
        let rest = save_slips(bs.drop_last());
        let b = bs.last();
        if b.modified && b.path is Some {
            rest.push(Negai::Save { buffer: b.id })
        } else {
            rest
        }
    }
}

/// The first modified buffer of `bs`.
pub open spec fn first_modified(bs: Seq<BufferFacts>) -> Option<BufferFacts>
    decreases bs.len(),
{
    if bs.len() == 0 {
        None
    } else if bs[0].modified {
        Some(bs[0])
    } else {
        first_modified(bs.drop_first())
    }
}

/// How a buffer is named in a message: its path, or `[No Name]`.
pub open spec fn buffer_label(b: BufferFacts) -> Seq<char> {
    match b.path {
        Some(p) => p@,
        None => "[No Name]"@,
    }
}

/// vim's E37 refusal for `what`.
pub open spec fn e37(what: Seq<char>) -> Seq<char> {
    "E37: No write since last change in "@ + what + " (add ! to override)"@
}

/// The status line `buffer-info` shows for `b`.
pub open spec fn info_text(b: BufferFacts) -> Seq<char> {
    "buffer "@ + decimal(b.id.0 as nat) + " — "@ + decimal(b.line_count as nat) + " line(s)"@ + (
    if b.modified {
        " [modified]"@
    } else {
        Seq::<char>::empty()
    })
}

/// The buffer a `quit` asks about: the first modified one when `all`,
/// else the active one if it is modified.
pub open spec fn quit_blocker(s: Snapshot, all: bool) -> Option<BufferFacts> {
    if all {
        first_modified(s.buffers@)
    } else {
        match s.spec_active() {
            Some(b) => if b.modified {
                Some(b)
            } else {
                None
            },
            None => None,
        }
    }
}

/// The text a resolution keeps.
pub open spec fn side_text(c: ConflictHere, side: Side) -> Seq<char> {
    match side {
        Side::Ours => c.ours@,
        Side::Theirs => c.theirs@,
        Side::Both => c.both@,
    }
}

/// `o` is one status-line message saying `m`.
pub open spec fn message_spec(o: Outcome, m: Seq<char>) -> bool {
    &&& o.verdict is Did
    &&& o.slips@.len() == 1
    &&& o.slips@[0] matches Negai::Message(t) && t@ == m
}

/// Two findings name the same place and say the same thing.
pub open spec fn same_finding(a: Finding, b: Finding) -> bool {
    a.buffer == b.buffer && a.line == b.line && a.column == b.column && a.message@ == b.message@
}

/// Two lists of findings agree entry by entry.
pub open spec fn same_findings(a: Seq<Finding>, b: Seq<Finding>) -> bool {
    a.len() == b.len() && forall|i: int| 0 <= i < a.len() ==> same_finding(#[trigger] a[i], b[i])
}

/// `o` publishes `findings` as the list `list` and walks it.
pub open spec fn walk_spec(o: Outcome, list: Seq<char>, findings: Seq<Finding>, forward: bool) -> bool {
    &&& o.verdict is Did
    &&& o.slips@.len() == 2
    &&& o.slips@[0] matches Negai::PublishFindings { list: l, findings: f } && l@ == list
        && same_findings(f@, findings)
    &&& o.slips@[1] matches Negai::WalkList { list: l, forward: fw } && l@ == list && fw == forward
}

/// `o` first asks to replace `range` of `buffer` with `text`.
pub open spec fn edit_spec(o: Outcome, buffer: BufferId, range: Range, text: Seq<char>) -> bool {
    &&& o.verdict is Did
    &&& o.slips@.len() >= 1
    &&& o.slips@[0] matches Negai::Edit { buffer: b, edit: e } && b == buffer && e.range == range
        && (e.kind matches EditKind::Replace { text: t } && t@ == text)
}

/// What toggling the comment of `line` in syntax `(prefix, suffix)` gives:
/// the indentation is kept, and the rest is uncommented if it is commented,
/// wrapped otherwise.
pub open spec fn toggled_line(line: Seq<char>, prefix: Seq<char>, suffix: Seq<char>) -> Seq<char> {
    let body = trim_start_ws(line);
    let indent = line.subrange(0, line.len() - body.len());
    indent + match spec_strip(body, prefix, suffix) {
        Some(u) => u,
        None => prefix + body + suffix,
    }
}

/// `n` saturated into a `u32`.
pub open spec fn sat_u32(n: nat) -> u32 {
    if n <= u32::MAX {
        n as u32
    } else {
        u32::MAX
    }
}

/// The outcome of `comment.toggle-line` on snapshot `s`.
pub open spec fn comment_toggle_spec(s: Snapshot, o: Outcome) -> bool {
    match s.filetype {
        None => declined_spec(o, "no filetype for this buffer"@),
        Some(ft) => match ft.comment {
            None => declined_spec(o, "no comment syntax for "@ + ft.name@),
            Some(c) => match s.spec_active() {
                None => declined_spec(o, "no active buffer"@),
                Some(b) => {
                    let n = s.cursor.line;
                    if n >= s.lines@.len() {
                        declined_spec(o, "cursor past the end of the buffer"@)
                    } else {
                        let line = s.lines@[n as int]@;
                        if trim_ws(line).len() == 0 {
                            declined_spec(o, "nothing on this line"@)
                        } else {
                            &&& o.slips@.len() == 1
                            &&& edit_spec(
                                o,
                                b.id,
                                Range {
                                    start: Position { line: n, column: 0 },
                                    end: Position { line: n, column: sat_u32(line.len()) },
                                },
                                toggled_line(line, c.prefix@, c.suffix@),
                            )
                        }
                    }
                },
            },
        },
    }
}

/// The outcome of resolving the conflict under the cursor toward `side`.
pub open spec fn choose_side_spec(s: Snapshot, side: Side, o: Outcome) -> bool {
    match s.spec_active() {
        None => declined_spec(o, "no active buffer"@),
        Some(b) => match s.conflict_here {
            None => declined_spec(o, "not inside a merge conflict"@),
            Some(c) => {
                let start = Position { line: c.from, column: 0 };
                &&& o.slips@.len() == 2
                &&& edit_spec(o, b.id, Range { start, end: Position { line: c.to, column: 0 } }, side_text(c, side))
                &&& o.slips@[1] == Negai::SetCursor { buffer: b.id, to: start }
            },
        },
    }
}

/// The outcome a request on the active buffer gets: a decline without
/// one, else exactly `slip(id)`.
pub open spec fn on_active_spec(s: Snapshot, o: Outcome, slip: spec_fn(BufferId) -> Negai) -> bool {
    match s.spec_active() {
        None => declined_spec(o, "no active buffer"@),
        Some(b) => did_spec(o, seq![slip(b.id)]),
    }
}

/// Exactly the outcome body `n` gives on snapshot `s` with arguments `args`.
pub open spec fn native_outcome(n: NativeCommand, s: Snapshot, args: Seq<Seq<char>>, o: Outcome) -> bool {
    match n {
        NativeCommand::Save => on_active_spec(s, o, |id: BufferId| Negai::Save { buffer: id }),
        NativeCommand::Undo => on_active_spec(s, o, |id: BufferId| Negai::Undo { buffer: id }),
        NativeCommand::Redo => on_active_spec(s, o, |id: BufferId| Negai::Redo { buffer: id }),
        NativeCommand::BufferDelete => on_active_spec(s, o, |id: BufferId| Negai::CloseBuffer(id)),
        NativeCommand::WriteAll => if save_slips(s.buffers@).len() == 0 {
            declined_spec(o, "no modified files"@)
        } else {
            did_spec(o, save_slips(s.buffers@))
        },
        NativeCommand::Info => match s.spec_active() {
            None => declined_spec(o, "no active buffer"@),
            Some(b) => message_spec(o, info_text(b)),
        },
        NativeCommand::Quit => did_spec(o, seq![Negai::Quit]),
        NativeCommand::QuitChecked { all } => match quit_blocker(s, all) {
            Some(b) => declined_spec(o, e37(buffer_label(b))),
            None => did_spec(o, seq![Negai::Quit]),
        },
        NativeCommand::WriteQuit => match s.spec_active() {
            None => declined_spec(o, "no active buffer"@),
            Some(b) => if b.path is None {
                declined_spec(o, "E32: No file name"@)
            } else {
                did_spec(o, seq![Negai::Save { buffer: b.id }, Negai::Quit])
            },
        },
        NativeCommand::ExitWrite => match s.spec_active() {
            None => declined_spec(o, "no active buffer"@),
            Some(b) => if !b.modified {
                did_spec(o, seq![Negai::Quit])
            } else if b.path is None {
                declined_spec(o, "E32: No file name"@)
            } else {
                did_spec(o, seq![Negai::Save { buffer: b.id }, Negai::Quit])
            },
        },
        NativeCommand::WriteQuitAll => did_spec(o, save_slips(s.buffers@).push(Negai::Quit)),
        NativeCommand::BufferNext => did_spec(o, seq![Negai::CycleBuffer { forward: true }]),
        NativeCommand::BufferPrev => did_spec(o, seq![Negai::CycleBuffer { forward: false }]),
        NativeCommand::OpenPicker { commands } => did_spec(
            o,
            seq![Negai::OpenPicker(if commands { PickerSource::Commands } else { PickerSource::Buffers })],
        ),
        NativeCommand::HelpPicker => did_spec(o, seq![Negai::OpenPicker(PickerSource::Help)]),
        NativeCommand::GrepPicker => if join_space(args).len() == 0 {
            declined_spec(o, "grep: give a pattern — `:picker.grep <pattern>`"@)
        } else {
            &&& o.verdict is Did
            &&& o.slips@.len() == 1
            &&& o.slips@[0] matches Negai::GrepProject { pattern: p } && p@ == join_space(args)
        },
        NativeCommand::WalkPicker { project } => did_spec(
            o,
            seq![Negai::OpenPicker(if project { PickerSource::Project } else { PickerSource::Files })],
        ),
        NativeCommand::ParentPicker => {
            &&& o.verdict is Did
            &&& o.slips@.len() == 1
            &&& o.slips@[0] matches Negai::OpenPicker(PickerSource::FilesUnder(r)) && r@ == match s.cwd_parent {
                Some(p) => p@,
                None => ".."@,
            }
        },
        NativeCommand::FindingsPicker { workspace } => did_spec(
            o,
            seq![Negai::OpenPicker(PickerSource::Findings { workspace })],
        ),
        NativeCommand::SplitWindow { stacked } => did_spec(o, seq![Negai::SplitWindow { stacked }]),
        NativeCommand::CloseWindow => did_spec(o, seq![Negai::CloseWindow]),
        NativeCommand::FocusDir { dx, dy } => did_spec(o, seq![Negai::FocusDir { dx, dy }]),
        NativeCommand::ConflictWalk { forward } => match s.spec_active() {
            None => declined_spec(o, "no active buffer"@),
            Some(_) => if s.conflicts@.len() == 0 {
                declined_spec(o, "no merge conflicts in this buffer"@)
            } else {
                walk_spec(o, "conflict"@, s.conflicts@, forward)
            },
        },
        NativeCommand::TodoWalk { forward } => match s.spec_active() {
            None => declined_spec(o, "no active buffer"@),
            Some(_) => if s.todos@.len() == 0 {
                declined_spec(o, "no TODO markers in this buffer"@)
            } else {
                walk_spec(o, "todo"@, s.todos@, forward)
            },
        },
        NativeCommand::ChooseSide { side } => choose_side_spec(s, side, o),
        NativeCommand::CommentToggle => comment_toggle_spec(s, o),
        NativeCommand::Noh => did_spec(o, seq![Negai::ClearSearchHighlight]),
    }
}

fn one(n: Negai) -> (v: Vec<Negai>)
    ensures
        v@ == seq![n],
{
    let mut v = Vec::new();
    v.push(n);
    v
}

fn two(a: Negai, b: Negai) -> (v: Vec<Negai>)
    ensures
        v@ == seq![a, b],
{
    let mut v = Vec::new();
    v.push(a);
    v.push(b);
    v
}

fn copy_findings(v: &Vec<Finding>) -> (r: Vec<Finding>)
    ensures
        same_findings(r@, v@),
{
    let mut r: Vec<Finding> = Vec::new();
    let mut i: usize = 0;
    while i < v.len()
        invariant
            i <= v@.len(),
            r@.len() == i,
            forall|k: int| 0 <= k < i ==> same_finding(#[trigger] r@[k], v@[k]),
        decreases v@.len() - i,
    {
        let f = &v[i];
        r.push(Finding { buffer: f.buffer, line: f.line, column: f.column, message: owned(f.message.as_str()) });
        i += 1;
    }
    r
}

fn collect_saves(bs: &Vec<BufferFacts>) -> (v: Vec<Negai>)
    ensures
        v@ == save_slips(bs@),
{
    let mut v: Vec<Negai> = Vec::new();
    let mut i: usize = 0;
    while i < bs.len()
        invariant
            i <= bs@.len(),
            v@ == save_slips(bs@.subrange(0, i as int)),
        decreases bs@.len() - i,
    {
        assert(bs@.subrange(0, i + 1).drop_last() =~= bs@.subrange(0, i as int));
        let b = &bs[i];
        if b.modified && b.path.is_some() {
            v.push(Negai::Save { buffer: b.id });
        }
        i += 1;
    }
    assert(bs@.subrange(0, bs@.len() as int) =~= bs@);
    v
}

fn find_modified(bs: &Vec<BufferFacts>) -> (r: Option<&BufferFacts>)
    ensures
        match r {
            Some(b) => first_modified(bs@) == Some(*b),
            None => first_modified(bs@) is None,
        },
{
    let mut i: usize = 0;
    assert(bs@.subrange(0, bs@.len() as int) =~= bs@);
    while i < bs.len()
        invariant
            i <= bs@.len(),
            first_modified(bs@.subrange(i as int, bs@.len() as int)) == first_modified(bs@),
        decreases bs@.len() - i,
    {
        if bs[i].modified {
            return Some(&bs[i]);
        }
        assert(bs@.subrange(i as int, bs@.len() as int).drop_first() =~= bs@.subrange(
            i + 1,
            bs@.len() as int,
        ));
        i += 1;
    }
    None
}

fn label_of(b: &BufferFacts) -> (s: String)
    ensures
        s@ == buffer_label(*b),
{
    match &b.path {
        Some(p) => owned(p.as_str()),
        None => owned("[No Name]"),
    }
}

fn declined_with(msg: String) -> (o: Outcome)
    ensures
        declined_spec(o, msg@),
{
    Outcome { verdict: Verdict::Declined(msg), slips: Vec::new() }
}

fn quit_checked(s: &Snapshot, all: bool) -> (o: Outcome)
    ensures
        native_outcome(NativeCommand::QuitChecked { all }, *s, seq![], o),
{
    let blocker = if all {
        find_modified(&s.buffers)
    } else {
        match s.active_buffer() {
            Some(b) => if b.modified {
                Some(b)
            } else {
                None
            },
            None => None,
        }
    };
    match blocker {
        Some(b) => {
            let mut m = owned("E37: No write since last change in ");
            let label = label_of(b);
            push_str(&mut m, label.as_str());
            push_str(&mut m, " (add ! to override)");
            assert(m@ =~= e37(buffer_label(*b)));
            let o = declined_with(m);
            o
        },
        None => Outcome::did(one(Negai::Quit)),
    }
}

fn info(s: &Snapshot) -> (o: Outcome)
    ensures
        native_outcome(NativeCommand::Info, *s, seq![], o),
{
    match s.active_buffer() {
        None => Outcome::declined("no active buffer"),
        Some(b) => {
            let mut m = owned("buffer ");
            push_decimal(&mut m, b.id.0);
            push_str(&mut m, " — ");
            push_decimal(&mut m, b.line_count as u64);
            push_str(&mut m, " line(s)");
            if b.modified {
                push_str(&mut m, " [modified]");
            }
            Outcome::did(one(Negai::Message(m)))
        },
    }
}

fn join_args(args: &[String]) -> (s: String)
    ensures
        s@ == join_space(string_views(args@)),
{
    let mut s = String::new();
    let mut i: usize = 0;
    while i < args.len()
        invariant
            i <= args@.len(),
            s@ == join_space(string_views(args@.subrange(0, i as int))),
        decreases args@.len() - i,
    {
        let ghost pre = string_views(args@.subrange(0, i as int));
        assert(string_views(args@.subrange(0, i + 1)) =~= pre.push(args@[i as int]@));
        assert(string_views(args@.subrange(0, i + 1)).drop_last() =~= pre);
        if i > 0 {
            push_char(&mut s, ' ');
        }
        push_str(&mut s, args[i].as_str());
        i += 1;
    }
    assert(args@.subrange(0, args@.len() as int) =~= args@);
    s
}

fn walk(s: &Snapshot, list: &str, findings: &Vec<Finding>, forward: bool, none_msg: &str) -> (o: Outcome)
    ensures
        match s.spec_active() {
            None => declined_spec(o, "no active buffer"@),
            Some(_) => if findings@.len() == 0 {
                declined_spec(o, none_msg@)
            } else {
                walk_spec(o, list@, findings@, forward)
            },
        },
{
    match s.active_buffer() {
        None => Outcome::declined("no active buffer"),
        Some(_) => if findings.len() == 0 {
            Outcome::declined(none_msg)
        } else {
            Outcome::did(
                two(
                    Negai::PublishFindings { list: owned(list), findings: copy_findings(findings) },
                    Negai::WalkList { list: owned(list), forward },
                ),
            )
        },
    }
}

fn choose_side(s: &Snapshot, side: Side) -> (o: Outcome)
    ensures
        choose_side_spec(*s, side, o),
{
    let b = match s.active_buffer() {
        None => return Outcome::declined("no active buffer"),
        Some(b) => b,
    };
    let c = match &s.conflict_here {
        None => return Outcome::declined("not inside a merge conflict"),
        Some(c) => c,
    };
    let text = match side {
        Side::Ours => owned(c.ours.as_str()),
        Side::Theirs => owned(c.theirs.as_str()),
        Side::Both => owned(c.both.as_str()),
    };
    let start = Position::new(c.from, 0);
    let range = Range::new(start, Position::new(c.to, 0));
    Outcome::did(
        two(
            Negai::Edit { buffer: b.id, edit: Edit { range, kind: EditKind::Replace { text } } },
            Negai::SetCursor { buffer: b.id, to: start },
        ),
    )
}

/// The cursor line with its comment toggled, as `(indent + toggled)`.
fn toggle_line(line: &Vec<char>, c: &CommentString) -> (r: String)
    ensures
        r@ == toggled_line(line@, c.prefix@, c.suffix@),
{
    let lead = leading_ws_len(line);
    proof {
        lemma_trim_start_ws(line@);
    }
    let indent = slice_vec(line, 0, lead);
    let body = string_of(&slice_vec(line, lead, line.len()));
    assert(body@ =~= trim_start_ws(line@));
    let mut out = string_of(&indent);
    match c.strip(body.as_str()) {
        Some(u) => push_str(&mut out, u),
        None => {
            let w = c.wrap(body.as_str());
            push_str(&mut out, w.as_str());
        },
    }
    out
}

fn comment_toggle(s: &Snapshot) -> (o: Outcome)
    ensures
        comment_toggle_spec(*s, o),
{
    let ft = match &s.filetype {
        None => return Outcome::declined("no filetype for this buffer"),
        Some(ft) => ft,
    };
    let c = match &ft.comment {
        None => {
            let mut m = owned("no comment syntax for ");
            push_str(&mut m, ft.name.as_str());
            return declined_with(m);
        },
        Some(c) => c,
    };
    let b = match s.active_buffer() {
        None => return Outcome::declined("no active buffer"),
        Some(b) => b,
    };
    let n = s.cursor.line;
    if n as usize >= s.lines.len() {
        return Outcome::declined("cursor past the end of the buffer");
    }
    let v = chars_of(s.lines[n as usize].as_str());
    let trail = trailing_ws_len(&v);
    proof {
        lemma_trim_end_ws(v@);
        lemma_trim_start_ws(trim_end_ws(v@));
    }
    if trail == v.len() {
        assert(trim_end_ws(v@).len() == 0);
        assert(trim_ws(v@) =~= Seq::<char>::empty());
        return Outcome::declined("nothing on this line");
    }
    assert(trim_ws(v@).len() > 0) by {
        let t = trim_end_ws(v@);
        if trim_start_ws(t).len() == 0 {
            assert(is_ws(t[t.len() - 1]));
        }
    }
    let text = toggle_line(&v, c);
    let col: u32 = if v.len() <= u32::MAX as usize {
        v.len() as u32
    } else {
        u32::MAX
    };
    let range = Range::new(Position::new(n, 0), Position::new(n, col));
    Outcome::did(one(Negai::Edit { buffer: b.id, edit: Edit { range, kind: EditKind::Replace { text } } }))
}

/// Run body `n` on snapshot `s` with arguments `args`.
pub fn run_native(n: NativeCommand, s: &Snapshot, args: &[String]) -> (o: Outcome)
    ensures
        native_outcome(n, *s, string_views(args@), o),
{
    match n {
        NativeCommand::Save => match s.active_buffer() {
            None => Outcome::declined("no active buffer"),
            Some(b) => Outcome::did(one(Negai::Save { buffer: b.id })),
        },
        NativeCommand::Undo => match s.active_buffer() {
            None => Outcome::declined("no active buffer"),
            Some(b) => Outcome::did(one(Negai::Undo { buffer: b.id })),
        },
        NativeCommand::Redo => match s.active_buffer() {
            None => Outcome::declined("no active buffer"),
            Some(b) => Outcome::did(one(Negai::Redo { buffer: b.id })),
        },
        NativeCommand::BufferDelete => match s.active_buffer() {
            None => Outcome::declined("no active buffer"),
            Some(b) => Outcome::did(one(Negai::CloseBuffer(b.id))),
        },
        NativeCommand::WriteAll => {
            let slips = collect_saves(&s.buffers);
            if slips.len() == 0 {
                Outcome::declined("no modified files")
            } else {
                Outcome::did(slips)
            }
        },
        NativeCommand::Info => info(s),
        NativeCommand::Quit => Outcome::did(one(Negai::Quit)),
        NativeCommand::QuitChecked { all } => quit_checked(s, all),
        NativeCommand::WriteQuit => match s.active_buffer() {
            None => Outcome::declined("no active buffer"),
            Some(b) => if b.path.is_none() {
                Outcome::declined("E32: No file name")
            } else {
                Outcome::did(two(Negai::Save { buffer: b.id }, Negai::Quit))
            },
        },
        NativeCommand::ExitWrite => match s.active_buffer() {
            None => Outcome::declined("no active buffer"),
            Some(b) => if !b.modified {
                Outcome::did(one(Negai::Quit))
            } else if b.path.is_none() {
                Outcome::declined("E32: No file name")
            } else {
                Outcome::did(two(Negai::Save { buffer: b.id }, Negai::Quit))
            },
        },
        NativeCommand::WriteQuitAll => {
            let mut slips = collect_saves(&s.buffers);
            slips.push(Negai::Quit);
            Outcome::did(slips)
        },
        NativeCommand::BufferNext => Outcome::did(one(Negai::CycleBuffer { forward: true })),
        NativeCommand::BufferPrev => Outcome::did(one(Negai::CycleBuffer { forward: false })),
        NativeCommand::OpenPicker { commands } => Outcome::did(
            one(
                Negai::OpenPicker(
                    if commands {
                        PickerSource::Commands
                    } else {
                        PickerSource::Buffers
                    },
                ),
            ),
        ),
        NativeCommand::HelpPicker => Outcome::did(one(Negai::OpenPicker(PickerSource::Help))),
        NativeCommand::GrepPicker => {
            let pattern = join_args(args);
            if pattern.unicode_len() == 0 {
                Outcome::declined("grep: give a pattern — `:picker.grep <pattern>`")
            } else {
                Outcome::did(one(Negai::GrepProject { pattern }))
            }
        },
        NativeCommand::WalkPicker { project } => Outcome::did(
            one(
                Negai::OpenPicker(
                    if project {
                        PickerSource::Project
                    } else {
                        PickerSource::Files
                    },
                ),
            ),
        ),
        NativeCommand::ParentPicker => {
            let root = match &s.cwd_parent {
                Some(p) => owned(p.as_str()),
                None => owned(".."),
            };
            Outcome::did(one(Negai::OpenPicker(PickerSource::FilesUnder(root))))
        },
        NativeCommand::FindingsPicker { workspace } => Outcome::did(
            one(Negai::OpenPicker(PickerSource::Findings { workspace })),
        ),
        NativeCommand::SplitWindow { stacked } => Outcome::did(one(Negai::SplitWindow { stacked })),
        NativeCommand::CloseWindow => Outcome::did(one(Negai::CloseWindow)),
        NativeCommand::FocusDir { dx, dy } => Outcome::did(one(Negai::FocusDir { dx, dy })),
        NativeCommand::ConflictWalk { forward } => walk(
            s,
            "conflict",
            &s.conflicts,
            forward,
            "no merge conflicts in this buffer",
        ),
        NativeCommand::TodoWalk { forward } => walk(s, "todo", &s.todos, forward, "no TODO markers in this buffer"),
        NativeCommand::ChooseSide { side } => choose_side(s, side),
        NativeCommand::CommentToggle => comment_toggle(s),
        NativeCommand::Noh => Outcome::did(one(Negai::ClearSearchHighlight)),
    }
}

/// The lines a conflict spans: from its first line up to the line after it.
pub open spec fn conflict_region(c: ConflictHere) -> Range {
    Range { start: Position { line: c.from, column: 0 }, end: Position { line: c.to, column: 0 } }
}

/// The first slip of `o` replaces `region` of buffer `id` with `text`.
pub open spec fn replaces_with(o: Outcome, id: BufferId, region: Range, text: Seq<char>) -> bool {
    &&& o.slips@.len() >= 1
    &&& o.slips@[0] matches Negai::Edit { buffer: x, edit: e }
    &&& x == id
    &&& e.range == region
    &&& e.kind matches EditKind::Replace { text: t }
    &&& t@ == text
}

/// Choosing a side of the conflict under the cursor replaces the whole
/// conflict region with that side's text: ours for `Ours`, theirs for
/// `Theirs`, both for `Both`; then the cursor goes to the region's first
/// line.
pub proof fn lemma_choose_side_takes_that_side(
    s: Snapshot,
    side: Side,
    args: Seq<Seq<char>>,
    o: Outcome,
    b: BufferFacts,
    c: ConflictHere,
)
    requires
        native_outcome(NativeCommand::ChooseSide { side }, s, args, o),
        s.spec_active() == Some(b),
        s.conflict_here == Some(c),
    ensures
        (o.verdict is Did),
        o.slips@.len() == 2,
        side == Side::Ours ==> replaces_with(o, b.id, conflict_region(c), c.ours@),
        side == Side::Theirs ==> replaces_with(o, b.id, conflict_region(c), c.theirs@),
        side == Side::Both ==> replaces_with(o, b.id, conflict_region(c), c.both@),
        o.slips@[1] == (Negai::SetCursor { buffer: b.id, to: conflict_region(c).start }),
{
}

} // verus!
