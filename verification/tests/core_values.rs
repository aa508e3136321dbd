use escriba::id::{BufferId, CaretId, WindowId};
use escriba::mode::{CursorShape, Mode};
use escriba::motion::{Operator, TextObject};
use escriba::position::Position;
use escriba::range::Range;
use escriba::register::{Register, RegisterKind};
use escriba::selection::{Cursor, Cursors, Selection};

#[test]
fn default_is_normal() {
    assert_eq!(Mode::default(), Mode::Normal);
}

#[test]
fn classifiers() {
    assert!(Mode::Insert.is_insertish());
    assert!(Mode::Command.is_insertish());
    assert!(!Mode::Normal.is_insertish());
    assert!(Mode::Visual.is_visualish());
    assert!(Mode::VisualLine.is_visualish());
}

#[test]
fn display_labels() {
    assert_eq!(Mode::Normal.as_str(), "NORMAL");
    assert_eq!(Mode::Insert.as_str(), "INSERT");
}

#[test]
fn cursor_shape_per_mode() {
    assert_eq!(Mode::Normal.cursor_shape(), CursorShape::Block);
    assert_eq!(Mode::Command.cursor_shape(), CursorShape::Block);
    assert_eq!(Mode::Insert.cursor_shape(), CursorShape::Bar);
    assert_eq!(Mode::Visual.cursor_shape(), CursorShape::Underline);
    assert_eq!(Mode::VisualLine.cursor_shape(), CursorShape::Underline);
}

#[test]
fn cursor_shape_labels() {
    assert_eq!(CursorShape::Block.as_str(), "block");
    assert_eq!(CursorShape::Bar.as_str(), "bar");
    assert_eq!(CursorShape::Underline.as_str(), "underline");
}

#[test]
fn insert_is_the_only_bar_mode() {
    let modes = [Mode::Normal, Mode::Insert, Mode::Visual, Mode::VisualLine, Mode::Command];
    let bars = modes.into_iter().filter(|m| m.cursor_shape() == CursorShape::Bar).count();
    assert_eq!(bars, 1);
}

#[test]
fn register_emitting_ops() {
    assert!(Operator::Delete.leaves_register());
    assert!(Operator::Yank.leaves_register());
    assert!(Operator::Change.leaves_register());
    assert!(!Operator::Format.leaves_register());
}

#[test]
fn only_the_line_object_is_linewise() {
    assert_eq!(TextObject::Line.register_kind(), RegisterKind::Linewise);
    assert_eq!(TextObject::NextMatch.register_kind(), RegisterKind::Charwise);
    assert_eq!(TextObject::Word { around: true }.register_kind(), RegisterKind::Charwise);
    assert_eq!(
        TextObject::Delimited { open: '(', close: ')', around: false }.register_kind(),
        RegisterKind::Charwise
    );
}

#[test]
fn ord_by_line_then_column() {
    assert!(Position::new(0, 5) < Position::new(1, 0));
    assert!(Position::new(3, 2) < Position::new(3, 4));
    assert_eq!(Position::new(2, 0), Position::new(2, 0));
    assert!(Position::new(0, 5).lt(Position::new(1, 0)));
    assert!(Position::new(3, 2).le(Position::new(3, 2)));
}

#[test]
fn shift_saturates() {
    assert_eq!(Position::new(0, 0).shift_left(5), Position::new(0, 0));
    assert_eq!(Position::new(0, u32::MAX).shift_right(5), Position::new(0, u32::MAX));
}

#[test]
fn display_is_one_indexed() {
    assert_eq!(Position::new(0, 0).label(), "1:1");
    assert_eq!(Position::new(9, 3).label(), "10:4");
}

#[test]
fn contains_half_open() {
    let r = Range::new(Position::new(0, 0), Position::new(0, 5));
    assert!(r.contains(Position::new(0, 0)));
    assert!(r.contains(Position::new(0, 4)));
    assert!(!r.contains(Position::new(0, 5)));
}

#[test]
fn normalize_swaps_inverted() {
    let r = Range::new(Position::new(1, 4), Position::new(0, 2));
    let n = r.normalized();
    assert_eq!(n.start, Position::new(0, 2));
    assert_eq!(n.end, Position::new(1, 4));
}

#[test]
fn union_covers_both() {
    let a = Range::new(Position::new(0, 0), Position::new(0, 4));
    let b = Range::new(Position::new(1, 0), Position::new(1, 5));
    let u = a.union(b);
    assert_eq!(u.start, Position::new(0, 0));
    assert_eq!(u.end, Position::new(1, 5));
}

#[test]
fn a_linewise_replay_is_newline_terminated_even_when_the_capture_was_not() {
    assert_eq!(Register::linewise("foxtrot").replayed(2), "foxtrot\nfoxtrot\n");
}

#[test]
fn a_charwise_replay_is_verbatim() {
    assert_eq!(Register::charwise("ab").replayed(3), "ababab");
}

#[test]
fn a_zero_count_still_puts_once() {
    assert_eq!(Register::charwise("x").replayed(0), "x");
}

#[test]
fn a_linewise_capture_that_ends_in_a_newline_is_not_doubled() {
    assert_eq!(Register::linewise("a\n").replayed(2), "a\na\n");
    assert!(Register::linewise("a").is_linewise());
    assert!(!Register::charwise("a").is_linewise());
}

#[test]
fn caret_is_empty_range() {
    let c = Cursor::at(CaretId(0), Position::new(1, 3));
    assert!(c.is_caret());
    assert!(c.range().is_empty());
}

#[test]
fn extend_grows_but_anchor_stays() {
    let c = Cursor::at(CaretId(0), Position::new(0, 0));
    let grown = c.extend_to(Position::new(0, 5));
    assert_eq!(grown.anchor, Position::new(0, 0));
    assert_eq!(grown.head, Position::new(0, 5));
}

#[test]
fn collapse_makes_caret() {
    let c = Cursor::new(CaretId(0), Position::new(0, 0), Position::new(0, 5));
    let collapsed = c.collapse();
    assert!(collapsed.is_caret());
    assert_eq!(collapsed.head, Position::new(0, 5));
}

#[test]
fn primary_is_first_by_default() {
    let s = Selection::single(Cursor::at(CaretId(0), Position::new(3, 2)));
    assert_eq!(s.primary().head, Position::new(3, 2));
}

#[test]
fn cursors_single_round_trips_position() {
    let c = Cursors::single(Position::new(2, 5));
    assert_eq!(c.primary(), Position::new(2, 5));
    assert_eq!(c.count(), 1);
}

#[test]
fn cursors_set_primary_is_the_write_path() {
    let mut c = Cursors::default();
    assert_eq!(c.primary(), Position::zero());
    c.set_primary(Position::new(4, 1));
    assert_eq!(c.primary(), Position::new(4, 1));
}

#[test]
fn cursors_map_primary_transforms_in_place() {
    let mut c = Cursors::single(Position::new(1, 1));
    c.map_primary(|p| Position::new(p.line + 1, p.column + 2));
    assert_eq!(c.primary(), Position::new(2, 3));
}

#[test]
fn cursors_from_position() {
    let c: Cursors = Position::new(7, 7).into();
    assert_eq!(c.primary(), Position::new(7, 7));
}

#[test]
fn selection_add_and_map_all() {
    let mut s = Selection::single(Cursor::at(CaretId(0), Position::new(0, 0)));
    s.add(Cursor::at(CaretId(1), Position::new(2, 0)));
    assert_eq!(s.carets().len(), 2);
    s.map_all(|c| c.extend_to(Position::new(c.head.line, 4)));
    assert_eq!(s.carets()[1].head, Position::new(2, 4));
    assert_eq!(s.primary().anchor, Position::new(0, 0));
}

#[test]
fn display_format() {
    assert_eq!(BufferId(42).label(), "BufferId#42");
    assert_eq!(WindowId(1).label(), "WindowId#1");
    assert_eq!(CaretId(0).label(), "CaretId#0");
}

#[test]
fn ids_are_newtypes() {
    let a = BufferId(1);
    let b = BufferId(1);
    assert_eq!(a, b);
}
