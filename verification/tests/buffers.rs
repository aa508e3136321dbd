use escriba::buffer::{Buffer, BufferError};
use escriba::buffer_set::BufferSet;
use escriba::edit::Edit;
use escriba::id::BufferId;
use escriba::position::Position;
use escriba::range::Range;

fn buf(src: &str) -> Buffer {
    Buffer::from_str(BufferId(1), src)
}

#[test]
fn empty_has_one_line() {
    let b = Buffer::empty(BufferId(1));
    assert_eq!(b.line_count(), 1);
}

#[test]
fn line_counts() {
    let b = buf("a\nb\nc\n");
    assert_eq!(b.line_count(), 4);
}

#[test]
fn position_char_round_trip() {
    let b = buf("hello\nworld\n");
    let p = Position::new(1, 3);
    let c = b.position_to_char(p).unwrap();
    assert_eq!(b.char_to_position(c), p);
}

#[test]
fn insert_then_undo() {
    let mut b = buf("hello");
    let e = Edit::insert(Position::new(0, 5), " world");
    b.apply(&e).unwrap();
    assert_eq!(b.to_string(), "hello world");
    b.undo().unwrap();
    assert_eq!(b.to_string(), "hello");
}

#[test]
fn delete_then_redo() {
    let mut b = buf("hello world");
    let e = Edit::delete(Range::new(Position::new(0, 5), Position::new(0, 11)));
    b.apply(&e).unwrap();
    assert_eq!(b.to_string(), "hello");
    b.undo().unwrap();
    assert_eq!(b.to_string(), "hello world");
    b.redo().unwrap();
    assert_eq!(b.to_string(), "hello");
}

#[test]
fn replace_is_delete_plus_insert() {
    let mut b = buf("hello world");
    let e = Edit::replace(Range::new(Position::new(0, 6), Position::new(0, 11)), "tatara");
    b.apply(&e).unwrap();
    assert_eq!(b.to_string(), "hello tatara");
    b.undo().unwrap();
    assert_eq!(b.to_string(), "hello world");
}

#[test]
fn clamp_constrains_position() {
    let b = buf("ab\ncd");
    assert_eq!(b.line_count(), 2);
    assert_eq!(b.clamp(Position::new(0, 99)), Position::new(0, 2));
    assert_eq!(b.clamp(Position::new(99, 0)), Position::new(1, 0));
}

#[test]
fn slice_returns_text() {
    let b = buf("hello world");
    let s = b.slice(Range::new(Position::new(0, 6), Position::new(0, 11))).unwrap();
    assert_eq!(s, "world");
}

#[test]
fn save_round_trip() {
    let mut b = Buffer::from_str(BufferId(1), "hello\n");
    b.modified = true;
    b.path = Some("/tmp/demo.txt".into());
    let text = b.save_text().unwrap();
    b.mark_saved();
    assert!(!b.modified);
    let b2 = Buffer::from_file(BufferId(2), "/tmp/demo.txt", &text);
    assert_eq!(b2.to_string(), "hello\n");
    assert_eq!(b2.path.as_deref(), Some("/tmp/demo.txt"));
}

#[test]
fn saving_without_a_path_is_refused() {
    let b = Buffer::from_str(BufferId(1), "x");
    assert!(matches!(b.save_text(), Err(BufferError::NoPath)));
}

#[test]
fn nothing_to_undo_or_redo_is_an_error() {
    let mut b = buf("x");
    assert!(matches!(b.undo(), Err(BufferError::NothingToUndo)));
    assert!(matches!(b.redo(), Err(BufferError::NothingToRedo)));
}

#[test]
fn an_out_of_range_position_is_refused() {
    let b = buf("ab\ncd");
    assert!(matches!(
        b.position_to_char(Position::new(5, 0)),
        Err(BufferError::InvalidPosition { line: 5, column: 0, total_lines: 2 })
    ));
}

#[test]
fn buffer_set_tracks_ids() {
    let mut set = BufferSet::new();
    let a = set.scratch("one");
    let b = set.scratch("two");
    assert_ne!(a, b);
    assert_eq!(set.ids().len(), 2);
    assert_eq!(set.get(a).unwrap().to_string(), "one");
    assert!(set.has_ids_left());
}

#[test]
fn opening_the_same_path_twice_returns_the_same_buffer() {
    let mut set = BufferSet::new();
    let a = set.open_with("/tmp/same.txt", "hello\n");
    let b = set.open_with("/tmp/same.txt", "hello\n");
    assert_eq!(a, b, "the same file must not become two buffers");
    assert_eq!(set.ids().len(), 1, "and must not grow the set");
}

#[test]
fn edits_cannot_be_split_across_two_views_of_one_file() {
    let mut set = BufferSet::new();
    let first = set.open_with("/tmp/split.txt", "original\n");
    set.get_mut(first).expect("buffer").modified = true;
    let second = set.open_with("/tmp/split.txt", "original\n");
    assert!(set.get(second).expect("buffer").modified);
}

#[test]
fn distinct_files_still_get_distinct_buffers() {
    let mut set = BufferSet::new();
    let a = set.open_with("/tmp/one.txt", "1\n");
    let b = set.open_with("/tmp/two.txt", "2\n");
    assert_ne!(a, b, "two files must be two buffers");
    assert_eq!(set.ids().len(), 2);
}

#[test]
fn scratch_buffers_are_never_deduplicated() {
    let mut set = BufferSet::new();
    let a = set.scratch("a");
    let b = set.scratch("b");
    assert_ne!(a, b);
    assert_eq!(set.ids().len(), 2);
}

#[test]
fn find_by_path_reports_honestly() {
    let mut set = BufferSet::new();
    assert_eq!(set.find_by_path("/tmp/find.txt"), None, "nothing open yet");
    let id = set.open_with("/tmp/find.txt", "y\n");
    assert_eq!(set.find_by_path("/tmp/find.txt"), Some(id));
    assert_eq!(set.find_by_path("/tmp/absent.txt"), None);
}
