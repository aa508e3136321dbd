use escriba::id::BufferId;
use escriba::jumplist::{JumpList, Spot, JUMPLIST_LIMIT};
use escriba::position::Position;

fn p(line: u32) -> Spot {
    Spot::new(BufferId(1), Position::new(line, 0))
}

fn q(line: u32) -> Spot {
    Spot::new(BufferId(2), Position::new(line, 0))
}

#[test]
fn an_empty_list_has_nowhere_to_go() {
    let mut j = JumpList::new();
    assert_eq!(j.back(p(5)), None);
    assert_eq!(j.forward(), None);
    assert!(j.is_empty());
}

#[test]
fn back_returns_to_where_the_jump_was_taken_from() {
    let mut j = JumpList::new();
    j.push(p(3));
    assert_eq!(j.back(p(40)), Some(p(3)), "<C-o> returns to the origin");
}

#[test]
fn forward_returns_to_where_back_was_pressed_from() {
    let mut j = JumpList::new();
    j.push(p(3));
    assert_eq!(j.back(p(40)), Some(p(3)));
    assert_eq!(j.forward(), Some(p(40)), "<C-i> comes back to where I was");
}

#[test]
fn walking_back_twice_visits_both_origins_newest_first() {
    let mut j = JumpList::new();
    j.push(p(1));
    j.push(p(10));
    assert_eq!(j.back(p(50)), Some(p(10)));
    assert_eq!(j.back(p(10)), Some(p(1)));
    assert_eq!(j.back(p(1)), None, "nothing older than the first jump");
}

#[test]
fn a_new_jump_abandons_the_forward_history() {
    let mut j = JumpList::new();
    j.push(p(1));
    j.push(p(10));
    j.back(p(50));
    j.push(p(20));
    assert_eq!(j.forward(), None, "the abandoned future must be gone");
    assert_eq!(j.back(p(99)), Some(p(20)), "the new branch is what we return to");
}

#[test]
fn consecutive_jumps_from_one_line_collapse() {
    let mut j = JumpList::new();
    j.push(Spot::new(BufferId(1), Position::new(7, 0)));
    j.push(Spot::new(BufferId(1), Position::new(7, 20)));
    j.push(Spot::new(BufferId(1), Position::new(7, 40)));
    assert_eq!(j.len(), 1, "one entry for the line, got {:?}", j.entries());
}

#[test]
fn jumps_from_different_lines_all_survive() {
    let mut j = JumpList::new();
    j.push(p(1));
    j.push(p(2));
    j.push(p(3));
    assert_eq!(j.len(), 3);
}

#[test]
fn the_list_is_bounded_and_drops_the_oldest() {
    let mut j = JumpList::new();
    let limit: u32 = u32::try_from(JUMPLIST_LIMIT).unwrap();
    for line in 0..(limit + 25) {
        j.push(p(line));
    }
    assert_eq!(j.len(), JUMPLIST_LIMIT, "bounded");
    assert_eq!(j.entries().first().copied(), Some(p(25)), "the oldest entries are the ones dropped");
}

#[test]
fn back_from_the_same_line_does_not_duplicate_it() {
    let mut j = JumpList::new();
    j.push(p(3));
    j.back(p(3));
    assert_eq!(j.len(), 1, "no duplicate entry for one line: {:?}", j.entries());
}

#[test]
fn forward_past_the_newest_end_is_none() {
    let mut j = JumpList::new();
    j.push(p(1));
    j.back(p(9));
    assert_eq!(j.forward(), Some(p(9)));
    assert_eq!(j.forward(), None, "cannot walk past where I started");
}

#[test]
fn the_same_line_in_a_different_buffer_does_not_collapse() {
    let mut j = JumpList::new();
    j.push(p(7));
    j.push(q(7));
    assert_eq!(j.entries().len(), 2, "line 7 of two different buffers is two places: {:?}", j.entries());
}

#[test]
fn walking_back_returns_the_buffer_too() {
    let mut j = JumpList::new();
    j.push(p(3));
    let back = j.back(q(9)).expect("something older");
    assert_eq!(back.buffer, BufferId(1), "must return the buffer we left");
    assert_eq!(back.pos.line, 3);
}

#[test]
fn back_then_forward_then_back_is_stable() {
    let mut j = JumpList::new();
    j.push(p(1));
    j.push(p(2));
    assert_eq!(j.back(p(5)), Some(p(2)));
    assert_eq!(j.forward(), Some(p(5)));
    assert_eq!(j.back(p(5)), Some(p(2)));
    assert!(Spot::new(BufferId(1), Position::new(2, 9)).same_line(&p(2)));
}

#[test]
fn no_two_neighbouring_entries_share_a_line() {
    let mut j = JumpList::new();
    for line in [1, 1, 2, 2, 2, 3, 1, 1, 4] {
        j.push(p(line));
    }
    let _ = j.back(p(4));
    let _ = j.back(p(9));
    j.push(p(3));
    j.push(p(3));
    let es = j.entries();
    for w in es.windows(2) {
        assert!(!w[0].same_line(&w[1]), "{es:?}");
    }
}
