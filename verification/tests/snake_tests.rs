use snake_core::snake::{Block, Direction, Snake};

#[test]
fn opposite_is_an_involution() {
    let dirs = [Direction::Up, Direction::Down, Direction::Left, Direction::Right];
    for d in dirs {
        assert_eq!(d.opposite().opposite(), d);
    }
    assert_eq!(Direction::Up.opposite(), Direction::Down);
    assert_eq!(Direction::Left.opposite(), Direction::Right);
}

#[test]
fn new_snake_has_three_segments_head_first_facing_right() {
    let s = Snake::new(4, 5);
    assert_eq!(s.length(), 3);
    assert_eq!(s.head_position(), (4, 5));
    assert_eq!(s.head_direction(), Direction::Right);
    assert_eq!(s.body[0], Block { x: 4, y: 5 });
    assert_eq!(s.body[1], Block { x: 3, y: 5 });
    assert_eq!(s.body[2], Block { x: 2, y: 5 });
    assert!(s.tail.is_none());
}

#[test]
fn move_forward_preserves_length_and_shifts_head() {
    let mut s = Snake::new(4, 5);
    s.move_forward(None);
    assert_eq!(s.length(), 3);
    assert_eq!(s.head_position(), (5, 5));
    assert_eq!(s.tail, Some(Block { x: 2, y: 5 }));

    s.move_forward(Some(Direction::Down));
    assert_eq!(s.length(), 3);
    assert_eq!(s.head_position(), (5, 6));
    assert_eq!(s.head_direction(), Direction::Down);
    assert_eq!(s.tail, Some(Block { x: 3, y: 5 }));
}

#[test]
fn restore_after_move_grows_by_exactly_one() {
    let mut s = Snake::new(4, 5);
    s.move_forward(None);
    assert_eq!(s.length(), 3);
    s.restore_last_removed();
    assert_eq!(s.length(), 4);
    assert_eq!(s.body[3], Block { x: 2, y: 5 });
}

#[test]
fn next_head_position_uses_requested_direction_without_moving() {
    let s = Snake::new(4, 5);
    assert_eq!(s.next_head_position(None), (5, 5));
    assert_eq!(s.next_head_position(Some(Direction::Up)), (4, 4));
    assert_eq!(s.next_head_position(Some(Direction::Down)), (4, 6));
    assert_eq!(s.next_head_position(Some(Direction::Left)), (3, 5));
    assert_eq!(s.head_position(), (4, 5));
    assert_eq!(s.head_direction(), Direction::Right);
}

#[test]
fn overlap_query_sees_all_segments_but_the_tail() {
    let s = Snake::new(4, 5);
    assert!(s.is_overlap_except_tail(4, 5));
    assert!(s.is_overlap_except_tail(3, 5));
    assert!(!s.is_overlap_except_tail(2, 5));
    assert!(!s.is_overlap_except_tail(9, 9));
}
