use snake::direction::Direction;
use snake::snake::Snake;

const ALL: [Direction; 4] = [Direction::Up, Direction::Down, Direction::Left, Direction::Right];

#[test]
fn opposite_is_an_involution_without_fixed_points() {
    for d in ALL {
        assert_eq!(d.opposite().opposite(), d);
        assert_ne!(d.opposite(), d);
    }
}

#[test]
fn opposite_pairs() {
    assert_eq!(Direction::Up.opposite(), Direction::Down);
    assert_eq!(Direction::Down.opposite(), Direction::Up);
    assert_eq!(Direction::Left.opposite(), Direction::Right);
    assert_eq!(Direction::Right.opposite(), Direction::Left);
}

#[test]
fn new_snake_shape() {
    let s = Snake::new(0, 0);
    assert_eq!(s.cells(), vec![(2, 0), (1, 0), (0, 0)]);
    assert_eq!(s.head_direction(), Direction::Right);
    assert_eq!(s.last_evicted(), None);
    assert_eq!(s.head_position(), (2, 0));
}

#[test]
fn new_snake_at_negative_origin() {
    let s = Snake::new(-4, -7);
    assert_eq!(s.cells(), vec![(-2, -7), (-3, -7), (-4, -7)]);
}

#[test]
fn move_without_override() {
    let mut s = Snake::new(0, 0);
    s.move_forward(None);
    assert_eq!(s.cells(), vec![(3, 0), (2, 0), (1, 0)]);
    assert_eq!(s.last_evicted(), Some((0, 0)));
    assert_eq!(s.head_direction(), Direction::Right);
    assert_eq!(s.cells().len(), 3);
}

#[test]
fn grow_after_move() {
    let mut s = Snake::new(0, 0);
    s.move_forward(None);
    s.restore_tail();
    assert_eq!(s.cells(), vec![(3, 0), (2, 0), (1, 0), (0, 0)]);
    assert_eq!(s.cells().len(), 4);
}

#[test]
fn move_with_override_up() {
    let mut s = Snake::new(0, 0);
    s.move_forward(None);
    assert_eq!(s.head_position(), (3, 0));
    s.move_forward(Some(Direction::Up));
    assert_eq!(s.head_position(), (3, -1));
    assert_eq!(s.head_direction(), Direction::Up);
    assert_eq!(s.last_evicted(), Some((1, 0)));
}

#[test]
fn each_direction_steps_one_cell() {
    let s = Snake::new(0, 0);
    assert_eq!(s.next_head(Some(Direction::Up)), (2, -1));
    assert_eq!(s.next_head(Some(Direction::Down)), (2, 1));
    assert_eq!(s.next_head(Some(Direction::Left)), (1, 0));
    assert_eq!(s.next_head(Some(Direction::Right)), (3, 0));
    assert_eq!(s.next_head(None), (3, 0));
}

#[test]
fn next_head_changes_nothing() {
    let s = Snake::new(0, 0);
    let first = s.next_head(Some(Direction::Down));
    for _ in 0..5 {
        assert_eq!(s.next_head(Some(Direction::Down)), first);
        assert_eq!(s.head_position(), (2, 0));
        assert_eq!(s.head_direction(), Direction::Right);
    }
    assert_eq!(s.cells(), vec![(2, 0), (1, 0), (0, 0)]);
}

#[test]
fn next_head_is_where_the_move_goes() {
    let mut s = Snake::new(10, 10);
    let peek = s.next_head(Some(Direction::Down));
    s.move_forward(Some(Direction::Down));
    assert_eq!(s.head_position(), peek);
}

#[test]
fn collision_skips_the_tail() {
    let s = Snake::new(3, 5);
    assert_eq!(s.cells(), vec![(5, 5), (4, 5), (3, 5)]);
    assert!(s.overlap_tail(4, 5));
    assert!(s.overlap_tail(5, 5));
    assert!(!s.overlap_tail(3, 5));
    assert!(!s.overlap_tail(9, 9));
}

#[test]
fn single_cell_collides_with_nothing() {
    let s = Snake::with_body(Direction::Left, &vec![(7, 8)]);
    assert_eq!(s.head_position(), (7, 8));
    assert!(!s.overlap_tail(7, 8));
    assert!(!s.overlap_tail(0, 0));
    assert!(!s.overlap_tail(6, 8));
}

#[test]
fn with_body_keeps_the_cells() {
    let s = Snake::with_body(Direction::Down, &vec![(1, 1), (1, 0), (0, 0), (0, 1)]);
    assert_eq!(s.cells(), vec![(1, 1), (1, 0), (0, 0), (0, 1)]);
    assert_eq!(s.head_direction(), Direction::Down);
    assert_eq!(s.last_evicted(), None);
    assert!(s.overlap_tail(0, 0));
    assert!(!s.overlap_tail(0, 1));
}

#[test]
fn drawn_cells_repeat_between_moves() {
    let mut s = Snake::new(0, 0);
    let a = s.cells();
    let b = s.cells();
    assert_eq!(a, b);
    s.move_forward(None);
    let c = s.cells();
    assert_ne!(a, c);
    assert_eq!(c, s.cells());
}

#[test]
fn grow_twice_repeats_the_evicted_cell() {
    let mut s = Snake::new(0, 0);
    s.move_forward(Some(Direction::Down));
    s.restore_tail();
    s.restore_tail();
    assert_eq!(s.cells(), vec![(2, 1), (2, 0), (1, 0), (0, 0), (0, 0)]);
    assert_eq!(s.last_evicted(), Some((0, 0)));
}

#[test]
fn head_reaches_the_largest_coordinate() {
    let mut s = Snake::new(i32::MAX - 3, 0);
    s.move_forward(None);
    assert_eq!(s.head_position(), (i32::MAX, 0));
}
