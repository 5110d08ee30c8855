use wpm::layout::move_to_wrap;

#[test]
fn wrap_positions_walk_lines() {
    assert_eq!(move_to_wrap(0, (4, 100)), (0, 0));
    assert_eq!(move_to_wrap(3, (4, 100)), (3, 0));
    assert_eq!(move_to_wrap(4, (4, 100)), (0, 1));
    assert_eq!(move_to_wrap(10, (4, 100)), (2, 2));
}
