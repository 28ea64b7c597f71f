use beacon::SelectionState;

#[test]
fn starts_at_top_with_no_items() {
    let s = SelectionState::new();
    assert_eq!(s.index, 0);
    assert_eq!(s.bound, 0);
}

#[test]
fn move_down_wraps_to_top() {
    let mut s = SelectionState::new();
    s.clamp(3);
    s.move_down();
    s.move_down();
    assert_eq!(s.index, 2);
    s.move_down();
    assert_eq!(s.index, 0);
}

#[test]
fn move_up_wraps_to_bottom() {
    let mut s = SelectionState::new();
    s.clamp(3);
    assert_eq!(s.index, 0);
    s.move_up();
    assert_eq!(s.index, 2);
    s.move_up();
    assert_eq!(s.index, 1);
}

#[test]
fn navigation_is_noop_without_items() {
    let mut s = SelectionState::new();
    s.move_down();
    assert_eq!(s.index, 0);
    s.move_up();
    assert_eq!(s.index, 0);
}

#[test]
fn clamp_pulls_cursor_back_in_range() {
    let mut s = SelectionState::new();
    s.clamp(5);
    s.move_down();
    s.move_down();
    s.move_down();
    s.move_down();
    assert_eq!(s.index, 4);
    s.clamp(2);
    assert_eq!(s.index, 1);
    s.clamp(0);
    assert_eq!(s.index, 0);
}

#[test]
fn reset_returns_to_top() {
    let mut s = SelectionState::new();
    s.clamp(4);
    s.move_down();
    s.move_down();
    s.reset();
    assert_eq!(s.index, 0);
    assert_eq!(s.bound, 4);
}
