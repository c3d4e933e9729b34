use winfocus::geometry::Rect;
use winfocus::selector::select;
use winfocus::window::{Direction, WindowSnapshot};

fn win(id: u32, x: i32, y: i32) -> WindowSnapshot {
    WindowSnapshot {
        id,
        desktop: 0,
        sticky: false,
        hidden: false,
        viewable: true,
        rect: Rect { x, y, width: 10, height: 10 },
    }
}

#[test]
fn left_picks_the_nearest_window_on_the_left() {
    let active = win(100, 50, 50);
    let far = win(1, 10, 50);
    let near = win(2, 30, 50);
    let r = select(Direction::Left, &active, &vec![far, near]);
    assert_eq!(r.map(|w| w.id), Some(2));
}

#[test]
fn right_picks_the_nearest_window_on_the_right() {
    let active = win(100, 50, 50);
    let near = win(1, 70, 50);
    let far = win(2, 90, 50);
    let r = select(Direction::Right, &active, &vec![far, near]);
    assert_eq!(r.map(|w| w.id), Some(1));
}

#[test]
fn up_picks_the_nearest_window_above() {
    let active = win(100, 50, 50);
    let far = win(1, 50, 5);
    let near = win(2, 50, 20);
    let r = select(Direction::Up, &active, &vec![far, near]);
    assert_eq!(r.map(|w| w.id), Some(2));
}

#[test]
fn down_picks_the_nearest_window_below() {
    let active = win(100, 50, 50);
    let near = win(1, 50, 80);
    let far = win(2, 50, 95);
    let r = select(Direction::Down, &active, &vec![far, near]);
    assert_eq!(r.map(|w| w.id), Some(1));
}

#[test]
fn no_candidate_in_direction_yields_none() {
    // The active window is already the left-most.
    let active = win(100, 10, 50);
    let right_of_it = win(1, 30, 50);
    let r = select(Direction::Left, &active, &vec![right_of_it]);
    assert_eq!(r, None);
}

#[test]
fn empty_candidate_set_yields_none() {
    let active = win(100, 50, 50);
    assert_eq!(select(Direction::Right, &active, &Vec::new()), None);
}

#[test]
fn a_window_at_the_same_coordinate_is_not_in_any_direction() {
    // Strict inequalities: a candidate with the active window's own
    // anchor is picked by no direction.
    let active = win(100, 50, 50);
    let twin = win(1, 50, 50);
    for dir in [Direction::Left, Direction::Right, Direction::Up, Direction::Down] {
        assert_eq!(select(dir, &active, &vec![twin]), None);
    }
}

#[test]
fn exact_ties_keep_the_first_candidate_in_order() {
    let active = win(100, 50, 50);
    let first = win(1, 30, 10);
    let second = win(2, 30, 90);
    let r = select(Direction::Left, &active, &vec![first, second]);
    assert_eq!(r.map(|w| w.id), Some(1));
    let r = select(Direction::Left, &active, &vec![second, first]);
    assert_eq!(r.map(|w| w.id), Some(2));
}
