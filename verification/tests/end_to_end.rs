use winfocus::geometry::Rect;
use winfocus::selector::next_window;
use winfocus::window::{Direction, WindowSnapshot};

fn win(id: u32, x: i32, y: i32, width: u32, height: u32) -> WindowSnapshot {
    WindowSnapshot {
        id,
        desktop: 0,
        sticky: false,
        hidden: false,
        viewable: true,
        rect: Rect { x, y, width, height },
    }
}

#[test]
fn only_the_visible_window_to_the_right_is_selectable() {
    // Three windows on desktop 0: one hidden, one fully behind
    // another, one clearly visible to the right of the active window.
    let active = win(100, 50, 50, 10, 10);

    let visible_right = win(1, 150, 50, 100, 100);
    let behind = win(2, 160, 60, 10, 10);
    let mut hidden = win(3, 200, 50, 10, 10);
    hidden.hidden = true;

    // Bottom-most first: the covering window comes first so that it
    // follows the covered one in the occlusion scan.
    let inventory = vec![visible_right, behind, hidden];

    let r = next_window(Direction::Right, &active, &inventory, 0);
    assert_eq!(r.map(|w| w.id), Some(1));

    assert_eq!(next_window(Direction::Left, &active, &inventory, 0), None);
    assert_eq!(next_window(Direction::Up, &active, &inventory, 0), None);
    assert_eq!(next_window(Direction::Down, &active, &inventory, 0), None);
}

#[test]
fn windows_of_other_desktops_never_become_candidates() {
    let active = win(100, 50, 50, 10, 10);
    let mut elsewhere = win(1, 150, 50, 10, 10);
    elsewhere.desktop = 3;
    assert_eq!(next_window(Direction::Right, &active, &vec![elsewhere], 0), None);
    assert_eq!(next_window(Direction::Right, &active, &vec![elsewhere], 3).map(|w| w.id), Some(1));
}
