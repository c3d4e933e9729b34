use winfocus::geometry::Rect;
use winfocus::occlusion::find_obscured;
use winfocus::window::WindowSnapshot;

fn win(id: u32, x: i32, y: i32, width: u32, height: u32) -> WindowSnapshot {
    WindowSnapshot {
        id,
        desktop: 0,
        sticky: false,
        hidden: false,
        viewable: true,
        rect: Rect { x, y, width, height },
    }
}

#[test]
fn window_covered_beyond_threshold_is_obscured() {
    // Scan order top-to-bottom: the 100x20 strip alone covers 2000 of
    // the first window's 10000 area, past the 15% threshold (1500),
    // so the scan stops there and the 10x10 window is never reached.
    let a = win(1, 0, 0, 100, 100);
    let b = win(2, 0, 0, 100, 20);
    let c = win(3, 0, 0, 10, 10);
    let obscured = find_obscured(&vec![a, b, c]);
    assert_eq!(obscured, vec![1]);
}

#[test]
fn coverage_at_exactly_the_threshold_is_not_obscured() {
    // 15 of 100: not strictly above 15%.
    let a = win(1, 0, 0, 10, 10);
    let b = win(2, 0, 0, 5, 3);
    assert_eq!(find_obscured(&vec![a, b]), Vec::<u32>::new());
}

#[test]
fn coverage_just_above_the_threshold_is_obscured() {
    // 16 of 100.
    let a = win(1, 0, 0, 10, 10);
    let b = win(2, 0, 0, 8, 2);
    assert_eq!(find_obscured(&vec![a, b]), vec![1]);
}

#[test]
fn overlaps_accumulate_without_deduplication() {
    // Two 8% covers of the very same spot: only 8% of the first
    // window is actually hidden, but the heuristic sums pairwise
    // overlaps without deduplicating, counts 16%, and marks it
    // obscured.  (The second strip is itself fully covered by the
    // identical third one.)
    let a = win(1, 0, 0, 10, 10);
    let b = win(2, 0, 0, 8, 1);
    let c = win(3, 0, 0, 8, 1);
    assert_eq!(find_obscured(&vec![a, b, c]), vec![1, 2]);
}

#[test]
fn earlier_windows_do_not_obscure_later_ones() {
    // The big window comes first in scan order: it cannot obscure the
    // small one behind it in the scan.
    let big = win(1, 0, 0, 100, 100);
    let small = win(2, 0, 0, 10, 10);
    assert_eq!(find_obscured(&vec![big, small]), Vec::<u32>::new());
}

#[test]
fn several_windows_can_be_obscured_at_once() {
    let a = win(1, 0, 0, 10, 10);
    let b = win(2, 0, 0, 10, 10);
    let c = win(3, 0, 0, 10, 10);
    assert_eq!(find_obscured(&vec![a, b, c]), vec![1, 2]);
}

#[test]
fn empty_inventory_has_no_obscured_windows() {
    assert_eq!(find_obscured(&Vec::new()), Vec::<u32>::new());
}

#[test]
fn zero_area_window_is_never_obscured() {
    // 15% of a zero area is zero: any positive overlap would exceed
    // it, but a zero-area window also overlaps nothing, so it stays.
    let a = win(1, 0, 0, 0, 0);
    let b = win(2, 0, 0, 10, 10);
    assert_eq!(find_obscured(&vec![a, b]), Vec::<u32>::new());
}
