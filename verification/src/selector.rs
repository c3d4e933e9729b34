//! Nearest-neighbor directional selection: among the candidates that
//! lie strictly in the requested direction of the active window's
//! top-left corner, pick the one whose anchor coordinate is closest.
//!
//! Only the top-left corner is compared, not the window's center; a
//! window diagonal to the active one can therefore be picked on
//! either axis.  That is a stated simplification.  The positional
//! filters are strict inequalities, so the active window can never be
//! selected as its own neighbor.

use vstd::prelude::*;
use crate::window::{Direction, WindowSnapshot};
use crate::builder::{build, candidate_windows};

verus! {

/// A candidate lies in the requested direction of the active window:
/// strictly to its left, right, above, or below, comparing top-left
/// corners.
pub open spec fn in_direction(dir: Direction, active: WindowSnapshot, w: WindowSnapshot) -> bool {
    match dir {
        Direction::Left => w.rect.x < active.rect.x,
        Direction::Right => w.rect.x > active.rect.x,
        Direction::Up => w.rect.y < active.rect.y,
        Direction::Down => w.rect.y > active.rect.y,
    }
}

/// Candidate `a` is strictly closer to the active window than `b`
/// along the direction's axis: for leftward and upward movement the
/// greater coordinate wins, for rightward and downward the smaller.
pub open spec fn closer(dir: Direction, a: WindowSnapshot, b: WindowSnapshot) -> bool {
    match dir {
        Direction::Left => a.rect.x > b.rect.x,
        Direction::Right => a.rect.x < b.rect.x,
        Direction::Up => a.rect.y > b.rect.y,
        Direction::Down => a.rect.y < b.rect.y,
    }
}

/// The selected neighbor: the first candidate, in candidate order,
/// whose anchor is closest among those lying in the requested
/// direction; `None` when no candidate lies there.  A later candidate
/// displaces an earlier one only when it is strictly closer.
pub open spec fn select_spec(
    dir: Direction,
    active: WindowSnapshot,
    candidates: Seq<WindowSnapshot>,
) -> Option<WindowSnapshot>
    decreases candidates.len(),
{
    if candidates.len() == 0 {
        None
    } else {
        let prev = select_spec(dir, active, candidates.drop_last());
        let w = candidates.last();
        if !in_direction(dir, active, w) {
            prev
        } else {
            match prev {
                None => Some(w),
                Some(b) => if closer(dir, w, b) {
                    Some(w)
                } else {
                    Some(b)
                },
            }
        }
    }
}

/// No candidate in the requested direction, no selection: the result
/// is `None` exactly when every candidate fails the direction's
/// positional filter.
pub proof fn lemma_select_none(dir: Direction, active: WindowSnapshot, s: Seq<WindowSnapshot>)
    ensures
        select_spec(dir, active, s) is None <==> (forall|i: int|
            0 <= i < s.len() ==> !in_direction(dir, active, #[trigger] s[i])),
    decreases s.len(),
{
    if s.len() > 0 {
        lemma_select_none(dir, active, s.drop_last());
        assert(forall|i: int| 0 <= i < s.len() - 1 ==> s.drop_last()[i] == #[trigger] s[i]);
    }
}

/// What a selection is: a candidate that lies in the requested
/// direction, with no other such candidate strictly closer.
pub proof fn lemma_select_nearest(dir: Direction, active: WindowSnapshot, s: Seq<WindowSnapshot>)
    ensures
        select_spec(dir, active, s) matches Some(w) ==> s.contains(w) && in_direction(
            dir,
            active,
            w,
        ) && (forall|i: int|
            0 <= i < s.len() && in_direction(dir, active, #[trigger] s[i]) ==> !closer(
                dir,
                s[i],
                w,
            )),
    decreases s.len(),
{
    if s.len() > 0 {
        lemma_select_nearest(dir, active, s.drop_last());
        assert(forall|i: int| 0 <= i < s.len() - 1 ==> s.drop_last()[i] == #[trigger] s[i]);
        assert forall|x: WindowSnapshot| s.drop_last().contains(x) implies s.contains(x) by {
            let i = choose|i: int| 0 <= i < s.drop_last().len() && s.drop_last()[i] == x;
            assert(s[i] == x);
        }
        assert(s.contains(s.last())) by {
            assert(s[s.len() - 1] == s.last());
        }
        let prev = select_spec(dir, active, s.drop_last());
        let last = s.last();
        match prev {
            None => {
                lemma_select_none(dir, active, s.drop_last());
            },
            Some(b) => {
                if in_direction(dir, active, last) && closer(dir, last, b) {
                    assert forall|i: int|
                        0 <= i < s.len() && in_direction(dir, active, #[trigger] s[i]) implies !closer(
                        dir,
                        s[i],
                        last,
                    ) by {
                        if i < s.len() - 1 {
                            assert(!closer(dir, s[i], b));
                        }
                    }
                }
            },
        }
    }
}

/// The selection is never the active window itself: the positional
/// filters are strict, so a selected window differs from the active
/// one in its anchor coordinate.
pub proof fn lemma_select_not_active(dir: Direction, active: WindowSnapshot, s: Seq<WindowSnapshot>)
    ensures
        select_spec(dir, active, s) matches Some(w) ==> w != active,
{
    lemma_select_nearest(dir, active, s);
}

/// Picks the focus target among `candidates` for one directional
/// move: the nearest candidate strictly in direction `dir` of
/// `active`'s top-left corner, or `None` when there is none — a valid
/// terminal outcome, not an error.
pub fn select(dir: Direction, active: &WindowSnapshot, candidates: &Vec<WindowSnapshot>) -> (r:
    Option<WindowSnapshot>)
    ensures
        r == select_spec(dir, *active, candidates@),
{
    let mut best: Option<WindowSnapshot> = None;
    let n = candidates.len();
    let mut i: usize = 0;
    proof {
        assert(candidates@.subrange(0, 0) =~= Seq::<WindowSnapshot>::empty());
    }
    while i < n
        invariant
            n == candidates@.len(),
            0 <= i <= n,
            best == select_spec(dir, *active, candidates@.subrange(0, i as int)),
        decreases n - i,
    {
        let w = candidates[i];
        let passes = match dir {
            Direction::Left => w.rect.x < active.rect.x,
            Direction::Right => w.rect.x > active.rect.x,
            Direction::Up => w.rect.y < active.rect.y,
            Direction::Down => w.rect.y > active.rect.y,
        };
        proof {
            assert(candidates@.subrange(0, i + 1).drop_last() =~= candidates@.subrange(
                0,
                i as int,
            ));
            assert(candidates@.subrange(0, i + 1).last() == w);
        }
        if passes {
            best = match best {
                None => Some(w),
                Some(b) => {
                    let displaces = match dir {
                        Direction::Left => w.rect.x > b.rect.x,
                        Direction::Right => w.rect.x < b.rect.x,
                        Direction::Up => w.rect.y > b.rect.y,
                        Direction::Down => w.rect.y < b.rect.y,
                    };
                    if displaces {
                        Some(w)
                    } else {
                        Some(b)
                    }
                },
            };
        }
        i += 1;
    }
    proof {
        assert(candidates@.subrange(0, n as int) =~= candidates@);
    }
    best
}

/// One whole focus decision over a raw inventory: assemble the
/// candidate set for the target desktop and pick the directional
/// neighbor of the active window.  Pure selection — dispatching the
/// focus change is the caller's business.
pub fn next_window(
    dir: Direction,
    active: &WindowSnapshot,
    inventory: &Vec<WindowSnapshot>,
    target_desktop: u32,
) -> (r: Option<WindowSnapshot>)
    ensures
        r == select_spec(dir, *active, candidate_windows(inventory@, target_desktop)),
{
    let candidates = build(inventory, target_desktop);
    select(dir, active, &candidates)
}

} // verus!
