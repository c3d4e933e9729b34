//! The occlusion heuristic: a window is judged obscured when the
//! summed overlap with the windows after it in the scan order exceeds
//! 15% of its own area.
//!
//! The sum counts pairwise overlaps without deduplicating regions that
//! several windows cover at once, so it can over-report occlusion when
//! three or more windows pile up on the same spot.  That approximation
//! is deliberate and is kept as stated.

use vstd::prelude::*;
use crate::geometry::{overlap_area, overlap_area_spec, rect_area, lemma_overlap_area_nonneg, Rect};
use crate::window::WindowSnapshot;

verus! {

/// Summed overlap area between `r` and every window in `ws`, counting
/// a doubly covered region once per covering window.
pub open spec fn sum_overlap(r: Rect, ws: Seq<WindowSnapshot>) -> int
    decreases ws.len(),
{
    if ws.len() == 0 {
        0
    } else {
        overlap_area_spec(r, ws[0].rect) + sum_overlap(r, ws.drop_first())
    }
}

/// A window is obscured by the windows that follow it in the scan
/// order when their summed overlap exceeds 15% of its own area.
pub open spec fn obscured_by(w: WindowSnapshot, covering: Seq<WindowSnapshot>) -> bool {
    100 * sum_overlap(w.rect, covering) > 15 * rect_area(w.rect)
}

/// Identifiers of the obscured windows of `ws`, in scan order: window
/// `i` is compared against the windows after position `i`.
pub open spec fn obscured_ids(ws: Seq<WindowSnapshot>) -> Seq<u32>
    decreases ws.len(),
{
    if ws.len() == 0 {
        Seq::empty()
    } else {
        let rest = obscured_ids(ws.drop_first());
        if obscured_by(ws[0], ws.drop_first()) {
            seq![ws[0].id] + rest
        } else {
            rest
        }
    }
}

/// Extending the window sequence by one adds that window's overlap to
/// the sum.
pub proof fn lemma_sum_overlap_push(r: Rect, ws: Seq<WindowSnapshot>, w: WindowSnapshot)
    ensures
        sum_overlap(r, ws.push(w)) == sum_overlap(r, ws) + overlap_area_spec(r, w.rect),
    decreases ws.len(),
{
    if ws.len() == 0 {
        assert(ws.push(w).drop_first() =~= ws);
    } else {
        assert(ws.push(w).drop_first() =~= ws.drop_first().push(w));
        assert(ws.push(w)[0] == ws[0]);
        lemma_sum_overlap_push(r, ws.drop_first(), w);
    }
}

/// The sum over a prefix never exceeds the sum over the whole
/// sequence: every summand is non-negative.
pub proof fn lemma_sum_overlap_prefix(r: Rect, ws: Seq<WindowSnapshot>, k: int)
    requires
        0 <= k <= ws.len(),
    ensures
        sum_overlap(r, ws.subrange(0, k)) <= sum_overlap(r, ws),
    decreases ws.len() - k,
{
    if k == ws.len() {
        assert(ws.subrange(0, k) =~= ws);
    } else {
        assert(ws.subrange(0, k + 1) =~= ws.subrange(0, k).push(ws[k]));
        lemma_sum_overlap_push(r, ws.subrange(0, k), ws[k]);
        lemma_overlap_area_nonneg(r, ws[k].rect);
        lemma_sum_overlap_prefix(r, ws, k + 1);
    }
}

/// Identifiers of the windows judged obscured, scanning `windows` in
/// order: for each window the overlaps with the windows after it are
/// accumulated, and the scan of that window stops early as soon as
/// the accumulated area passes the threshold.  The early exit does not
/// change the outcome — overlaps are non-negative, so a partial sum
/// above the threshold means the full sum is above it too.
pub fn find_obscured(windows: &Vec<WindowSnapshot>) -> (obscured: Vec<u32>)
    ensures
        obscured@ == obscured_ids(windows@),
{
    let ghost all = windows@;
    let mut obscured: Vec<u32> = Vec::new();
    let n = windows.len();
    let mut i: usize = 0;
    proof {
        assert(all.skip(0) =~= all);
        assert(obscured@ + obscured_ids(all) =~= obscured_ids(all));
    }
    while i < n
        invariant
            n == all.len(),
            0 <= i <= n,
            windows@ == all,
            obscured@ + obscured_ids(all.skip(i as int)) == obscured_ids(all),
        decreases n - i,
    {
        let w = windows[i];
        proof {
            assert((w.rect.width as int) * (w.rect.height as int) <= (u32::MAX as int) * (
            u32::MAX as int)) by (nonlinear_arith)
                requires
                    0 <= w.rect.width <= u32::MAX,
                    0 <= w.rect.height <= u32::MAX,
            ;
        }
        let total_area: u64 = (w.rect.width as u64) * (w.rect.height as u64);
        let mut acc: u128 = 0;
        let mut covered = false;
        let mut j: usize = i + 1;
        while j < n && !covered
            invariant
                n == all.len(),
                windows@ == all,
                0 <= i < n,
                i + 1 <= j <= n,
                total_area == rect_area(w.rect),
                w == all[i as int],
                acc == sum_overlap(w.rect, all.subrange(i + 1, j as int)),
                covered == (100 * acc > 15 * (total_area as u128)),
                !covered ==> 100 * acc <= 15 * (total_area as u128),
            decreases n - j,
        {
            let ov = overlap_area(&windows[i].rect, &windows[j].rect);
            proof {
                assert(all.subrange(i + 1, j + 1) =~= all.subrange(i + 1, j as int).push(
                    all[j as int],
                ));
                lemma_sum_overlap_push(w.rect, all.subrange(i + 1, j as int), all[j as int]);
            }
            acc = acc + (ov as u128);
            j = j + 1;
            if 100 * acc > 15 * (total_area as u128) {
                covered = true;
            }
        }
        proof {
            let covering = all.skip(i + 1);
            assert(all.subrange(i + 1, j as int) =~= covering.subrange(0, j - i - 1));
            if covered {
                lemma_sum_overlap_prefix(w.rect, covering, j - i - 1);
                assert(obscured_by(w, covering));
            } else {
                assert(all.subrange(i + 1, j as int) =~= covering);
                assert(!obscured_by(w, covering));
            }
            assert(all.skip(i as int).drop_first() =~= covering);
            assert(all.skip(i as int)[0] == w);
        }
        if covered {
            obscured.push(w.id);
            proof {
                assert(obscured@ + obscured_ids(all.skip(i + 1)) == obscured_ids(all)) by {
                    assert(obscured@ =~= obscured@.drop_last().push(w.id));
                    assert(obscured_ids(all.skip(i as int)) == seq![w.id] + obscured_ids(
                        all.skip(i + 1),
                    ));
                    assert(obscured@.drop_last() + (seq![w.id] + obscured_ids(all.skip(i + 1)))
                        =~= obscured@ + obscured_ids(all.skip(i + 1)));
                }
            }
        } else {
            proof {
                assert(obscured_ids(all.skip(i as int)) == obscured_ids(all.skip(i + 1)));
            }
        }
        i = i + 1;
    }
    proof {
        assert(all.skip(n as int) =~= Seq::<WindowSnapshot>::empty());
        assert(obscured@ + obscured_ids(all.skip(n as int)) =~= obscured@);
    }
    obscured
}

} // verus!
