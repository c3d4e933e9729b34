//! Assembling the candidate window set: orient the inventory so that
//! windows that can obscure come later, keep the windows present and
//! visible on the target desktop, and drop the ones the occlusion
//! heuristic judges obscured.

use vstd::prelude::*;
use crate::window::{on_desktop, window_is_in_desktop, WindowSnapshot};
use crate::occlusion::{find_obscured, obscured_ids};

verus! {

/// A window survives the visibility filters when it is present on the
/// target desktop (or sticky), not hidden, and mapped on screen.
pub open spec fn keep_window(w: WindowSnapshot, desktop: u32) -> bool {
    on_desktop(w, desktop) && !w.hidden && w.viewable
}

/// The inventory oriented for the occlusion scan and reduced to the
/// windows visible on `desktop`: the inventory is reversed, so that a
/// window's potential coverers follow it, and filtered.
pub open spec fn visible_windows(inventory: Seq<WindowSnapshot>, desktop: u32) -> Seq<
    WindowSnapshot,
> {
    inventory.reverse().filter(|w: WindowSnapshot| keep_window(w, desktop))
}

/// The candidate set: the visible windows minus those whose
/// identifier the occlusion heuristic marks as obscured.
pub open spec fn candidate_windows(inventory: Seq<WindowSnapshot>, desktop: u32) -> Seq<
    WindowSnapshot,
> {
    let vis = visible_windows(inventory, desktop);
    vis.filter(|w: WindowSnapshot| !obscured_ids(vis).contains(w.id))
}

/// No two windows of `s` share an identifier.
pub open spec fn distinct_ids(s: Seq<WindowSnapshot>) -> bool {
    forall|i: int, j: int| 0 <= i < j < s.len() ==> s[i].id != s[j].id
}

/// Every element of a filtered sequence is an element of the base
/// sequence.
proof fn lemma_filter_elem_of(s: Seq<WindowSnapshot>, pred: spec_fn(WindowSnapshot) -> bool, i: int)
    requires
        0 <= i < s.filter(pred).len(),
    ensures
        s.contains(s.filter(pred)[i]),
    decreases s.len(),
{
    reveal(Seq::filter);
    if s.len() > 0 {
        let d = s.drop_last();
        if i < d.filter(pred).len() {
            lemma_filter_elem_of(d, pred, i);
            let k = choose|k: int| 0 <= k < d.len() && d[k] == s.filter(pred)[i];
            assert(s[k] == s.filter(pred)[i]);
        } else {
            assert(s[s.len() - 1] == s.filter(pred)[i]);
        }
    }
}

/// Filtering a sequence of pairwise-distinct identifiers leaves the
/// identifiers pairwise distinct.
proof fn lemma_filter_distinct(s: Seq<WindowSnapshot>, pred: spec_fn(WindowSnapshot) -> bool)
    requires
        distinct_ids(s),
    ensures
        distinct_ids(s.filter(pred)),
    decreases s.len(),
{
    reveal(Seq::filter);
    if s.len() > 0 {
        let d = s.drop_last();
        assert(distinct_ids(d)) by {
            assert(forall|i: int| 0 <= i < d.len() ==> d[i] == s[i]);
        }
        lemma_filter_distinct(d, pred);
        let f = s.filter(pred);
        assert forall|i: int, j: int| 0 <= i < j < f.len() implies f[i].id != f[j].id by {
            if j < d.filter(pred).len() {
                assert(d.filter(pred)[i].id != d.filter(pred)[j].id);
            } else {
                assert(f[j] == s.last());
                lemma_filter_elem_of(d, pred, i);
                let k = choose|k: int| 0 <= k < d.len() && d[k] == f[i];
                assert(s[k] == f[i]);
                assert(s[k].id != s[s.len() - 1].id);
            }
        }
    }
}

/// The candidate set is free of duplicates: when no two windows of
/// the inventory share an identifier, no two candidates do either.
pub proof fn lemma_candidates_distinct(inventory: Seq<WindowSnapshot>, desktop: u32)
    requires
        distinct_ids(inventory),
    ensures
        distinct_ids(candidate_windows(inventory, desktop)),
{
    let rev = inventory.reverse();
    assert(distinct_ids(rev)) by {
        assert(forall|i: int|
            0 <= i < rev.len() ==> rev[i] == inventory[inventory.len() - 1 - i]);
    }
    let vis = visible_windows(inventory, desktop);
    lemma_filter_distinct(rev, |w: WindowSnapshot| keep_window(w, desktop));
    lemma_filter_distinct(vis, |w: WindowSnapshot| !obscured_ids(vis).contains(w.id));
}

/// The visibility filters are exact: a viewable, non-hidden window
/// present on the target desktop survives them, and every survivor is
/// such a window — so a hidden or unmapped window is excluded
/// whatever its geometry.
pub proof fn lemma_visible_windows_keep(inventory: Seq<WindowSnapshot>, desktop: u32)
    ensures
        forall|j: int|
            0 <= j < visible_windows(inventory, desktop).len() ==> keep_window(
                #[trigger] visible_windows(inventory, desktop)[j],
                desktop,
            ),
        forall|i: int|
            0 <= i < inventory.len() && keep_window(#[trigger] inventory[i], desktop)
                ==> visible_windows(inventory, desktop).contains(inventory[i]),
{
    let rev = inventory.reverse();
    let pred = |w: WindowSnapshot| keep_window(w, desktop);
    assert forall|j: int| 0 <= j < visible_windows(inventory, desktop).len() implies keep_window(
        visible_windows(inventory, desktop)[j],
        desktop,
    ) by {
        rev.lemma_filter_pred(pred, j);
    }
    assert forall|i: int|
        0 <= i < inventory.len() && keep_window(inventory[i], desktop) implies visible_windows(
        inventory,
        desktop,
    ).contains(inventory[i]) by {
        assert(rev[inventory.len() - 1 - i] == inventory[i]);
        rev.lemma_filter_contains(pred, inventory.len() - 1 - i);
    }
}

/// Whether `ids` holds `x`.
fn contains_id(ids: &Vec<u32>, x: u32) -> (r: bool)
    ensures
        r == ids@.contains(x),
{
    let n = ids.len();
    let mut i: usize = 0;
    while i < n
        invariant
            n == ids@.len(),
            0 <= i <= n,
            forall|j: int| 0 <= j < i ==> ids@[j] != x,
        decreases n - i,
    {
        if ids[i] == x {
            proof {
                assert(ids@[i as int] == x);
            }
            return true;
        }
        i += 1;
    }
    false
}

/// Builds the candidate window set for one focus-change operation.
///
/// `inventory` is the raw window snapshot in the order the window
/// manager enumerates it, bottom-most first.  The result keeps only
/// windows that are on `target_desktop` or sticky, not hidden, and
/// viewable, with the ones judged obscured removed; an empty result is
/// a valid outcome.
pub fn build(inventory: &Vec<WindowSnapshot>, target_desktop: u32) -> (r: Vec<WindowSnapshot>)
    ensures
        r@ == candidate_windows(inventory@, target_desktop),
        forall|k: int| 0 <= k < r@.len() ==> keep_window(#[trigger] r@[k], target_desktop),
{
    let n = inventory.len();

    let mut oriented: Vec<WindowSnapshot> = Vec::new();
    let mut i: usize = 0;
    while i < n
        invariant
            n == inventory@.len(),
            0 <= i <= n,
            oriented@.len() == i,
            forall|j: int| 0 <= j < i ==> oriented@[j] == inventory@[n - 1 - j],
        decreases n - i,
    {
        oriented.push(inventory[n - 1 - i]);
        i += 1;
    }
    proof {
        assert(oriented@ =~= inventory@.reverse());
    }

    let ghost keep_pred = |w: WindowSnapshot| keep_window(w, target_desktop);
    let mut vis: Vec<WindowSnapshot> = Vec::new();
    let mut k: usize = 0;
    proof {
        reveal(Seq::filter);
        assert(oriented@.subrange(0, 0) =~= Seq::<WindowSnapshot>::empty());
    }
    while k < n
        invariant
            n == oriented@.len(),
            0 <= k <= n,
            vis@ == oriented@.subrange(0, k as int).filter(keep_pred),
            keep_pred == (|w: WindowSnapshot| keep_window(w, target_desktop)),
            forall|j: int| 0 <= j < vis@.len() ==> keep_window(#[trigger] vis@[j], target_desktop),
        decreases n - k,
    {
        let w = oriented[k];
        let keep = window_is_in_desktop(&w, target_desktop) && !w.hidden && w.viewable;
        proof {
            reveal(Seq::filter);
            assert(oriented@.subrange(0, k + 1).drop_last() =~= oriented@.subrange(0, k as int));
            assert(oriented@.subrange(0, k + 1).last() == w);
        }
        if keep {
            vis.push(w);
        }
        k += 1;
    }
    proof {
        assert(oriented@.subrange(0, n as int) =~= oriented@);
    }

    let obscured = find_obscured(&vis);
    let ghost visq = vis@;
    let ghost prune_pred = |w: WindowSnapshot| !obscured_ids(visq).contains(w.id);

    let m = vis.len();
    let mut r: Vec<WindowSnapshot> = Vec::new();
    let mut t: usize = 0;
    proof {
        reveal(Seq::filter);
        assert(visq.subrange(0, 0) =~= Seq::<WindowSnapshot>::empty());
    }
    while t < m
        invariant
            m == visq.len(),
            vis@ == visq,
            obscured@ == obscured_ids(visq),
            0 <= t <= m,
            r@ == visq.subrange(0, t as int).filter(prune_pred),
            prune_pred == (|w: WindowSnapshot| !obscured_ids(visq).contains(w.id)),
            forall|j: int| 0 <= j < visq.len() ==> keep_window(#[trigger] visq[j], target_desktop),
            forall|j: int| 0 <= j < r@.len() ==> keep_window(#[trigger] r@[j], target_desktop),
        decreases m - t,
    {
        let w = vis[t];
        let drop = contains_id(&obscured, w.id);
        proof {
            reveal(Seq::filter);
            assert(visq.subrange(0, t + 1).drop_last() =~= visq.subrange(0, t as int));
            assert(visq.subrange(0, t + 1).last() == w);
        }
        if !drop {
            r.push(w);
        }
        t += 1;
    }
    proof {
        assert(visq.subrange(0, m as int) =~= visq);
    }
    r
}

} // verus!
