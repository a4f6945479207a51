//! The answer rule of cell lookup: when several cells contain a point,
//! the one with the lowest index wins, whatever order a bounding-volume
//! hierarchy visits its leaves in. The tree itself works on real
//! coordinates; this module holds the integer rule and its laws.
use vstd::prelude::*;

verus! {

/// The best match after a leaf for cell `idx` is found to contain the point.
pub open spec fn lower_match(best: Option<usize>, idx: usize) -> Option<usize> {
    match best {
        Some(b) => if idx < b { Some(idx) } else { Some(b) },
        None => Some(idx),
    }
}

/// The answer after visiting the matching cells `visits` in order,
/// starting from `best`.
pub open spec fn fold_matches(best: Option<usize>, visits: Seq<usize>) -> Option<usize>
    decreases visits.len(),
{
    if visits.len() == 0 {
        best
    } else {
        fold_matches(lower_match(best, visits[0]), visits.drop_first())
    }
}

/// Whether a leaf for cell `idx` can still change the answer `best`
/// (a leaf at or above the best index found so far is skipped).
pub fn leaf_can_improve(best: Option<usize>, idx: usize) -> (b: bool)
    ensures
        b == match best {
            Some(m) => idx < m,
            None => true,
        },
{
    match best {
        Some(m) => idx < m,
        None => true,
    }
}

/// Record that the leaf for cell `idx` contains the point.
pub fn record_match(best: Option<usize>, idx: usize) -> (r: Option<usize>)
    ensures
        r == lower_match(best, idx),
{
    match best {
        Some(b) => if idx < b { Some(idx) } else { Some(b) },
        None => Some(idx),
    }
}

proof fn lemma_fold_is_minimum(best: Option<usize>, visits: Seq<usize>)
    ensures
        fold_matches(best, visits) is None <==> (best is None && visits.len() == 0),
        fold_matches(best, visits) matches Some(m) ==> (
            (best == Some(m) || visits.contains(m))
            && (best matches Some(b) ==> m <= b)
            && forall|j: int| 0 <= j < visits.len() ==> m <= #[trigger] visits[j]),
    decreases visits.len(),
{
    if visits.len() > 0 {
        let next = lower_match(best, visits[0]);
        lemma_fold_is_minimum(next, visits.drop_first());
        if let Some(m) = fold_matches(best, visits) {
            assert forall|j: int| 0 <= j < visits.len() implies m <= #[trigger] visits[j] by {
                if j > 0 {
                    assert(visits[j] == visits.drop_first()[j - 1]);
                }
            }
            if visits.drop_first().contains(m) {
                let k = choose|k: int| 0 <= k < visits.drop_first().len() && visits.drop_first()[k] == m;
                assert(visits[k + 1] == m);
            } else if next == Some(m) && best != Some(m) {
                assert(visits[0] == m);
            }
        }
    }
}

/// The answer of a lookup is the lowest index among the matching cells
/// visited, and there is an answer exactly when some cell matched.
pub proof fn law_lookup_finds_lowest_match(visits: Seq<usize>)
    ensures
        fold_matches(None, visits) is None <==> visits.len() == 0,
        fold_matches(None, visits) matches Some(m) ==> visits.contains(m) && forall|j: int|
            0 <= j < visits.len() ==> m <= #[trigger] visits[j],
{
    lemma_fold_is_minimum(None, visits);
}

/// Visiting the same matching cells in another order (as a hierarchy
/// does) gives the same answer.
pub proof fn law_visit_order_irrelevant(a: Seq<usize>, b: Seq<usize>)
    requires
        a.to_set() == b.to_set(),
    ensures
        fold_matches(None, a) == fold_matches(None, b),
{
    lemma_fold_is_minimum(None, a);
    lemma_fold_is_minimum(None, b);
    if a.len() == 0 && b.len() > 0 {
        assert(b.to_set().contains(b[0]));
        assert(!a.to_set().contains(b[0]));
    }
    if b.len() == 0 && a.len() > 0 {
        assert(a.to_set().contains(a[0]));
        assert(!b.to_set().contains(a[0]));
    }
    if let (Some(ma), Some(mb)) = (fold_matches(None, a), fold_matches(None, b)) {
        assert(a.to_set().contains(ma));
        assert(b.to_set().contains(mb));
        let ia = choose|i: int| 0 <= i < b.len() && b[i] == ma;
        let ib = choose|i: int| 0 <= i < a.len() && a[i] == mb;
        assert(mb <= b[ia]);
        assert(ma <= a[ib]);
    }
}

/// A linear scan visits the matching cells in increasing index order,
/// so the lowest match is the first one it meets.
pub proof fn law_linear_scan_keeps_first(visits: Seq<usize>)
    requires
        visits.len() > 0,
        forall|i: int, j: int| 0 <= i < j < visits.len() ==> visits[i] < visits[j],
    ensures
        fold_matches(None, visits) == Some(visits[0]),
{
    lemma_fold_is_minimum(None, visits);
    let m = fold_matches(None, visits).unwrap();
    let k = choose|k: int| 0 <= k < visits.len() && visits[k] == m;
    assert(m <= visits[0]);
    if k > 0 {
        assert(visits[0] < visits[k]);
    }
}

} // verus!
