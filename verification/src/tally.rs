//! Integer side of the batch tallies: which batches count toward the
//! statistics, and which track segments a cell-filtered bin scores.
use vstd::prelude::*;

verus! {

/// Number of active batches among the first `recorded`, when the
/// first `inactive` are warm-up batches.
pub open spec fn active_count(recorded: int, inactive: int) -> int {
    if recorded <= inactive { 0 } else { recorded - inactive }
}

/// Bookkeeping of active and inactive batches shared by the flux and
/// k-eff tallies: the first `n_inactive` batches are recorded but kept
/// out of the mean and σ.
#[derive(Debug, Clone, Copy)]
pub struct ActiveBatches {
    n_inactive: u32,
    n_recorded: u32,
    n_active: u32,
}

impl View for ActiveBatches {
    /// `(n_inactive, n_recorded, n_active)`.
    type V = (u32, u32, u32);

    closed spec fn view(&self) -> (u32, u32, u32) {
        (self.n_inactive, self.n_recorded, self.n_active)
    }
}

impl ActiveBatches {
    #[verifier::type_invariant]
    spec fn counts_agree(self) -> bool {
        self.n_active == active_count(self.n_recorded as int, self.n_inactive as int)
    }

    /// No batch recorded yet; the first `n_inactive` will be warm-up.
    pub fn new(n_inactive: u32) -> (t: Self)
        ensures
            t@ == (n_inactive, 0u32, 0u32),
    {
        ActiveBatches { n_inactive, n_recorded: 0, n_active: 0 }
    }

    /// Close out the current batch. Returns the index of the batch just
    /// closed and whether it contributes to the statistics (it does once
    /// `n_inactive` batches have been recorded before it).
    pub fn end_batch(&mut self) -> (r: (u32, bool))
        requires
            old(self)@.1 < u32::MAX,
        ensures
            r.0 == old(self)@.1,
            r.1 == (old(self)@.1 >= old(self)@.0),
            final(self)@.0 == old(self)@.0,
            final(self)@.1 == old(self)@.1 + 1,
            final(self)@.2 == old(self)@.2 + if r.1 { 1int } else { 0int },
            final(self)@.2 == active_count(final(self)@.1 as int, final(self)@.0 as int),
    {
        proof {
            use_type_invariant(&*self);
        }
        let idx = self.n_recorded;
        let active = idx >= self.n_inactive;
        let n_active = if active { self.n_active + 1 } else { self.n_active };
        *self = ActiveBatches { n_inactive: self.n_inactive, n_recorded: idx + 1, n_active };
        (idx, active)
    }

    /// Number of batches that count toward the statistics.
    pub fn n_active(&self) -> (n: u32)
        ensures
            n == self@.2,
            n == active_count(self@.1 as int, self@.0 as int),
    {
        proof {
            use_type_invariant(self);
        }
        self.n_active
    }

    /// Number of batches recorded so far, warm-up included.
    pub fn n_recorded(&self) -> (n: u32)
        ensures
            n == self@.1,
    {
        self.n_recorded
    }

    /// Number of warm-up batches.
    pub fn n_inactive(&self) -> (n: u32)
        ensures
            n == self@.0,
    {
        self.n_inactive
    }
}

/// Whether a bin with optional cell filter `filter` scores a segment
/// in cell `cell_idx`: a bin without a filter scores every cell.
pub fn cell_filter_matches(filter: Option<usize>, cell_idx: usize) -> (m: bool)
    ensures
        m == match filter {
            Some(c) => c == cell_idx,
            None => true,
        },
{
    match filter {
        Some(c) => c == cell_idx,
        None => true,
    }
}

} // verus!
