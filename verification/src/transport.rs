//! Integer side of the transport drivers: run configurations, the
//! per-event bookkeeping of fixed-source and k-eigenvalue histories
//! (which counters an event bumps, whether the neutron goes on, how
//! many secondaries it hands over), the source-bank resampling index,
//! and the mesh histogram behind the Shannon entropy of a fission
//! source.
use vstd::prelude::*;

verus! {

/// Whether a particle is still being tracked.
#[derive(Debug, Clone, Copy, PartialEq, Eq, Structural)]
pub enum ParticleStatus {
    Alive,
    Dead,
}

/// Configuration for a fixed-source run.
#[derive(Debug, Clone, Copy)]
pub struct FixedSourceConfig {
    pub n_batches: u32,
    pub n_particles_per_batch: u32,
    pub seed: u64,
}

impl Default for FixedSourceConfig {
    fn default() -> (c: Self)
        ensures
            c.n_batches == 50,
            c.n_particles_per_batch == 10_000,
            c.seed == 1,
    {
        FixedSourceConfig { n_batches: 50, n_particles_per_batch: 10_000, seed: 1 }
    }
}

impl FixedSourceConfig {
    /// Number of source histories the run tracks.
    pub fn total_histories(&self) -> (n: u64)
        ensures
            n == self.n_batches as nat * self.n_particles_per_batch as nat,
    {
        let a = self.n_batches as u64;
        let b = self.n_particles_per_batch as u64;
        assert(a * b <= 0xFFFF_FFFFu64 * 0xFFFF_FFFFu64) by (nonlinear_arith)
            requires
                a <= 0xFFFF_FFFF,
                b <= 0xFFFF_FFFF,
        ;
        a * b
    }
}

/// Configuration for one k-eigenvalue run.
#[derive(Debug, Clone, Copy)]
pub struct EigenvalueConfig {
    pub n_batches: u32,
    pub n_inactive: u32,
    pub n_particles_per_batch: u32,
    pub seed: u64,
}

impl Default for EigenvalueConfig {
    fn default() -> (c: Self)
        ensures
            c.n_batches == 100,
            c.n_inactive == 20,
            c.n_particles_per_batch == 10_000,
            c.seed == 1,
    {
        EigenvalueConfig { n_batches: 100, n_inactive: 20, n_particles_per_batch: 10_000, seed: 1 }
    }
}

/// What happened to a tracked neutron at one step of a fixed-source
/// history: a collision with its outcome, or a surface crossing with
/// its boundary condition.
#[derive(Debug, Clone, Copy, PartialEq, Eq, Structural)]
pub enum TrackEvent {
    /// Collision in a material where no nuclide could react.
    NoReaction,
    /// Elastic or thermal scatter.
    Scatter,
    /// Inelastic scatter on a level.
    InelasticScatter,
    /// Capture: the neutron is gone.
    Absorption,
    /// Fission: the neutron is gone (no fission bank in fixed-source mode).
    Fission,
    /// (n,2n)/(n,3n): the secondaries are dropped and the primary is stopped.
    Multiplicity,
    /// Crossed a vacuum boundary.
    Vacuum,
    /// Reflected off a reflective boundary.
    Reflected,
    /// Crossed a transmission boundary into another cell.
    EnteredCell,
    /// Crossed a transmission boundary out of the geometry.
    LeftGeometry,
    /// No surface ahead: the neutron escapes.
    Escaped,
}

/// Per-batch fixed-source result.
#[derive(Debug, Clone)]
pub struct FixedSourceBatch {
    pub batch: u32,
    pub n_collisions: u64,
    pub n_leaked: u64,
    pub n_absorbed: u64,
    pub n_fissioned: u64,
}

/// The event is a collision.
pub open spec fn is_collision(e: TrackEvent) -> bool {
    matches!(e, TrackEvent::NoReaction | TrackEvent::Scatter | TrackEvent::InelasticScatter
        | TrackEvent::Absorption | TrackEvent::Fission | TrackEvent::Multiplicity)
}

/// The event counts as a leak.
pub open spec fn is_leak(e: TrackEvent) -> bool {
    matches!(e, TrackEvent::Vacuum | TrackEvent::LeftGeometry | TrackEvent::Escaped)
}

/// The neutron is still tracked after the event.
pub open spec fn survives(e: TrackEvent) -> bool {
    matches!(e, TrackEvent::NoReaction | TrackEvent::Scatter | TrackEvent::InelasticScatter
        | TrackEvent::Reflected | TrackEvent::EnteredCell)
}

/// The batch counters after one event.
pub open spec fn counted(b: FixedSourceBatch, e: TrackEvent) -> FixedSourceBatch {
    FixedSourceBatch {
        batch: b.batch,
        n_collisions: (b.n_collisions + if is_collision(e) { 1int } else { 0int }) as u64,
        n_leaked: (b.n_leaked + if is_leak(e) { 1int } else { 0int }) as u64,
        n_absorbed: (b.n_absorbed + if e == TrackEvent::Absorption { 1int } else { 0int }) as u64,
        n_fissioned: (b.n_fissioned + if e == TrackEvent::Fission { 1int } else { 0int }) as u64,
    }
}

/// Every absorption and fission is also a collision.
pub open spec fn batch_consistent(b: FixedSourceBatch) -> bool {
    b.n_absorbed + b.n_fissioned <= b.n_collisions
}

impl FixedSourceBatch {
    /// Counters of batch `batch` before its first history.
    pub fn new(batch: u32) -> (b: Self)
        ensures
            b.batch == batch,
            b.n_collisions == 0,
            b.n_leaked == 0,
            b.n_absorbed == 0,
            b.n_fissioned == 0,
            batch_consistent(b),
    {
        FixedSourceBatch { batch, n_collisions: 0, n_leaked: 0, n_absorbed: 0, n_fissioned: 0 }
    }

    /// Count one event of a history; returns whether the neutron is
    /// still tracked afterwards.
    pub fn record(&mut self, e: TrackEvent) -> (alive: bool)
        requires
            is_collision(e) ==> old(self).n_collisions < u64::MAX,
            is_leak(e) ==> old(self).n_leaked < u64::MAX,
            e == TrackEvent::Absorption ==> old(self).n_absorbed < u64::MAX,
            e == TrackEvent::Fission ==> old(self).n_fissioned < u64::MAX,
        ensures
            *final(self) == counted(*old(self), e),
            batch_consistent(*old(self)) ==> batch_consistent(*final(self)),
            alive == survives(e),
            *final(self) == *old(self) ==> alive,
            (e == TrackEvent::Reflected || e == TrackEvent::EnteredCell) ==> alive && *final(self)
                == *old(self),
    {
        match e {
            TrackEvent::NoReaction | TrackEvent::Scatter | TrackEvent::InelasticScatter => {
                self.n_collisions = self.n_collisions + 1;
                true
            },
            TrackEvent::Absorption => {
                self.n_collisions = self.n_collisions + 1;
                self.n_absorbed = self.n_absorbed + 1;
                false
            },
            TrackEvent::Fission => {
                self.n_collisions = self.n_collisions + 1;
                self.n_fissioned = self.n_fissioned + 1;
                false
            },
            TrackEvent::Multiplicity => {
                self.n_collisions = self.n_collisions + 1;
                false
            },
            TrackEvent::Vacuum | TrackEvent::LeftGeometry | TrackEvent::Escaped => {
                self.n_leaked = self.n_leaked + 1;
                false
            },
            TrackEvent::Reflected | TrackEvent::EnteredCell => true,
        }
    }
}


/// What happened to a neutron at one step of a k-eigenvalue history.
#[derive(Debug, Clone, Copy, PartialEq, Eq, Structural)]
pub enum EigenEvent {
    /// Collision in a material where no nuclide could react.
    NoReaction,
    /// Elastic or thermal scatter.
    Scatter,
    /// Inelastic scatter on a level.
    InelasticScatter,
    /// Capture: the neutron is gone.
    Absorption,
    /// Fission banking the given number of sites for the next generation.
    Fission(u32),
    /// (n,2n)/(n,3n) emitting the given number of secondary neutrons.
    Multiplicity(u32),
    /// Crossed a vacuum boundary.
    Vacuum,
    /// Reflected off a reflective boundary.
    Reflected,
    /// Crossed a transmission boundary into another cell.
    EnteredCell,
    /// Crossed a transmission boundary out of the geometry.
    LeftGeometry,
    /// No surface ahead: the neutron escapes.
    Escaped,
}

/// Integer counters of one k-eigenvalue batch; `n_sites` is the number
/// of fission sites banked, the numerator of the collision estimator.
#[derive(Debug, Clone, Copy)]
pub struct EigenBatchCounts {
    pub n_collisions: u64,
    pub n_fissions: u64,
    pub n_leaked: u64,
    pub n_sites: u64,
}

/// The event is a collision.
pub open spec fn eigen_collided(e: EigenEvent) -> bool {
    ||| e == EigenEvent::NoReaction
    ||| e == EigenEvent::Scatter
    ||| e == EigenEvent::InelasticScatter
    ||| e == EigenEvent::Absorption
    ||| e is Fission
    ||| e is Multiplicity
}

/// The event counts as a leak.
pub open spec fn eigen_leaked(e: EigenEvent) -> bool {
    e == EigenEvent::Vacuum || e == EigenEvent::LeftGeometry || e == EigenEvent::Escaped
}

/// Sites the event banks.
pub open spec fn sites_banked(e: EigenEvent) -> nat {
    match e {
        EigenEvent::Fission(n) => n as nat,
        _ => 0,
    }
}

/// The neutron is still tracked after the event. A primary survives an
/// (n,xn) collision and its secondaries are tracked after it; a
/// secondary is stopped there instead, so the cascade is one level deep.
pub open spec fn eigen_survives(e: EigenEvent, secondary: bool) -> bool {
    ||| e == EigenEvent::NoReaction
    ||| e == EigenEvent::Scatter
    ||| e == EigenEvent::InelasticScatter
    ||| e == EigenEvent::Reflected
    ||| e == EigenEvent::EnteredCell
    ||| (e is Multiplicity && !secondary)
}

/// Secondary neutrons the event hands over for tracking.
pub open spec fn secondaries_emitted(e: EigenEvent, secondary: bool) -> nat {
    match e {
        EigenEvent::Multiplicity(n) => if secondary { 0 } else { n as nat },
        _ => 0,
    }
}

/// Eigenvalue counters after one event.
pub open spec fn eigen_counted(c: EigenBatchCounts, e: EigenEvent) -> EigenBatchCounts {
    EigenBatchCounts {
        n_collisions: (c.n_collisions + if eigen_collided(e) { 1int } else { 0int }) as u64,
        n_fissions: (c.n_fissions + if e is Fission { 1int } else { 0int }) as u64,
        n_leaked: (c.n_leaked + if eigen_leaked(e) { 1int } else { 0int }) as u64,
        n_sites: (c.n_sites + sites_banked(e)) as u64,
    }
}

impl EigenBatchCounts {
    /// Counters before the first history of a batch.
    pub fn new() -> (c: Self)
        ensures
            c.n_collisions == 0,
            c.n_fissions == 0,
            c.n_leaked == 0,
            c.n_sites == 0,
    {
        EigenBatchCounts { n_collisions: 0, n_fissions: 0, n_leaked: 0, n_sites: 0 }
    }

    /// Count one event of a primary (`secondary == false`) or of an
    /// (n,xn) secondary; returns whether the neutron is still tracked and
    /// how many secondaries the caller must track after it.
    pub fn record(&mut self, e: EigenEvent, secondary: bool) -> (r: (bool, u32))
        requires
            eigen_collided(e) ==> old(self).n_collisions < u64::MAX,
            e is Fission ==> old(self).n_fissions < u64::MAX,
            eigen_leaked(e) ==> old(self).n_leaked < u64::MAX,
            old(self).n_sites + sites_banked(e) <= u64::MAX,
        ensures
            *final(self) == eigen_counted(*old(self), e),
            r.0 == eigen_survives(e, secondary),
            r.1 == secondaries_emitted(e, secondary),
            *final(self) == *old(self) ==> r == (true, 0u32),
            (e == EigenEvent::Reflected || e == EigenEvent::EnteredCell) ==> r == (true, 0u32)
                && *final(self) == *old(self),
    {
        match e {
            EigenEvent::NoReaction | EigenEvent::Scatter | EigenEvent::InelasticScatter => {
                self.n_collisions = self.n_collisions + 1;
                (true, 0)
            },
            EigenEvent::Absorption => {
                self.n_collisions = self.n_collisions + 1;
                (false, 0)
            },
            EigenEvent::Fission(n) => {
                self.n_collisions = self.n_collisions + 1;
                self.n_fissions = self.n_fissions + 1;
                self.n_sites = self.n_sites + n as u64;
                (false, 0)
            },
            EigenEvent::Multiplicity(n) => {
                self.n_collisions = self.n_collisions + 1;
                if secondary {
                    (false, 0)
                } else {
                    (true, n)
                }
            },
            EigenEvent::Vacuum | EigenEvent::LeftGeometry | EigenEvent::Escaped => {
                self.n_leaked = self.n_leaked + 1;
                (false, 0)
            },
            EigenEvent::Reflected | EigenEvent::EnteredCell => (true, 0),
        }
    }
}

/// A fixed-source history ends only on an event that some counter
/// records: an event that leaves the batch counters as they were (a
/// reflection, or a crossing into another cell) keeps the neutron
/// tracked.
pub proof fn law_history_ends_only_when_counted(b: FixedSourceBatch, e: TrackEvent)
    requires
        is_collision(e) ==> b.n_collisions < u64::MAX,
        is_leak(e) ==> b.n_leaked < u64::MAX,
        e == TrackEvent::Absorption ==> b.n_absorbed < u64::MAX,
        e == TrackEvent::Fission ==> b.n_fissioned < u64::MAX,
    ensures
        counted(b, e) == b ==> survives(e),
        !survives(e) ==> counted(b, e) != b,
        counted(b, TrackEvent::EnteredCell) == b && survives(TrackEvent::EnteredCell),
        counted(b, TrackEvent::Reflected) == b && survives(TrackEvent::Reflected),
{
}

/// A k-eigenvalue history, primary or secondary, ends only on an event
/// that some counter records: an event that leaves every counter as it
/// was (a reflection, or a crossing into another cell) keeps the neutron
/// tracked and hands over no secondaries.
pub proof fn law_eigen_history_ends_only_when_counted(c: EigenBatchCounts, e: EigenEvent, secondary: bool)
    requires
        eigen_collided(e) ==> c.n_collisions < u64::MAX,
        e is Fission ==> c.n_fissions < u64::MAX,
        eigen_leaked(e) ==> c.n_leaked < u64::MAX,
        c.n_sites + sites_banked(e) <= u64::MAX,
    ensures
        eigen_counted(c, e) == c ==> eigen_survives(e, secondary) && secondaries_emitted(e, secondary)
            == 0,
        !eigen_survives(e, secondary) ==> eigen_counted(c, e) != c,
{
}

/// Crossing into another cell is bookkept exactly as a reflection, for
/// primaries and secondaries alike: counters unchanged, neutron still
/// tracked, no secondaries.
pub proof fn law_eigen_crossing_is_like_reflection(c: EigenBatchCounts, secondary: bool)
    ensures
        eigen_counted(c, EigenEvent::EnteredCell) == c,
        eigen_counted(c, EigenEvent::Reflected) == c,
        eigen_survives(EigenEvent::EnteredCell, secondary),
        eigen_survives(EigenEvent::Reflected, secondary),
        secondaries_emitted(EigenEvent::EnteredCell, secondary) == 0,
        secondaries_emitted(EigenEvent::Reflected, secondary) == 0,
{
}

/// Aggregate fixed-source result.
#[derive(Debug, Clone)]
pub struct FixedSourceResult {
    pub batches: Vec<FixedSourceBatch>,
    pub total_histories: u64,
}

/// Index into a bank of `n_pool` sites for a draw `raw`, clamped to the
/// last site.
pub fn resample_index(raw: usize, n_pool: usize) -> (idx: usize)
    requires
        n_pool > 0,
    ensures
        idx == if raw < n_pool { raw } else { (n_pool - 1) as usize },
        idx < n_pool,
{
    if raw >= n_pool {
        n_pool - 1
    } else {
        raw
    }
}

/// Mesh coordinate `i` clamped to the last of `n` cells.
pub open spec fn clamp_cell(i: int, n: int) -> int {
    if i < n - 1 { i } else { n - 1 }
}

/// Flat index of the mesh cell of a site on an `n`³ mesh, each
/// coordinate clamped to the last cell.
pub open spec fn flat_cell(site: (usize, usize, usize), n: int) -> int {
    clamp_cell(site.0 as int, n) * n * n + clamp_cell(site.1 as int, n) * n + clamp_cell(
        site.2 as int,
        n,
    )
}

/// Number of sites that fall in flat mesh cell `b`.
pub open spec fn cell_count(sites: Seq<(usize, usize, usize)>, n: int, b: int) -> nat
    decreases sites.len(),
{
    if sites.len() == 0 {
        0
    } else {
        cell_count(sites.drop_last(), n, b) + if flat_cell(sites.last(), n) == b {
            1nat
        } else {
            0nat
        }
    }
}

/// Sum of a histogram.
pub open spec fn histogram_total(s: Seq<u32>) -> int
    decreases s.len(),
{
    if s.len() == 0 {
        0
    } else {
        histogram_total(s.drop_last()) + s.last()
    }
}

proof fn lemma_cell_count_bounded(sites: Seq<(usize, usize, usize)>, n: int, b: int)
    ensures
        cell_count(sites, n, b) <= sites.len(),
    decreases sites.len(),
{
    if sites.len() > 0 {
        lemma_cell_count_bounded(sites.drop_last(), n, b);
    }
}

proof fn lemma_total_after_update(s: Seq<u32>, j: int, v: u32)
    requires
        0 <= j < s.len(),
    ensures
        histogram_total(s.update(j, v)) == histogram_total(s) - s[j] + v,
    decreases s.len(),
{
    let t = s.update(j, v);
    if j == s.len() - 1 {
        assert(t.drop_last() =~= s.drop_last());
    } else {
        lemma_total_after_update(s.drop_last(), j, v);
        assert(t.drop_last() =~= s.drop_last().update(j, v));
    }
}

proof fn lemma_total_of_zeros(s: Seq<u32>)
    requires
        forall|b: int| 0 <= b < s.len() ==> s[b] == 0,
    ensures
        histogram_total(s) == 0,
    decreases s.len(),
{
    if s.len() > 0 {
        lemma_total_of_zeros(s.drop_last());
    }
}

proof fn lemma_flat_cell_in_mesh(site: (usize, usize, usize), n: int)
    requires
        n > 0,
    ensures
        0 <= flat_cell(site, n) < n * n * n,
{
    let i = clamp_cell(site.0 as int, n);
    let j = clamp_cell(site.1 as int, n);
    let k = clamp_cell(site.2 as int, n);
    assert(0 <= i * n * n + j * n + k < n * n * n) by (nonlinear_arith)
        requires
            0 <= i <= n - 1,
            0 <= j <= n - 1,
            0 <= k <= n - 1,
            n > 0,
    ;
}

/// Histogram of source sites over an `n_bins`³ mesh: each site is
/// given by its three raw mesh coordinates, each clamped to the last
/// cell, and lands in flat cell `i·n² + j·n + k`. This is the count
/// behind the Shannon entropy of a fission source.
pub fn mesh_histogram(sites: &Vec<(usize, usize, usize)>, n_bins: usize) -> (counts: Vec<u32>)
    requires
        n_bins > 0,
        n_bins * n_bins * n_bins <= usize::MAX,
        sites.len() <= u32::MAX,
    ensures
        counts.len() == n_bins * n_bins * n_bins,
        forall|b: int|
            0 <= b < counts.len() ==> #[trigger] counts@[b] == cell_count(sites@, n_bins as int, b),
        histogram_total(counts@) == sites.len(),
{
    let ghost n = n_bins as int;
    assert(n_bins * n_bins <= n_bins * n_bins * n_bins) by (nonlinear_arith)
        requires
            n_bins > 0,
    ;
    let total = n_bins * n_bins * n_bins;
    let mut counts: Vec<u32> = vec![0u32; total];
    proof {
        assert forall|b: int| 0 <= b < counts.len() implies counts@[b] == 0 by {
            assert(cloned(0u32, counts@[b]));
        }
        lemma_total_of_zeros(counts@);
    }
    let mut s: usize = 0;
    while s < sites.len()
        invariant
            s <= sites.len(),
            sites.len() <= u32::MAX,
            n == n_bins,
            n_bins > 0,
            total == n_bins * n_bins * n_bins,
            total <= usize::MAX,
            n_bins * n_bins <= total,
            counts.len() == total,
            forall|b: int|
                0 <= b < counts.len() ==> #[trigger] counts@[b] == cell_count(
                    sites@.take(s as int),
                    n,
                    b,
                ),
            histogram_total(counts@) == s,
        decreases sites.len() - s,
    {
        let site = sites[s];
        let last = n_bins - 1;
        let i = if site.0 < last { site.0 } else { last };
        let j = if site.1 < last { site.1 } else { last };
        let k = if site.2 < last { site.2 } else { last };
        proof {
            lemma_flat_cell_in_mesh(site, n);
            assert(i * n_bins <= n_bins * n_bins) by (nonlinear_arith)
                requires
                    i <= n_bins,
            ;
            assert(i * n_bins * n_bins <= n_bins * n_bins * n_bins) by (nonlinear_arith)
                requires
                    i <= n_bins,
            ;
        }
        let flat = i * n_bins * n_bins + j * n_bins + k;
        assert(flat == flat_cell(site, n));
        let ghost before = counts@;
        proof {
            lemma_cell_count_bounded(sites@.take(s as int), n, flat as int);
        }
        let c = counts[flat];
        counts.set(flat, c + 1);
        proof {
            lemma_total_after_update(before, flat as int, (c + 1) as u32);
            let pre = sites@.take(s as int);
            let post = sites@.take(s as int + 1);
            assert(post.drop_last() =~= pre);
            assert(post.last() == site);
            assert forall|b: int| 0 <= b < counts.len() implies #[trigger] counts@[b]
                == cell_count(post, n, b) by {
                assert(cell_count(post, n, b) == cell_count(pre, n, b) + if flat_cell(site, n)
                    == b {
                    1nat
                } else {
                    0nat
                });
            }
        }
        s = s + 1;
    }
    assert(sites@.take(sites.len() as int) =~= sites@);
    counts
}

} // verus!
