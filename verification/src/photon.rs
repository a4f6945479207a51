//! Integer side of photon transport: the reaction channels and the
//! per-batch counters of a photon history, pair-production
//! annihilation photons included.
use vstd::prelude::*;

verus! {

/// Photon reaction types selectable from the macroscopic XS sums.
#[derive(Debug, Clone, Copy, PartialEq, Eq, Structural)]
pub enum PhotonReaction {
    Coherent,
    Incoherent,
    Photoelectric,
    PairProduction,
}

/// What happened to a tracked photon at one step of its history.
#[derive(Debug, Clone, Copy, PartialEq, Eq, Structural)]
pub enum PhotonEvent {
    /// Energy fell below the tracking cut-off: deposited locally.
    BelowCutoff,
    /// Collision in a material with no positive cross section.
    NoReaction,
    /// Collision with the sampled reaction. A pair production carries
    /// whether the photon was above the pair threshold.
    Collided(PhotonReaction, bool),
    /// Crossed a vacuum boundary.
    Vacuum,
    /// Reflected off a reflective boundary.
    Reflected,
    /// Crossed a transmission boundary into another cell.
    EnteredCell,
    /// Crossed a transmission boundary out of the geometry.
    LeftGeometry,
    /// No surface ahead: the photon escapes.
    Escaped,
}

/// Integer counters of one photon batch.
#[derive(Debug, Clone, Copy)]
pub struct PhotonCounts {
    pub n_collisions: u64,
    pub n_leaked: u64,
    pub n_absorbed: u64,
}

/// The photon is still tracked after the event.
pub open spec fn photon_survives(e: PhotonEvent) -> bool {
    ||| e matches PhotonEvent::Collided(PhotonReaction::Coherent, _)
    ||| e matches PhotonEvent::Collided(PhotonReaction::Incoherent, _)
    ||| e == PhotonEvent::Reflected
    ||| e == PhotonEvent::EnteredCell
}

/// Number of annihilation photons the event banks for later tracking.
pub open spec fn photons_banked(e: PhotonEvent) -> nat {
    if e == PhotonEvent::Collided(PhotonReaction::PairProduction, true) {
        2
    } else {
        0
    }
}

/// The event ends the photon by local absorption.
pub open spec fn photon_absorbed(e: PhotonEvent) -> bool {
    ||| e == PhotonEvent::BelowCutoff
    ||| e matches PhotonEvent::Collided(PhotonReaction::Photoelectric, _)
    ||| e matches PhotonEvent::Collided(PhotonReaction::PairProduction, _)
}

/// The event is a collision.
pub open spec fn photon_collided(e: PhotonEvent) -> bool {
    e == PhotonEvent::NoReaction || e is Collided
}

/// The event counts as a leak.
pub open spec fn photon_leaked(e: PhotonEvent) -> bool {
    e == PhotonEvent::Vacuum || e == PhotonEvent::LeftGeometry || e == PhotonEvent::Escaped
}

/// Photon counters after one event.
pub open spec fn photon_counted(c: PhotonCounts, e: PhotonEvent) -> PhotonCounts {
    PhotonCounts {
        n_collisions: (c.n_collisions + if photon_collided(e) { 1int } else { 0int }) as u64,
        n_leaked: (c.n_leaked + if photon_leaked(e) { 1int } else { 0int }) as u64,
        n_absorbed: (c.n_absorbed + if photon_absorbed(e) { 1int } else { 0int }) as u64,
    }
}

impl PhotonCounts {
    /// Counters before the first history of a batch.
    pub fn new() -> (c: Self)
        ensures
            c.n_collisions == 0,
            c.n_leaked == 0,
            c.n_absorbed == 0,
    {
        PhotonCounts { n_collisions: 0, n_leaked: 0, n_absorbed: 0 }
    }

    /// Count one event; returns whether the photon is still tracked
    /// and how many annihilation photons join the stack of the history.
    pub fn record(&mut self, e: PhotonEvent) -> (r: (bool, u32))
        requires
            photon_collided(e) ==> old(self).n_collisions < u64::MAX,
            photon_leaked(e) ==> old(self).n_leaked < u64::MAX,
            photon_absorbed(e) ==> old(self).n_absorbed < u64::MAX,
        ensures
            *final(self) == photon_counted(*old(self), e),
            r.0 == photon_survives(e),
            r.1 == photons_banked(e),
            !(r.0 && photon_absorbed(e)),
            *final(self) == *old(self) ==> r == (true, 0u32),
            (e == PhotonEvent::Reflected || e == PhotonEvent::EnteredCell) ==> r == (true, 0u32)
                && *final(self) == *old(self),
    {
        match e {
            PhotonEvent::BelowCutoff => {
                self.n_absorbed = self.n_absorbed + 1;
                (false, 0)
            },
            PhotonEvent::NoReaction => {
                self.n_collisions = self.n_collisions + 1;
                (false, 0)
            },
            PhotonEvent::Collided(reaction, above_threshold) => {
                self.n_collisions = self.n_collisions + 1;
                match reaction {
                    PhotonReaction::Coherent | PhotonReaction::Incoherent => (true, 0),
                    PhotonReaction::Photoelectric => {
                        self.n_absorbed = self.n_absorbed + 1;
                        (false, 0)
                    },
                    PhotonReaction::PairProduction => {
                        self.n_absorbed = self.n_absorbed + 1;
                        (false, if above_threshold { 2 } else { 0 })
                    },
                }
            },
            PhotonEvent::Vacuum | PhotonEvent::LeftGeometry | PhotonEvent::Escaped => {
                self.n_leaked = self.n_leaked + 1;
                (false, 0)
            },
            PhotonEvent::Reflected | PhotonEvent::EnteredCell => (true, 0),
        }
    }
}

/// A photon history ends only on an event that some counter records:
/// an event that leaves every counter as it was (a reflection, or a
/// crossing into another cell) keeps the photon tracked and banks no
/// annihilation photons.
pub proof fn law_photon_dropped_only_when_counted(c: PhotonCounts, e: PhotonEvent)
    requires
        photon_collided(e) ==> c.n_collisions < u64::MAX,
        photon_leaked(e) ==> c.n_leaked < u64::MAX,
        photon_absorbed(e) ==> c.n_absorbed < u64::MAX,
    ensures
        photon_counted(c, e) == c ==> photon_survives(e) && photons_banked(e) == 0,
        !photon_survives(e) ==> photon_counted(c, e) != c,
{
}

/// Crossing into another cell is bookkept exactly as a reflection:
/// same counters afterwards, photon still tracked, nothing banked.
pub proof fn law_photon_crossing_is_like_reflection(c: PhotonCounts)
    ensures
        photon_counted(c, PhotonEvent::EnteredCell) == c,
        photon_counted(c, PhotonEvent::Reflected) == c,
        photon_survives(PhotonEvent::EnteredCell) && photon_survives(PhotonEvent::Reflected),
        photons_banked(PhotonEvent::EnteredCell) == 0 && photons_banked(PhotonEvent::Reflected) == 0,
{
}

} // verus!
