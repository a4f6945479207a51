use tensor_compress::cell_search::{leaf_can_improve, record_match};
use tensor_compress::tally::{cell_filter_matches, ActiveBatches};
use tensor_compress::transport::{
    mesh_histogram, resample_index, EigenBatchCounts, EigenEvent, EigenvalueConfig,
    FixedSourceBatch, FixedSourceConfig, FixedSourceResult, ParticleStatus, TrackEvent,
};

#[test]
fn default_configs() {
    let f = FixedSourceConfig::default();
    assert_eq!((f.n_batches, f.n_particles_per_batch, f.seed), (50, 10_000, 1));
    assert_eq!(f.total_histories(), 500_000);
    let e = EigenvalueConfig::default();
    assert_eq!((e.n_batches, e.n_inactive, e.n_particles_per_batch, e.seed), (100, 20, 10_000, 1));
}

#[test]
fn total_histories_does_not_overflow() {
    let f = FixedSourceConfig { n_batches: u32::MAX, n_particles_per_batch: u32::MAX, seed: 0 };
    assert_eq!(f.total_histories(), (u32::MAX as u64) * (u32::MAX as u64));
}

#[test]
fn fixed_source_history_counts() {
    let mut b = FixedSourceBatch::new(3);
    assert!(b.record(TrackEvent::Scatter));
    assert!(b.record(TrackEvent::EnteredCell));
    assert!(b.record(TrackEvent::Reflected));
    assert!(b.record(TrackEvent::NoReaction));
    assert!(!b.record(TrackEvent::Absorption));
    assert!(!b.record(TrackEvent::Fission));
    assert!(!b.record(TrackEvent::Multiplicity));
    assert!(!b.record(TrackEvent::Vacuum));
    assert!(!b.record(TrackEvent::LeftGeometry));
    assert!(!b.record(TrackEvent::Escaped));
    assert!(b.record(TrackEvent::InelasticScatter));
    assert_eq!(b.batch, 3);
    assert_eq!(b.n_collisions, 6);
    assert_eq!(b.n_leaked, 3);
    assert_eq!(b.n_absorbed, 1);
    assert_eq!(b.n_fissioned, 1);
    assert!(b.n_absorbed + b.n_fissioned <= b.n_collisions);
    let r = FixedSourceResult { batches: vec![b.clone()], total_histories: 1 };
    assert_eq!(r.batches[0].n_collisions, 6);
}

#[test]
fn eigen_primary_and_secondary_differ_on_multiplicity() {
    let mut c = EigenBatchCounts::new();
    assert_eq!(c.record(EigenEvent::Multiplicity(2), false), (true, 2));
    assert_eq!(c.record(EigenEvent::Multiplicity(2), true), (false, 0));
    assert_eq!(c.record(EigenEvent::Fission(3), true), (false, 0));
    assert_eq!(c.record(EigenEvent::Fission(2), false), (false, 0));
    assert_eq!(c.record(EigenEvent::Scatter, false), (true, 0));
    assert_eq!(c.record(EigenEvent::Absorption, false), (false, 0));
    assert_eq!(c.record(EigenEvent::Escaped, false), (false, 0));
    assert_eq!(c.record(EigenEvent::Reflected, true), (true, 0));
    assert_eq!(c.n_collisions, 6);
    assert_eq!(c.n_fissions, 2);
    assert_eq!(c.n_sites, 5);
    assert_eq!(c.n_leaked, 1);
}

#[test]
fn resample_index_clamps() {
    assert_eq!(resample_index(0, 5), 0);
    assert_eq!(resample_index(4, 5), 4);
    assert_eq!(resample_index(5, 5), 4);
    assert_eq!(resample_index(usize::MAX, 1), 0);
}

#[test]
fn mesh_histogram_counts_and_clamps() {
    let sites = vec![(0, 0, 0), (1, 1, 1), (9, 9, 9), (0, 1, 0), (0, 0, 0)];
    let counts = mesh_histogram(&sites, 2);
    assert_eq!(counts.len(), 8);
    assert_eq!(counts[0], 2);
    assert_eq!(counts[2], 1);
    assert_eq!(counts[7], 2);
    assert_eq!(counts.iter().map(|&c| c as usize).sum::<usize>(), sites.len());
}

#[test]
fn mesh_histogram_of_no_sites_is_zero() {
    let counts = mesh_histogram(&vec![], 6);
    assert_eq!(counts.len(), 216);
    assert!(counts.iter().all(|&c| c == 0));
}

#[test]
fn particle_status_compares() {
    assert_eq!(ParticleStatus::Alive, ParticleStatus::Alive);
    assert_ne!(ParticleStatus::Alive, ParticleStatus::Dead);
}

#[test]
fn inactive_batches_are_not_active() {
    let mut t = ActiveBatches::new(2);
    assert_eq!(t.end_batch(), (0, false));
    assert_eq!(t.end_batch(), (1, false));
    assert_eq!(t.end_batch(), (2, true));
    assert_eq!(t.end_batch(), (3, true));
    assert_eq!(t.n_active(), 2);
    assert_eq!(t.n_recorded(), 4);
    assert_eq!(t.n_inactive(), 2);
}

#[test]
fn no_warm_up_counts_every_batch() {
    let mut t = ActiveBatches::new(0);
    assert_eq!(t.end_batch(), (0, true));
    assert_eq!(t.n_active(), 1);
}

#[test]
fn cell_filter() {
    assert!(cell_filter_matches(None, 7));
    assert!(cell_filter_matches(Some(7), 7));
    assert!(!cell_filter_matches(Some(1), 7));
}

#[test]
fn lowest_matching_cell_wins() {
    let mut best = None;
    for idx in [7usize, 3, 9, 3, 5] {
        if leaf_can_improve(best, idx) {
            best = record_match(best, idx);
        }
    }
    assert_eq!(best, Some(3));
    assert!(!leaf_can_improve(Some(3), 3));
    assert!(leaf_can_improve(None, 0));
    assert_eq!(record_match(Some(2), 8), Some(2));
}
