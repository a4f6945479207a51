use tensor_compress::loader::{
    has_continuum_inelastic, nuclide_name_from_stem, stem_to_nuclide_name, tail_align, LoaderConfig,
};
use tensor_compress::photon::{PhotonCounts, PhotonEvent, PhotonReaction};

#[test]
fn default_loader_config_loads_everything() {
    let c = LoaderConfig::default();
    assert!(c.include_inelastic && c.include_n2n && c.include_n3n && c.include_nu_bar);
    assert!(c.include_fission_spectrum && c.include_anisotropic_elastic);
    assert!(c.include_urr && c.include_discrete_levels);
    assert_eq!(c.cross_section_mts(), vec![18, 102, 4, 16, 17]);
}

#[test]
fn switched_off_reactions_are_not_read() {
    let c = LoaderConfig { include_inelastic: false, include_n3n: false, ..LoaderConfig::default() };
    assert_eq!(c.cross_section_mts(), vec![18, 102, 16]);
}

#[test]
fn continuum_level_detection() {
    assert!(has_continuum_inelastic(&vec![51, 52, 91]));
    assert!(!has_continuum_inelastic(&vec![51, 52, 90]));
    assert!(!has_continuum_inelastic(&vec![]));
}

#[test]
fn nuclide_names_from_paths() {
    assert_eq!(stem_to_nuclide_name("data/neutron/U235.h5"), "U235");
    assert_eq!(stem_to_nuclide_name("U238"), "U238");
    assert_eq!(stem_to_nuclide_name("Am242_m1.h5"), "Am242_m1");
    assert_eq!(stem_to_nuclide_name(""), "unknown");
    assert_eq!(stem_to_nuclide_name("/"), "unknown");
    assert_eq!(stem_to_nuclide_name("/data/endfb71/U235.h5"), "U235");
    assert_eq!(stem_to_nuclide_name("Pu239.h5"), "Pu239");
    assert_eq!(stem_to_nuclide_name("lib/Fe56"), "Fe56");
    assert_eq!(nuclide_name_from_stem(None), "unknown");
    assert_eq!(nuclide_name_from_stem(Some("Pu239".to_string())), "Pu239");
}

#[test]
fn tail_alignment_pads_the_front() {
    assert_eq!(tail_align(&vec![1.5, 2.5], 4, 0.0), vec![0.0, 0.0, 1.5, 2.5]);
    assert_eq!(tail_align(&vec![1.0, 2.0], 2, 0.0), vec![1.0, 2.0]);
    assert_eq!(tail_align(&Vec::<f64>::new(), 3, 0.0), vec![0.0; 3]);
}

#[test]
fn photon_history_counts() {
    let mut c = PhotonCounts::new();
    assert_eq!(c.record(PhotonEvent::Collided(PhotonReaction::Coherent, false)), (true, 0));
    assert_eq!(c.record(PhotonEvent::Collided(PhotonReaction::Incoherent, false)), (true, 0));
    assert_eq!(c.record(PhotonEvent::Collided(PhotonReaction::PairProduction, true)), (false, 2));
    assert_eq!(c.record(PhotonEvent::Collided(PhotonReaction::PairProduction, false)), (false, 0));
    assert_eq!(c.record(PhotonEvent::Collided(PhotonReaction::Photoelectric, true)), (false, 0));
    assert_eq!(c.record(PhotonEvent::BelowCutoff), (false, 0));
    assert_eq!(c.record(PhotonEvent::NoReaction), (false, 0));
    assert_eq!(c.record(PhotonEvent::Vacuum), (false, 0));
    assert_eq!(c.record(PhotonEvent::Reflected), (true, 0));
    assert_eq!(c.n_collisions, 6);
    assert_eq!(c.n_absorbed, 4);
    assert_eq!(c.n_leaked, 1);
}
