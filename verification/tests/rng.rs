use tensor_compress::rng::{lcg_draw31, Pcg64};

fn uniform(rng: &mut Pcg64) -> f64 {
    rng.uniform_bits() as f64 * (1.0 / 9_007_199_254_740_992.0)
}

#[test]
fn deterministic_per_particle() {
    let mut a = Pcg64::for_particle(1, 100);
    let mut b = Pcg64::for_particle(1, 100);
    for _ in 0..100 {
        assert_eq!(uniform(&mut a).to_bits(), uniform(&mut b).to_bits());
    }
}

#[test]
fn uniform_in_range() {
    let mut rng = Pcg64::new(42, 1);
    for _ in 0..10_000 {
        let x = uniform(&mut rng);
        assert!((0.0..1.0).contains(&x));
    }
}

#[test]
fn pcg32_reference_sequence() {
    // Reference output of PCG-XSH-RR 64/32 seeded with (42, 54).
    let mut rng = Pcg64::new(42, 54);
    let want = [0xa15c02b7u32, 0x7b47f409, 0xba1d3330, 0x83d2f293, 0xbfa4784b, 0xcbed606e];
    for w in want {
        assert_eq!(rng.next_u32(), w);
    }
}

#[test]
fn save_and_restore_continue_the_sequence() {
    let mut a = Pcg64::new(7, 3);
    a.next_u32();
    let mut b = Pcg64::from_state(a.state(), a.stream());
    for _ in 0..20 {
        assert_eq!(a.next_u32(), b.next_u32());
    }
}

#[test]
fn stream_is_kept() {
    assert_eq!(Pcg64::new(1, 12345).stream(), 12345);
    assert_eq!(Pcg64::from_state(9, 77).stream(), 77);
    assert_eq!(Pcg64::from_state(9, 77).state(), 9);
    assert_eq!(Pcg64::for_particle(4, 6).stream(), 6);
}

#[test]
fn for_particle_is_new_with_derived_seed() {
    let seed = 3u64.wrapping_mul(6_364_136_223_846_793_005).wrapping_add(11);
    let mut a = Pcg64::for_particle(3, 11);
    let mut b = Pcg64::new(seed, 11);
    assert_eq!(a.state(), b.state());
    assert_eq!(a.next_u32(), b.next_u32());
}

#[test]
fn distinct_particles_differ() {
    let a = Pcg64::for_particle(1, 1);
    let b = Pcg64::for_particle(1, 2);
    assert_ne!(a.stream(), b.stream());
}

#[test]
fn next_u32_single_step() {
    // From state 0 with increment 1 the first output word is 0 and the
    // state becomes the increment.
    let mut rng = Pcg64::from_state(0, 0);
    assert_eq!(rng.next_u32(), 0);
    assert_eq!(rng.state(), 1);
}

#[test]
fn uniform_bits_fit_in_53_bits() {
    let mut rng = Pcg64::new(99, 5);
    for _ in 0..1000 {
        assert!(rng.uniform_bits() < (1u64 << 53));
    }
}

#[test]
fn cp_seed_lcg_steps() {
    let mut s = 0u64;
    assert_eq!(lcg_draw31(&mut s), 167951807);
    assert_eq!(s, 1442695040888963407);
    let b = lcg_draw31(&mut s);
    assert_eq!(s, 1442695040888963407u64.wrapping_mul(6364136223846793005).wrapping_add(1442695040888963407));
    assert_eq!(b as u64, s >> 33);
}
