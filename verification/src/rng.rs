//! PCG-XSH-RR 64/32 pseudo-random generator: the integer core.
//!
//! A generator is a 64-bit LCG state plus an odd increment that
//! selects the stream. Each draw advances the state by one LCG step
//! and emits a 32-bit word obtained by an xorshift followed by a
//! data-dependent rotation of the *old* state.
use vstd::arithmetic::div_mod::*;
use vstd::prelude::*;

verus! {

/// Multiplier of the 64-bit linear congruential step.
pub const PCG_MULTIPLIER: u64 = 6364136223846793005;

/// 2^64, the modulus of every state update.
pub open spec fn pow64() -> nat {
    0x1_0000_0000_0000_0000
}

/// One LCG step: `state · MULTIPLIER + inc (mod 2^64)`.
pub open spec fn lcg_step(state: u64, inc: u64) -> u64 {
    ((state as nat * PCG_MULTIPLIER as nat + inc as nat) % pow64()) as u64
}

/// Right rotation of a 32-bit word by `r < 32` places.
pub open spec fn rotr32(x: u32, r: u32) -> u32 {
    if r == 0 {
        x
    } else {
        (x >> r) | (x << ((32 - r) as u32))
    }
}

/// The 32-bit word emitted for a draw whose state *before* the step is `old_state`.
pub open spec fn pcg_output(old_state: u64) -> u32 {
    rotr32((((old_state >> 18u64) ^ old_state) >> 27u64) as u32, (old_state >> 59u64) as u32)
}

/// Odd increment that selects stream `stream` (the top bit of `stream` is dropped).
pub open spec fn stream_increment(stream: u64) -> u64 {
    ((2 * stream as nat) % pow64() + 1) as u64
}

/// Stream identifier recovered from an increment.
pub open spec fn stream_of(inc: u64) -> u64 {
    (inc as nat / 2) as u64
}

/// State of a freshly seeded generator: step once from zero, add the
/// seed, step once more.
pub open spec fn seeded_state(seed: u64, stream: u64) -> u64 {
    let inc = stream_increment(stream);
    lcg_step(((lcg_step(0, inc) as nat + seed as nat) % pow64()) as u64, inc)
}

/// Seed used for particle `particle_id` of batch `batch`.
pub open spec fn particle_seed(batch: u64, particle_id: u64) -> u64 {
    ((batch as nat * PCG_MULTIPLIER as nat + particle_id as nat) % pow64()) as u64
}

/// State after `n` draws starting from `state` on increment `inc`.
pub open spec fn state_after(state: u64, inc: u64, n: nat) -> u64
    decreases n,
{
    if n == 0 {
        state
    } else {
        lcg_step(state_after(state, inc, (n - 1) as nat), inc)
    }
}

/// The `k`-th word (counting from 0) drawn from a generator in state `(state, inc)`.
pub open spec fn nth_output(state: u64, inc: u64, k: nat) -> u32 {
    pcg_output(state_after(state, inc, k))
}

/// The 53-bit integer behind one uniform draw: 27 high bits of one
/// word followed by 26 high bits of the next.
pub open spec fn uniform_bits_of(state: u64, inc: u64) -> u64 {
    ((nth_output(state, inc, 0) >> 5u32) as nat * 67108864 + (nth_output(state, inc, 1)
        >> 6u32) as nat) as u64
}

/// PCG-XSH-RR 64/32 generator.
#[derive(Debug)]
pub struct Pcg64 {
    state: u64,
    inc: u64,
}

impl View for Pcg64 {
    type V = (u64, u64);

    /// `(state, increment)`.
    closed spec fn view(&self) -> (u64, u64) {
        (self.state, self.inc)
    }
}

impl Pcg64 {
    /// The increment of every generator is odd.
    #[verifier::type_invariant]
    spec fn increment_is_odd(self) -> bool {
        self.inc % 2 == 1
    }
}

impl Clone for Pcg64 {
    fn clone(&self) -> (copy: Self)
        ensures
            copy@ == self@,
    {
        proof {
            use_type_invariant(self);
        }
        Pcg64 { state: self.state, inc: self.inc }
    }
}

proof fn lemma_wrapping_step(state: u64, inc: u64)
    ensures
        vstd::wrapping::u64_specs::wrapping_add(
            vstd::wrapping::u64_specs::wrapping_mul(state, PCG_MULTIPLIER),
            inc,
        ) == lcg_step(state, inc),
{
    let m: int = pow64() as int;
    let p: int = state as int * PCG_MULTIPLIER as int;
    lemma_add_mod_noop(p, inc as int, m);
    lemma_small_mod(inc as nat, m as nat);
    let a: int = p % m;
    lemma_mod_bound(p, m);
    if a + inc > u64::MAX {
        lemma_mod_add_multiples_vanish(a + inc - m, m);
        lemma_small_mod((a + inc - m) as nat, m as nat);
    } else {
        lemma_small_mod((a + inc) as nat, m as nat);
    }
}

proof fn lemma_increment_bits(stream: u64)
    ensures
        (stream << 1u64) | 1u64 == stream_increment(stream),
        stream_increment(stream) % 2 == 1,
{
    assert((stream << 1u64) | 1u64 == (((2 * stream as nat) % pow64()) + 1) as u64)
        by (bit_vector);
    assert(((2 * stream as nat) % pow64()) % 2 == 0) by (bit_vector);
}

fn rotate_right32(x: u32, r: u32) -> (out: u32)
    requires
        r < 32,
    ensures
        out == rotr32(x, r),
{
    if r == 0 {
        x
    } else {
        (x >> r) | (x << (32 - r))
    }
}

impl Pcg64 {
    /// Build a new generator with the given seed and stream identifier.
    /// Different `stream` values yield distinct sequences from the same
    /// `seed` (only the low 63 bits of `stream` take part).
    pub fn new(seed: u64, stream: u64) -> (rng: Self)
        ensures
            rng@ == (seeded_state(seed, stream), stream_increment(stream)),
    {
        proof {
            lemma_increment_bits(stream);
        }
        let inc = (stream << 1) | 1;
        let mut rng = Self { state: 0, inc };
        rng.next_u32();
        rng.state = rng.state.wrapping_add(seed);
        proof {
            let s1 = lcg_step(0, inc);
            if s1 + seed > u64::MAX {
                lemma_mod_add_multiples_vanish(s1 + seed - pow64(), pow64() as int);
                lemma_small_mod((s1 + seed - pow64()) as nat, pow64());
            } else {
                lemma_small_mod((s1 + seed) as nat, pow64());
            }
        }
        rng.next_u32();
        rng
    }

    /// Deterministic per-particle generator: the same
    /// `(batch, particle_id)` always produces the same stream.
    pub fn for_particle(batch: u64, particle_id: u64) -> (rng: Self)
        ensures
            rng@ == (
                seeded_state(particle_seed(batch, particle_id), particle_id),
                stream_increment(particle_id),
            ),
    {
        proof {
            lemma_wrapping_step(batch, particle_id);
        }
        let seed = batch.wrapping_mul(PCG_MULTIPLIER).wrapping_add(particle_id);
        Self::new(seed, particle_id)
    }

    /// Draw the next 32-bit word and advance the state by one step.
    pub fn next_u32(&mut self) -> (word: u32)
        ensures
            word == pcg_output(old(self)@.0),
            final(self)@ == (lcg_step(old(self)@.0, old(self)@.1), old(self)@.1),
    {
        let old_state = self.state;
        proof {
            use_type_invariant(&*self);
            lemma_wrapping_step(old_state, self.inc);
        }
        self.state = old_state.wrapping_mul(PCG_MULTIPLIER).wrapping_add(self.inc);
        let xorshifted = (((old_state >> 18) ^ old_state) >> 27) as u32;
        assert(old_state >> 59u64 < 32) by (bit_vector);
        let rot = (old_state >> 59) as u32;
        rotate_right32(xorshifted, rot)
    }

    /// The 53-bit integer `a · 2^26 + b` behind a uniform draw in
    /// `[0, 1)`: `a` is the next word shifted right by 5, `b` the word
    /// after it shifted right by 6. Dividing by 2^53 gives the sample.
    pub fn uniform_bits(&mut self) -> (bits: u64)
        ensures
            bits == uniform_bits_of(old(self)@.0, old(self)@.1),
            bits < 0x20_0000_0000_0000,
            final(self)@ == (state_after(old(self)@.0, old(self)@.1, 2), old(self)@.1),
    {
        let ghost s0 = self@.0;
        let ghost inc = self@.1;
        let w1 = self.next_u32();
        let w2 = self.next_u32();
        proof {
            reveal_with_fuel(state_after, 3);
            assert(w1 == nth_output(s0, inc, 0));
            assert(w2 == nth_output(s0, inc, 1));
        }
        let hi = w1 >> 5;
        let lo = w2 >> 6;
        assert(hi < 0x800_0000) by (bit_vector)
            requires
                hi == w1 >> 5u32,
        ;
        assert(lo < 0x400_0000) by (bit_vector)
            requires
                lo == w2 >> 6u32,
        ;
        let a = hi as u64;
        let b = lo as u64;
        a * 67_108_864 + b
    }

    /// Current LCG state.
    pub fn state(&self) -> (s: u64)
        ensures
            s == self@.0,
    {
        self.state
    }

    /// Stream identifier (the increment without its low bit). The
    /// increment is odd, so `from_state(self.state(), self.stream())`
    /// rebuilds this very generator.
    pub fn stream(&self) -> (s: u64)
        ensures
            s == stream_of(self@.1),
            self@.1 % 2 == 1,
            stream_increment(s) == self@.1,
    {
        proof {
            use_type_invariant(self);
            law_save_restore_round_trip(self@);
        }
        let inc = self.inc;
        assert(inc >> 1u64 == (inc as nat / 2) as u64) by (bit_vector);
        inc >> 1
    }

    /// Reconstruct a generator from a saved `(state, stream)` pair.
    pub fn from_state(state: u64, stream: u64) -> (rng: Self)
        ensures
            rng@ == (state, stream_increment(stream)),
    {
        proof {
            lemma_increment_bits(stream);
        }
        Self { state, inc: (stream << 1) | 1 }
    }
}


/// Increment of the plain 64-bit LCG that seeds the starting vectors of
/// the greedy CP decomposition.
pub const CP_SEED_INCREMENT: u64 = 1442695040888963407;

/// Advance the CP seeding LCG by one step and return the 31 high bits of
/// the new state (the caller maps them onto `[-1, 1)`).
pub fn lcg_draw31(state: &mut u64) -> (bits: u32)
    ensures
        *final(state) == lcg_step(*old(state), CP_SEED_INCREMENT),
        bits as u64 == *final(state) >> 33u64,
        bits < 0x8000_0000,
{
    proof {
        lemma_wrapping_step(*state, CP_SEED_INCREMENT);
    }
    *state = state.wrapping_mul(PCG_MULTIPLIER).wrapping_add(CP_SEED_INCREMENT);
    let s = *state;
    assert(s >> 33u64 < 0x8000_0000) by (bit_vector);
    (s >> 33) as u32
}

/// Saving a generator as `(state(), stream())` and rebuilding it with
/// `from_state` gives back the very same generator: every generator's
/// increment is odd, and an odd increment is determined by its stream.
pub proof fn law_save_restore_round_trip(saved: (u64, u64))
    requires
        saved.1 % 2 == 1,
    ensures
        (saved.0, stream_increment(stream_of(saved.1))) == saved,
{
    let inc = saved.1;
    assert(inc % 2 == 1 ==> ((2 * ((inc as nat / 2) as u64) as nat) % pow64() + 1) as u64 == inc)
        by (bit_vector);
}

/// The stream reported by a generator built for stream `stream` is
/// `stream` with its top bit cleared.
pub proof fn law_stream_survives_construction(stream: u64)
    ensures
        stream_of(stream_increment(stream)) == stream as nat % 0x8000_0000_0000_0000,
        stream_increment(stream) % 2 == 1,
{
    assert(((((2 * stream as nat) % pow64() + 1) as u64) as nat / 2) as u64 == stream as nat
        % 0x8000_0000_0000_0000) by (bit_vector);
    lemma_increment_bits(stream);
}

/// Two particles with different identifiers below 2^63 are placed on
/// different streams, whatever the batch.
pub proof fn law_distinct_particles_distinct_streams(p1: u64, p2: u64)
    requires
        p1 != p2,
        p1 < 0x8000_0000_0000_0000,
        p2 < 0x8000_0000_0000_0000,
    ensures
        stream_increment(p1) != stream_increment(p2),
{
    law_stream_survives_construction(p1);
    law_stream_survives_construction(p2);
}

} // verus!
