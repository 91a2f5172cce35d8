//! Seeded pseudo-random number generation for the Gaussian noise field.
//!
//! `SplitMix` expands a single seed word into the four state words of
//! `Xoshiro256plus`, which then yields the stream of uniform draws.

use vstd::prelude::*;

verus! {

/// Increment that `SplitMix` adds to its state on every draw.
pub const SPLITMIX_GAMMA: u64 = 0x9e3779b97f4a7c15;

/// First multiplier of the `SplitMix` output mix.
pub const SPLITMIX_MUL_A: u64 = 0xbf58476d1ce4e5b9;

/// Second multiplier of the `SplitMix` output mix.
pub const SPLITMIX_MUL_B: u64 = 0x94d049bb133111eb;

/// Product of two words, reduced modulo 2^64.
pub open spec fn mul_mod64(a: u64, b: u64) -> u64 {
    ((a as nat * b as nat) % 0x1_0000_0000_0000_0000nat) as u64
}

/// Sum of two words, reduced modulo 2^64.
pub open spec fn add_mod64(a: u64, b: u64) -> u64 {
    ((a as nat + b as nat) % 0x1_0000_0000_0000_0000nat) as u64
}

/// State of a `SplitMix` generator after one draw from state `s`.
pub open spec fn splitmix_advance(s: u64) -> u64 {
    add_mod64(s, SPLITMIX_GAMMA)
}

/// Output word that a `SplitMix` generator derives from its (already advanced) state.
pub open spec fn splitmix_mix(s: u64) -> u64 {
    let a = mul_mod64(s ^ (s >> 30), SPLITMIX_MUL_A);
    let b = mul_mod64(a ^ (a >> 27), SPLITMIX_MUL_B);
    b ^ (b >> 31)
}

/// The `i`-th output (counting from zero) of a `SplitMix` generator seeded with `seed`.
pub open spec fn splitmix_output(seed: u64, i: nat) -> u64
    decreases i,
{
    if i == 0 {
        splitmix_mix(splitmix_advance(seed))
    } else {
        splitmix_output(splitmix_advance(seed), (i - 1) as nat)
    }
}

/// The SplitMix64 generator: a 64-bit counter with an avalanche output mix.
pub struct SplitMix {
    seed: u64,
}

impl SplitMix {
    /// The current counter word.
    pub closed spec fn state(&self) -> u64 {
        self.seed
    }

    /// A generator whose counter starts at `seed`.
    pub fn new(seed: u64) -> (rng: Self)
        ensures
            rng.state() == seed,
    {
        SplitMix { seed }
    }

    /// Advances the counter by the golden-ratio increment and returns the mixed word.
    pub fn next(&mut self) -> (z: u64)
        ensures
            final(self).state() == splitmix_advance(old(self).state()),
            z == splitmix_mix(final(self).state()),
            z == splitmix_output(old(self).state(), 0),
    {
        self.seed = self.seed.wrapping_add(SPLITMIX_GAMMA);
        let mut z: u64 = self.seed;
        z = (z ^ (z >> 30)).wrapping_mul(SPLITMIX_MUL_A);
        z = (z ^ (z >> 27)).wrapping_mul(SPLITMIX_MUL_B);
        z ^ (z >> 31)
    }
}

/// State of the four-word generator: the words in index order.
pub struct XoshiroState {
    /// Word 0.
    pub s0: u64,
    /// Word 1.
    pub s1: u64,
    /// Word 2.
    pub s2: u64,
    /// Word 3.
    pub s3: u64,
}

/// `x` rotated left by `k` bit positions, for `0 < k < 64`.
pub open spec fn rotate_left64(x: u64, k: u64) -> u64 {
    (x << k) | (x >> ((64 - k) as u64))
}

/// The state that follows `s` after one draw.
pub open spec fn xoshiro_step(s: XoshiroState) -> XoshiroState {
    let t = s.s1 << 17u64;
    let m2 = s.s2 ^ s.s0;
    let m3 = s.s3 ^ s.s1;
    let m1 = s.s1 ^ m2;
    let m0 = s.s0 ^ m3;
    XoshiroState { s0: m0, s1: m1, s2: m2 ^ t, s3: rotate_left64(m3, 45) }
}

/// The 53-bit integer that a draw from state `s` yields: the top 53 bits of
/// the sum of the outer state words. Divided by 2^53 it is the uniform
/// variate in `[0, 1)`.
pub open spec fn xoshiro_draw(s: XoshiroState) -> u64 {
    add_mod64(s.s0, s.s3) >> 11u64
}

/// The state that seeding with `seed` produces: four consecutive `SplitMix` outputs.
pub open spec fn xoshiro_seeded(seed: u64) -> XoshiroState {
    XoshiroState {
        s0: splitmix_output(seed, 0),
        s1: splitmix_output(seed, 1),
        s2: splitmix_output(seed, 2),
        s3: splitmix_output(seed, 3),
    }
}

/// The state reached from `s` after `n` draws.
pub open spec fn xoshiro_state_after(s: XoshiroState, n: nat) -> XoshiroState
    decreases n,
{
    if n == 0 {
        s
    } else {
        xoshiro_step(xoshiro_state_after(s, (n - 1) as nat))
    }
}

/// The `i`-th draw (counting from zero) of a generator seeded with `seed`.
pub open spec fn uniform_draw(seed: u64, i: nat) -> u64 {
    xoshiro_draw(xoshiro_state_after(xoshiro_seeded(seed), i))
}

/// The xoshiro256+ generator.
pub struct Xoshiro256plus {
    seed: [u64; 4],
}

impl View for Xoshiro256plus {
    type V = XoshiroState;

    closed spec fn view(&self) -> XoshiroState {
        XoshiroState { s0: self.seed[0], s1: self.seed[1], s2: self.seed[2], s3: self.seed[3] }
    }
}

impl Xoshiro256plus {
    /// Rotates `x` left by `k` bits.
    pub fn rol64(x: u64, k: i32) -> (r: u64)
        requires
            0 < k < 64,
        ensures
            r == rotate_left64(x, k as u64),
    {
        (x << k) | (x >> (64 - k))
    }

    /// Seeds the four state words from consecutive `SplitMix` outputs.
    pub fn new(seed: u64) -> (rng: Self)
        ensures
            rng@ == xoshiro_seeded(seed),
    {
        let mut rng = SplitMix::new(seed);
        let a = rng.next();
        let b = rng.next();
        let c = rng.next();
        let d = rng.next();
        proof {
            reveal_with_fuel(splitmix_output, 4);
        }
        Xoshiro256plus { seed: [a, b, c, d] }
    }

    /// Draws the next 53-bit integer and advances the state.
    pub fn next(&mut self) -> (r: u64)
        ensures
            r == xoshiro_draw(old(self)@),
            final(self)@ == xoshiro_step(old(self)@),
            r < 0x20_0000_0000_0000,
    {
        let s0 = self.seed[0];
        let s1 = self.seed[1];
        let s2 = self.seed[2];
        let s3 = self.seed[3];
        let result = s0.wrapping_add(s3);
        let t = s1 << 17;
        let m2 = s2 ^ s0;
        let m3 = s3 ^ s1;
        let m1 = s1 ^ m2;
        let m0 = s0 ^ m3;
        self.seed = [m0, m1, m2 ^ t, Xoshiro256plus::rol64(m3, 45)];
        let r = result >> 11;
        assert(r < 0x20_0000_0000_0000) by (bit_vector)
            requires
                r == result >> 11,
        ;
        r
    }
}

} // verus!
