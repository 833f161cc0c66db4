//! A tiny deterministic PRNG so that beanification is fully reproducible.
use vstd::prelude::*;
use vstd::wrapping::u64_specs::{wrapping_add, wrapping_mul};

verus! {

/// FNV-1a 64-bit offset basis.
pub const FNV_OFFSET: u64 = 0xcbf2_9ce4_8422_2325;

/// FNV-1a 64-bit prime.
pub const FNV_PRIME: u64 = 0x0000_0100_0000_01b3;

/// The splitmix64 increment (the golden-ratio constant).
pub const GOLDEN_GAMMA: u64 = 0x9E37_79B9_7F4A_7C15;

/// FNV-1a hash of a byte sequence: start from the offset basis, then for each
/// byte xor it in and multiply by the prime, modulo 2^64.
pub open spec fn fnv1a_spec(bytes: Seq<u8>) -> u64
    decreases bytes.len(),
{
    if bytes.len() == 0 {
        FNV_OFFSET
    } else {
        wrapping_mul(fnv1a_spec(bytes.drop_last()) ^ (bytes.last() as u64), FNV_PRIME)
    }
}

/// FNV-1a 64-bit hash of a byte slice.
pub fn fnv1a(bytes: &[u8]) -> (hash: u64)
    ensures
        hash == fnv1a_spec(bytes@),
{
    let mut hash: u64 = FNV_OFFSET;
    let mut i: usize = 0;
    while i < bytes.len()
        invariant
            i <= bytes.len(),
            hash == fnv1a_spec(bytes@.take(i as int)),
        decreases bytes.len() - i,
    {
        let b = bytes[i];
        assert(bytes@.take(i + 1).drop_last() =~= bytes@.take(i as int));
        hash = (hash ^ (b as u64)).wrapping_mul(FNV_PRIME);
        i = i + 1;
    }
    assert(bytes@.take(bytes.len() as int) =~= bytes@);
    hash
}

/// The splitmix64 output function applied to an already-advanced state.
#[verifier::opaque]
pub open spec fn mix(state: u64) -> u64 {
    let z1 = wrapping_mul(state ^ (state >> 30u64), 0xBF58_476D_1CE4_E5B9u64);
    let z2 = wrapping_mul(z1 ^ (z1 >> 27u64), 0x94D0_49BB_1331_11EBu64);
    z2 ^ (z2 >> 31u64)
}

/// The state of a generator seeded with `seed` after `k` draws.
pub open spec fn state_after(seed: u64, k: nat) -> u64
    decreases k,
{
    if k == 0 {
        seed
    } else {
        wrapping_add(state_after(seed, (k - 1) as nat), GOLDEN_GAMMA)
    }
}

/// The `k`-th value (counting from 1) drawn from a generator whose state is `seed`.
pub open spec fn draw(seed: u64, k: nat) -> u64 {
    mix(state_after(seed, k))
}

/// The probability 1 in the fixed-point scale used by [`Rng::chance`]: a
/// probability `p` in `0.0..=1.0` stands as `ceil(p * 2^53)`.
pub const CHANCE_ONE: u64 = 9_007_199_254_740_992;

/// Whether a drawn value counts as a hit for the fixed-point probability
/// `prob`: its top 53 bits, read as a fraction of 2^53, fall below `prob / 2^53`.
pub open spec fn chance_hit(value: u64, prob: u64) -> bool {
    (value >> 11u64) < prob
}

/// A `splitmix64` generator: small, fast, and stable across platforms.
#[derive(Debug, Clone)]
pub struct Rng {
    state: u64,
}

impl View for Rng {
    type V = u64;

    /// The generator's state.
    closed spec fn view(&self) -> u64 {
        self.state
    }
}

impl Rng {
    /// Seed the generator directly.
    pub fn seeded(seed: u64) -> (rng: Rng)
        ensures
            rng@ == seed,
    {
        Rng { state: seed }
    }

    /// Seed the generator from arbitrary bytes: the FNV-1a hash of the bytes,
    /// xored with `salt`.
    pub fn from_bytes(bytes: &[u8], salt: u64) -> (rng: Rng)
        ensures
            rng@ == fnv1a_spec(bytes@) ^ salt,
    {
        Rng::seeded(fnv1a(bytes) ^ salt)
    }

    /// Draw the next 64-bit value.
    pub fn next_u64(&mut self) -> (value: u64)
        ensures
            final(self)@ == wrapping_add(old(self)@, GOLDEN_GAMMA),
            value == mix(final(self)@),
    {
        proof {
            reveal(mix);
        }
        self.state = self.state.wrapping_add(GOLDEN_GAMMA);
        let mut z = self.state;
        z = (z ^ (z >> 30u64)).wrapping_mul(0xBF58_476D_1CE4_E5B9u64);
        z = (z ^ (z >> 27u64)).wrapping_mul(0x94D0_49BB_1331_11EBu64);
        z ^ (z >> 31u64)
    }

    /// Draw a value in `0..n`. Returns 0 when `n == 0`, without drawing.
    pub fn below(&mut self, n: usize) -> (r: usize)
        ensures
            n == 0 ==> r == 0 && final(self)@ == old(self)@,
            n > 0 ==> final(self)@ == wrapping_add(old(self)@, GOLDEN_GAMMA) && r as int == mix(
                final(self)@,
            ) as int % n as int,
            n > 0 ==> r < n,
    {
        if n == 0 {
            return 0;
        }
        let v = self.next_u64();
        (v % (n as u64)) as usize
    }

    /// Pick a reference to one element of a non-empty slice.
    pub fn pick<'a, T>(&mut self, items: &'a [T]) -> (r: &'a T)
        requires
            items@.len() > 0,
        ensures
            final(self)@ == wrapping_add(old(self)@, GOLDEN_GAMMA),
            *r == items@[mix(final(self)@) as int % items@.len() as int],
    {
        let i = self.below(items.len());
        &items[i]
    }

    /// Return `true` with probability `prob / 2^53`, where `prob` is a
    /// probability in the fixed-point scale of [`CHANCE_ONE`]; values at or
    /// above [`CHANCE_ONE`] always hit.
    pub fn chance(&mut self, prob: u64) -> (hit: bool)
        ensures
            final(self)@ == wrapping_add(old(self)@, GOLDEN_GAMMA),
            hit == chance_hit(mix(final(self)@), prob),
            prob == 0 ==> !hit,
            prob >= CHANCE_ONE ==> hit,
    {
        let v = self.next_u64();
        proof {
            assert(v >> 11u64 < 9_007_199_254_740_992u64) by (bit_vector);
        }
        (v >> 11u64) < prob
    }
}

} // verus!
