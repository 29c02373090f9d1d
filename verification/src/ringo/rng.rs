use vstd::prelude::*;

use super::hashing::{hash_3d, hash_value};

verus! {

/// One step of the linear congruential generator:
/// `seed * 1664525 + 1013904223` (modulo 2^32).
pub open spec fn rotated(seed: u32) -> u32 {
    ((seed as int * 1_664_525 + 1_013_904_223) % 0x1_0000_0000) as u32
}

/// `seed` hashed against `mutagen`: `31 * seed + 127 * mutagen` (modulo 2^32).
pub open spec fn mutated(seed: u32, mutagen: u32) -> u32 {
    hash_value(0, seed as int, mutagen as int)
}

/// The bit pattern of a 32-bit float in [1, 2) made from the high bits of
/// `seed`: sign 0, exponent 127, mantissa the top 23 bits of `seed`.
pub open spec fn unit_bits(seed: u32) -> u32 {
    (seed >> 9u32) | 1_065_353_216u32
}

/// Holds the seed value for pseudorandom number generation.
#[derive(Clone, Copy, PartialEq, Eq, Structural, Debug)]
pub struct Seed(u32);

impl Seed {
    /// The seed value.
    pub closed spec fn value(&self) -> u32 {
        self.0
    }

    /// Rotates the seed to its next value.
    pub fn rotate(&mut self) -> (s: &Self)
        ensures
            final(self).value() == rotated(old(self).value()),
            s.value() == rotated(old(self).value()),
    {
        proof {
            let v = self.0;
            assert(vstd::wrapping::u32_specs::wrapping_mul(v, 1_664_525) as int == (v as int
                * 1_664_525) % 0x1_0000_0000);
            vstd::arithmetic::div_mod::lemma_add_mod_noop(
                v as int * 1_664_525,
                1_013_904_223,
                0x1_0000_0000,
            );
        }
        self.0 = self.0.wrapping_mul(1_664_525).wrapping_add(1_013_904_223);
        self
    }

    /// Mutates the seed by hashing it against `mutagen`.
    pub fn mutate(&mut self, mutagen: u32) -> (s: &Self)
        ensures
            final(self).value() == mutated(old(self).value(), mutagen),
            s.value() == mutated(old(self).value(), mutagen),
    {
        self.0 = hash_3d(0, self.0, mutagen);
        self
    }

    /// The current value.
    pub fn get(&self) -> (v: u32)
        ensures
            v == self.value(),
    {
        self.0
    }

    /// A copy of the seed.
    pub fn copy(&self) -> (s: Self)
        ensures
            s == *self,
    {
        Seed(self.0)
    }

    /// A copy of the seed, rotated.
    pub fn copy_and_rotate(&self) -> (s: Self)
        ensures
            s.value() == rotated(self.value()),
    {
        let mut s = Seed(self.0);
        s.rotate();
        s
    }
}

/// Generates pseudorandom numbers from a stored seed, remembering the seed it
/// started from.
#[derive(Clone, Copy, PartialEq, Eq, Structural, Debug)]
pub struct Rng {
    original_seed: Seed,
    seed: Seed,
}

impl Rng {
    /// The seed the generator started from.
    pub closed spec fn original(&self) -> u32 {
        self.original_seed.0
    }

    /// The current seed.
    pub closed spec fn current(&self) -> u32 {
        self.seed.0
    }

    /// A generator starting from `seed`.
    pub fn new(seed: u32) -> (r: Self)
        ensures
            r.original() == seed,
            r.current() == seed,
    {
        Rng { seed: Seed(seed), original_seed: Seed(seed) }
    }

    /// A generator starting from an existing seed.
    pub fn from_seed(seed: Seed) -> (r: Self)
        ensures
            r.original() == seed.value(),
            r.current() == seed.value(),
    {
        Rng { seed, original_seed: seed }
    }

    /// Rotates the seed and returns the bit pattern of a 32-bit float in
    /// [1, 2) made from its top 23 bits.
    pub fn next_unit_bits(&mut self) -> (bits: u32)
        ensures
            final(self).current() == rotated(old(self).current()),
            final(self).original() == old(self).original(),
            bits == unit_bits(final(self).current()),
            0x3F80_0000 <= bits <= 0x3FFF_FFFF,
    {
        self.seed.rotate();
        let s = self.seed.get();
        assert(0x3F80_0000u32 <= ((s >> 9u32) | 1_065_353_216u32) <= 0x3FFF_FFFFu32) by (bit_vector);
        s >> 9u32 | 1_065_353_216u32
    }

    /// The seed the generator started from.
    pub fn get_seed(&self) -> (s: Seed)
        ensures
            s.value() == self.original(),
    {
        self.original_seed
    }

    /// Puts the seed back to the one the generator started from.
    pub fn reset(&mut self) -> (r: &Self)
        ensures
            final(self).current() == old(self).original(),
            final(self).original() == old(self).original(),
            r.current() == old(self).original(),
            r.original() == old(self).original(),
    {
        self.seed = self.original_seed;
        self
    }

    /// A child generator whose seed is this generator's original seed,
    /// rotated, then mutated by the original seed. It depends on the original
    /// seed alone, so every child spawned from one generator is the same.
    pub fn spawn(&mut self) -> (child: Self)
        ensures
            child.original() == mutated(rotated(old(self).original()), old(self).original()),
            child.current() == child.original(),
            *final(self) == *old(self),
    {
        let mut rotated_seed = self.original_seed.copy_and_rotate();
        let new_seed = *rotated_seed.mutate(self.original_seed.get());
        Rng { original_seed: new_seed, seed: new_seed }
    }

    /// A child generator whose seed is this generator's original seed
    /// mutated by `mutagen`.
    pub fn spawn_mutated(&mut self, mutagen: u32) -> (child: Self)
        ensures
            child.original() == mutated(old(self).original(), mutagen),
            child.current() == child.original(),
            *final(self) == *old(self),
    {
        let mut copied = self.original_seed.copy();
        let new_seed = *copied.mutate(mutagen);
        Rng { original_seed: new_seed, seed: new_seed }
    }

    /// A copy of the generator in its current state.
    pub fn copy(&self) -> (r: Self)
        ensures
            r == *self,
    {
        Rng { original_seed: self.original_seed, seed: self.seed }
    }

    /// A copy of the generator put back to its original seed.
    pub fn copy_and_reset(&self) -> (r: Self)
        ensures
            r.original() == self.original(),
            r.current() == self.original(),
    {
        let mut r = self.copy();
        r.reset();
        r
    }
}

/// Resetting a generator makes it produce again the values it produced from
/// its original seed: after `reset`, the generator is the one `new` makes from
/// that seed.
pub proof fn law_reset_restarts(g: Rng, after_reset: Rng, fresh: Rng)
    requires
        after_reset.current() == g.original(),
        after_reset.original() == g.original(),
        fresh.current() == g.original(),
        fresh.original() == g.original(),
    ensures
        after_reset == fresh,
{
}

/// Two generators in the same state produce the same next value and end in
/// the same state.
pub proof fn law_deterministic(a: Rng, b: Rng)
    requires
        a == b,
    ensures
        rotated(a.current()) == rotated(b.current()),
        unit_bits(rotated(a.current())) == unit_bits(rotated(b.current())),
{
}

/// A step of the generator is the affine map `s -> 1664525 s + 1013904223`
/// in 32-bit arithmetic: the new seed, a 32-bit value, is congruent to it
/// modulo 2^32, which fixes it among all 32-bit values.
pub proof fn law_rotation_is_affine(s: u32)
    ensures
        (rotated(s) as int) % 0x1_0000_0000 == (1_664_525 * (s as int) + 1_013_904_223)
            % 0x1_0000_0000,
{
    let a = 1_664_525 * (s as int) + 1_013_904_223;
    vstd::arithmetic::div_mod::lemma_mod_pos_bound(a, 0x1_0000_0000);
    vstd::arithmetic::div_mod::lemma_mod_twice(a, 0x1_0000_0000);
}

/// Two seeds one apart rotate to seeds whose difference is the multiplier,
/// modulo 2^32.
pub proof fn law_rotation_steps_by_multiplier(s: u32)
    requires
        s < u32::MAX,
    ensures
        ((rotated((s + 1) as u32) as int) - (rotated(s) as int)) % 0x1_0000_0000 == 1_664_525,
{
    let m: int = 0x1_0000_0000;
    let a = 1_664_525 * (s as int) + 1_013_904_223;
    let b = a + 1_664_525;
    assert(1_664_525 * ((s + 1) as u32 as int) + 1_013_904_223 == b);
    vstd::arithmetic::div_mod::lemma_mod_pos_bound(a, m);
    vstd::arithmetic::div_mod::lemma_mod_pos_bound(b, m);
    vstd::arithmetic::div_mod::lemma_fundamental_div_mod(a, m);
    vstd::arithmetic::div_mod::lemma_fundamental_div_mod(b, m);
    let d = b % m - a % m;
    assert(d == 1_664_525 + m * (a / m - b / m)) by (nonlinear_arith)
        requires
            a == m * (a / m) + a % m,
            b == m * (b / m) + b % m,
            b == a + 1_664_525,
            d == b % m - a % m,
    ;
    vstd::arithmetic::div_mod::lemma_mod_multiples_vanish(a / m - b / m, 1_664_525, m);
    vstd::arithmetic::div_mod::lemma_small_mod(1_664_525, m as nat);
}

/// Mutating a seed hashes it against the mutagen with the hash's own
/// weights: the new seed is congruent to `31 seed + 127 mutagen` modulo 2^32.
pub proof fn law_mutation_is_weighted_sum(seed: u32, mutagen: u32)
    ensures
        (mutated(seed, mutagen) as int) % 0x1_0000_0000 == (31 * (seed as int) + 127
            * (mutagen as int)) % 0x1_0000_0000,
{
    let a = 31 * (seed as int) + 127 * (mutagen as int);
    assert(17 * 0 + 31 * (seed as int) + 127 * (mutagen as int) == a);
    vstd::arithmetic::div_mod::lemma_mod_pos_bound(a, 0x1_0000_0000);
    vstd::arithmetic::div_mod::lemma_mod_twice(a, 0x1_0000_0000);
}

/// The float bits drawn from a seed are those of `1 + (seed / 2^9) / 2^23`:
/// the exponent of 1.0 plus the seed's top 23 bits as the fraction.
pub proof fn law_unit_bits_scale_the_seed(seed: u32)
    ensures
        unit_bits(seed) as int == 0x3F80_0000 + (seed as int) / 512,
{
    assert((seed >> 9u32) | 1_065_353_216u32 == 1_065_353_216u32 + seed / 512u32) by (bit_vector);
}

} // verus!
