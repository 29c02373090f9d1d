use vstd::prelude::*;

verus! {

/// `17x + 31y + 127z` in 32-bit arithmetic (modulo 2^32).
pub open spec fn hash_value(x: int, y: int, z: int) -> u32 {
    ((17 * x + 31 * y + 127 * z) % 0x1_0000_0000) as u32
}

proof fn lemma_shift_is_mul(x: u32, s: u32, m: u32)
    requires
        s < 32,
        m == (1u32 << s),
    ensures
        (x << s) as int == ((x as int) * (m as int)) % 0x1_0000_0000,
{
    assert((x << s) == ((x as u64 * m as u64) % 0x1_0000_0000) as u32) by (bit_vector)
        requires
            s < 32,
            m == (1u32 << s),
    ;
    assert((x as u64 * m as u64) as int == (x as int) * (m as int)) by (nonlinear_arith);
}

proof fn lemma_mod_sum(a: int, b: int)
    ensures
        ((a % 0x1_0000_0000) + (b % 0x1_0000_0000)) % 0x1_0000_0000 == (a + b) % 0x1_0000_0000,
{
    vstd::arithmetic::div_mod::lemma_add_mod_noop(a, b, 0x1_0000_0000);
}

proof fn lemma_mod_diff(a: int, b: int)
    ensures
        ((a % 0x1_0000_0000) - (b % 0x1_0000_0000)) % 0x1_0000_0000 == (a - b) % 0x1_0000_0000,
{
    vstd::arithmetic::div_mod::lemma_sub_mod_noop(a, b, 0x1_0000_0000);
}

/// Calculates *`17x`* (modulo 2^32).
pub fn hash_1d(x: u32) -> (h: u32)
    ensures
        h == hash_value(x as int, 0, 0),
{
    let shifted: u32 = x << 4u32;
    proof {
        assert((1u32 << 4u32) == 16u32) by (bit_vector);
        lemma_shift_is_mul(x, 4, 16);
        lemma_mod_sum(16 * x, x as int);
        assert(x as int % 0x1_0000_0000 == x as int);
    }
    shifted.wrapping_add(x)
}

/// Calculates *`17x + 31y`* (modulo 2^32).
pub fn hash_2d(x: u32, y: u32) -> (h: u32)
    ensures
        h == hash_value(x as int, y as int, 0),
{
    let shifted: u32 = y << 5u32;
    let part: u32 = shifted.wrapping_sub(y);
    proof {
        assert((1u32 << 5u32) == 32u32) by (bit_vector);
        lemma_shift_is_mul(y, 5, 32);
        assert(y as int % 0x1_0000_0000 == y as int);
        lemma_mod_diff(32 * y, y as int);
        assert(part as int == (31 * y) % 0x1_0000_0000);
        lemma_mod_sum(17 * x, 31 * y);
    }
    hash_1d(x).wrapping_add(part)
}

/// Calculates *`17x + 31y + 127z`* (modulo 2^32).
pub fn hash_3d(x: u32, y: u32, z: u32) -> (h: u32)
    ensures
        h == hash_value(x as int, y as int, z as int),
{
    let shifted: u32 = z << 7u32;
    let part: u32 = shifted.wrapping_sub(z);
    proof {
        assert((1u32 << 7u32) == 128u32) by (bit_vector);
        lemma_shift_is_mul(z, 7, 128);
        assert(z as int % 0x1_0000_0000 == z as int);
        lemma_mod_diff(128 * z, z as int);
        assert(part as int == (127 * z) % 0x1_0000_0000);
        lemma_mod_sum(17 * x + 31 * y, 127 * z);
    }
    hash_2d(x, y).wrapping_add(part)
}

/// The hash is linear with weights 17, 31 and 127: it is the 32-bit value
/// congruent to `17x + 31y + 127z` modulo 2^32.
pub proof fn law_hash_is_weighted_sum(x: u32, y: u32, z: u32)
    ensures
        (hash_value(x as int, y as int, z as int) as int) % 0x1_0000_0000 == (17 * (x as int) + 31
            * (y as int) + 127 * (z as int)) % 0x1_0000_0000,
{
    let a = 17 * (x as int) + 31 * (y as int) + 127 * (z as int);
    vstd::arithmetic::div_mod::lemma_mod_pos_bound(a, 0x1_0000_0000);
    vstd::arithmetic::div_mod::lemma_mod_twice(a, 0x1_0000_0000);
}

/// Hashing in one or two dimensions is hashing in three with the missing
/// coordinates zero, so each added coordinate adds its own weighted term.
pub proof fn law_hash_adds_coordinates(x: u32, y: u32, z: u32)
    ensures
        (hash_value(x as int, y as int, z as int) as int) % 0x1_0000_0000 == ((hash_value(
            x as int,
            0,
            0,
        ) as int) + 31 * (y as int) + 127 * (z as int)) % 0x1_0000_0000,
{
    let m: int = 0x1_0000_0000;
    let a = 17 * (x as int);
    let rest = 31 * (y as int) + 127 * (z as int);
    vstd::arithmetic::div_mod::lemma_mod_pos_bound(a, m);
    vstd::arithmetic::div_mod::lemma_mod_pos_bound(a + rest, m);
    vstd::arithmetic::div_mod::lemma_add_mod_noop(a, rest, m);
    vstd::arithmetic::div_mod::lemma_add_mod_noop(a % m, rest, m);
    vstd::arithmetic::div_mod::lemma_mod_twice(a, m);
    vstd::arithmetic::div_mod::lemma_mod_twice(a + rest, m);
}

} // verus!

