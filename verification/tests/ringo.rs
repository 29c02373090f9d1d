use engine::ringo::hashing::{hash_1d, hash_2d, hash_3d};
use engine::ringo::rng::Rng;

#[test]
fn hashes_are_the_documented_sums() {
    assert_eq!(hash_1d(1), 17);
    assert_eq!(hash_1d(10), 170);
    assert_eq!(hash_2d(1, 1), 48);
    assert_eq!(hash_2d(2, 3), 34 + 93);
    assert_eq!(hash_3d(1, 1, 1), 175);
    assert_eq!(hash_3d(0, 2, 5), 62 + 635);
}

#[test]
fn hashes_wrap_modulo_two_to_the_32() {
    assert_eq!(hash_1d(u32::MAX), u32::MAX - 16);
    assert_eq!(hash_2d(0, u32::MAX), u32::MAX - 30);
    assert_eq!(hash_3d(0, 0, u32::MAX), u32::MAX - 126);
}

#[test]
fn rotation_is_the_linear_congruential_step() {
    let seed = Rng::new(0).get_seed();
    let rotated = seed.copy_and_rotate();
    assert_eq!(rotated.get(), 1_013_904_223);
    let mut twice = rotated.copy();
    twice.rotate();
    assert_eq!(
        twice.get(),
        1_013_904_223u32.wrapping_mul(1_664_525).wrapping_add(1_013_904_223)
    );
    assert_eq!(seed.get(), 0);
}

#[test]
fn mutate_hashes_the_seed_against_the_mutagen() {
    let mut seed = Rng::new(2).get_seed();
    seed.mutate(3);
    assert_eq!(seed.get(), 31 * 2 + 127 * 3);
}

#[test]
fn unit_bits_are_a_float_in_one_to_two() {
    let mut rng = Rng::new(0);
    let bits = rng.next_unit_bits();
    assert_eq!(bits, (1_013_904_223u32 >> 9) | 0x3F80_0000);
    let value = f32::from_bits(bits);
    assert!(value >= 1.0 && value < 2.0);
}

#[test]
fn reset_replays_the_same_values() {
    let mut rng = Rng::new(42);
    let a = rng.next_unit_bits();
    let b = rng.next_unit_bits();
    rng.reset();
    assert_eq!(rng.next_unit_bits(), a);
    assert_eq!(rng.next_unit_bits(), b);
    assert_eq!(rng.get_seed().get(), 42);
}

#[test]
fn copy_and_reset_start_over_and_copy_keeps_the_state() {
    let mut rng = Rng::new(7);
    rng.next_unit_bits();
    let copy = rng.copy();
    assert_eq!(copy, rng);
    assert_eq!(rng.copy_and_reset(), Rng::new(7));
    assert_eq!(Rng::from_seed(rng.get_seed()), Rng::new(7));
}

#[test]
fn spawned_children_are_duplicates() {
    let mut rng = Rng::new(5);
    let first = rng.spawn();
    rng.next_unit_bits();
    let second = rng.spawn();
    assert_eq!(first, second);
    let rotated = 5u32.wrapping_mul(1_664_525).wrapping_add(1_013_904_223);
    let expected_seed = rotated.wrapping_mul(31).wrapping_add(127 * 5);
    assert_eq!(first.get_seed().get(), expected_seed);
}

#[test]
fn spawn_mutated_depends_on_the_mutagen() {
    let mut rng = Rng::new(1);
    let a = rng.spawn_mutated(1);
    let b = rng.spawn_mutated(2);
    assert_eq!(a.get_seed().get(), 31 + 127);
    assert_eq!(b.get_seed().get(), 31 + 254);
    assert_ne!(a, b);
}
