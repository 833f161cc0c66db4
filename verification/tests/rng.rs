use beanifier::rng::{fnv1a, Rng, CHANCE_ONE};

#[test]
fn fnv1a_matches_known_vector() {
    // Well-known FNV-1a 64-bit test vector for the empty string.
    assert_eq!(fnv1a(b""), 0xcbf2_9ce4_8422_2325);
}

#[test]
fn fnv1a_known_vectors_for_text() {
    assert_eq!(fnv1a(b"a"), 0xaf63_dc4c_8601_ec8c);
    assert_eq!(fnv1a(b"hello"), 0xa430_d846_80aa_bd0b);
}

#[test]
fn same_seed_same_sequence() {
    let mut a = Rng::seeded(42);
    let mut b = Rng::seeded(42);
    for _ in 0..100 {
        assert_eq!(a.next_u64(), b.next_u64());
    }
}

#[test]
fn different_seeds_diverge() {
    let mut a = Rng::seeded(1);
    let mut b = Rng::seeded(2);
    assert_ne!(a.next_u64(), b.next_u64());
}

#[test]
fn splitmix64_known_outputs() {
    let mut r = Rng::seeded(0);
    assert_eq!(r.next_u64(), 0xe220_a839_7b1d_cdaf);
    assert_eq!(r.next_u64(), 0x6e78_9e6a_a1b9_65f4);
    let mut r = Rng::seeded(42);
    assert_eq!(r.next_u64(), 13679457532755275413);
    assert_eq!(r.next_u64(), 2949826092126892291);
    assert_eq!(r.next_u64(), 5139283748462763858);
}

#[test]
fn from_bytes_seeds_with_hash_xor_salt() {
    let mut a = Rng::from_bytes(b"hello", 7);
    let mut b = Rng::seeded(0xa430_d846_80aa_bd0b ^ 7);
    assert_eq!(a.next_u64(), b.next_u64());
}

#[test]
fn below_is_in_range() {
    let mut r = Rng::seeded(7);
    for _ in 0..1000 {
        assert!(r.below(10) < 10);
    }
    assert_eq!(r.below(0), 0);
    assert_eq!(r.below(1), 0);
}

#[test]
fn below_is_draw_modulo_n_and_zero_draws_nothing() {
    let mut r = Rng::seeded(0);
    assert_eq!(r.below(0), 0);
    assert_eq!(r.below(1000), (0xe220_a839_7b1d_cdafu64 % 1000) as usize);
}

#[test]
fn pick_takes_the_element_at_the_drawn_index() {
    let items = [10u32, 20, 30, 40, 50, 60, 70];
    let mut r = Rng::seeded(0);
    let expected = items[(0xe220_a839_7b1d_cdafu64 % 7) as usize];
    assert_eq!(*r.pick(&items), expected);
}

#[test]
fn chance_bounds_are_absolute() {
    let mut r = Rng::seeded(9);
    for _ in 0..1000 {
        assert!(!r.chance(0));
        assert!(r.chance(CHANCE_ONE));
    }
}

#[test]
fn chance_compares_top_bits_with_threshold() {
    // First draw from seed 0 has top 53 bits 0xe220_a839_7b1d_cdaf >> 11.
    let top = 0xe220_a839_7b1d_cdafu64 >> 11;
    let mut r = Rng::seeded(0);
    assert!(!r.chance(top));
    let mut r = Rng::seeded(0);
    assert!(r.chance(top + 1));
}
