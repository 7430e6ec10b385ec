use smart_hedge::rng::{derive_seed, time_bucket, try_derive_seed, Rng};

#[test]
fn same_seed_produces_the_same_sequence() {
    let mut a = Rng::new(42);
    let mut b = Rng::new(42);
    for _ in 0..20 {
        assert_eq!(a.next_bits53(), b.next_bits53());
    }
}

#[test]
fn different_seeds_diverge() {
    let mut a = Rng::new(1);
    let mut b = Rng::new(2);
    assert_ne!(a.next_u64(), b.next_u64());
}

#[test]
fn random_stays_in_zero_one_range() {
    let mut rng = Rng::new(7);
    for _ in 0..10_000 {
        let x = rng.next_bits53() as f64 * (1.0 / (1u64 << 53) as f64);
        assert!((0.0..1.0).contains(&x), "{x} out of range");
    }
}

#[test]
fn zero_seed_does_not_produce_a_stuck_zero_stream() {
    let mut rng = Rng::new(0);
    let first = rng.next_u64();
    let second = rng.next_u64();
    assert_ne!(first, second);
    assert_ne!(first, 0);
}

#[test]
fn the_first_output_of_seed_one_is_the_xorshift_star_value() {
    let mut rng = Rng::new(1);
    // state 1 -> 1 ^ (1 << 25) -> that ^ (that >> 27) = 0x2000001; times the multiplier.
    assert_eq!(rng.next_u64(), 0x2000001u64.wrapping_mul(0x2545_F491_4F6C_DD1D));
}

#[test]
fn seeds_weight_each_uppercased_character_by_its_position() {
    // "spy" uppercases to "SPY": 1*'S' + 2*'P' + 3*'Y' = 83 + 160 + 267 = 510.
    assert_eq!(derive_seed("spy", 0), 510);
    assert_eq!(derive_seed("SPY", 7), 517);
    assert_eq!(derive_seed("SPY", -10_000), 0);
    assert_eq!(try_derive_seed("spy", 3), Some(513));
    assert_eq!(try_derive_seed("SPY", i64::MAX), None);
}

#[test]
fn the_same_symbol_and_bucket_always_give_the_same_seed() {
    assert_eq!(derive_seed("QQQ", 123_456), derive_seed("qqq", 123_456));
    assert_ne!(derive_seed("QQQ", 123_456), derive_seed("QQQ", 123_457));
}

#[test]
fn time_buckets_are_five_seconds_wide_and_round_down() {
    assert_eq!(time_bucket(0), 0);
    assert_eq!(time_bucket(4), 0);
    assert_eq!(time_bucket(5), 1);
    assert_eq!(time_bucket(-1), -1);
    assert_eq!(time_bucket(-5), -1);
    assert_eq!(time_bucket(-6), -2);
}
