use metal_attention::models::weights::{SimpleRng, WeightRange, LARGEST_DRAW};

#[test]
fn numbers_follow_the_xorshift_sequence() {
    let mut rng = SimpleRng::new(0);
    // 1 ^ 1 << 13 = 0x2001; ^ >> 7 = 0x2041; ^ << 17.
    assert_eq!(rng.next_u64(), 0x2041 ^ (0x2041 << 17));
    let mut again = SimpleRng::new(0);
    assert_eq!(again.next_number(), ((0x2041u64 ^ (0x2041 << 17)) & 0xFF_FFFF) as u32);
    assert_eq!(again.state, rng.state);
}

#[test]
fn the_largest_seed_wraps_to_zero_and_stays() {
    let mut rng = SimpleRng::new(u64::MAX);
    assert_eq!(rng.next_u64(), 0);
    assert_eq!(rng.next_number(), 0);
}

#[test]
fn draws_come_in_order() {
    let keep = |number: u32, _: WeightRange| number;
    let mut rng = SimpleRng::new(42);
    let all = rng.draw(5, WeightRange::Unit, &keep);
    let mut rng = SimpleRng::new(42);
    let first = rng.draw(2, WeightRange::Unit, &keep);
    let rest = rng.draw(3, WeightRange::NearZero, &keep);
    assert_eq!(all[..2], first);
    assert_eq!(all[2..], rest);
    assert!(all.iter().all(|n| *n <= LARGEST_DRAW));
}

#[test]
fn the_range_is_handed_on() {
    let fan = |_: u32, range: WeightRange| match range {
        WeightRange::Scaled { fan } => fan as u32,
        _ => 0,
    };
    assert_eq!(SimpleRng::new(1).draw(2, WeightRange::Scaled { fan: 9 }, &fan), vec![9, 9]);
}

#[test]
fn the_same_seed_gives_the_same_weights() {
    let keep = |number: u32, _: WeightRange| number;
    let one = SimpleRng::new(7).draw(16, WeightRange::Decay, &keep);
    let other = SimpleRng::new(7).draw(16, WeightRange::Decay, &keep);
    assert_eq!(one, other);
    assert_ne!(one, SimpleRng::new(8).draw(16, WeightRange::Decay, &keep));
}
