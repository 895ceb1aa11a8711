use dose_response::random::{spread, Random};

#[test]
fn the_first_words_of_a_seed_are_fixed() {
    let mut rng = Random::from_seed(518_723_646);
    assert_eq!(rng.next_u32(), 337_420_970);
    assert_eq!(rng.next_u32(), 2_842_447_520);
    assert_eq!(rng.next_u32(), 2_366_560_278);
    assert_eq!(rng.next_u32(), 1_933_567_337);

    let mut rng = Random::from_seed(0);
    assert_eq!(rng.next_u32(), 3_894_649_422);
    assert_eq!(rng.next_u32(), 2_055_130_073);
}

#[test]
fn the_same_seed_gives_the_same_draws() {
    let mut a = Random::from_seed(12345);
    let mut b = Random::from_seed(12345);
    for _ in 0..1000 {
        assert_eq!(a.next_u32(), b.next_u32());
    }
    assert_eq!(a, b);
}

#[test]
fn different_seeds_give_different_draws() {
    let mut a = Random::from_seed(1);
    let mut b = Random::from_seed(2);
    let first: Vec<u32> = (0..8).map(|_| a.next_u32()).collect();
    let second: Vec<u32> = (0..8).map(|_| b.next_u32()).collect();
    assert_ne!(first, second);
}

#[test]
fn different_streams_give_different_draws() {
    let mut a = Random::from_seed_and_stream(7, 1);
    let mut b = Random::from_seed_and_stream(7, 2);
    let first: Vec<u32> = (0..8).map(|_| a.next_u32()).collect();
    let second: Vec<u32> = (0..8).map(|_| b.next_u32()).collect();
    assert_ne!(first, second);
}

#[test]
fn range_inclusive_gives_known_numbers() {
    let mut rng = Random::from_seed(42);
    let rolls: Vec<i32> = (0..10).map(|_| rng.range_inclusive(1, 6)).collect();
    assert_eq!(rolls, vec![5, 3, 3, 2, 6, 3, 5, 6, 3, 6]);

    let mut rng = Random::from_seed(42);
    let offsets: Vec<i32> = (0..10).map(|_| rng.range_inclusive(-5, 5)).collect();
    assert_eq!(offsets, vec![3, -1, -1, -3, 5, -1, 3, 4, 0, 5]);
}

#[test]
fn range_inclusive_stays_in_range() {
    let mut rng = Random::from_seed(99);
    for _ in 0..10_000 {
        let value = rng.range_inclusive(-3, 4);
        assert!((-3..=4).contains(&value));
    }
}

#[test]
fn range_inclusive_reaches_both_ends() {
    let mut rng = Random::from_seed(5);
    let mut seen = [false; 3];
    for _ in 0..1000 {
        seen[rng.range_inclusive(0, 2) as usize] = true;
    }
    assert_eq!(seen, [true, true, true]);
}

#[test]
fn range_of_one_number_gives_that_number_and_costs_a_draw() {
    let mut rng = Random::from_seed(3);
    let mut other = rng;
    assert_eq!(rng.range_inclusive(17, 17), 17);
    other.next_u32();
    assert_eq!(rng, other);
}

#[test]
fn range_inclusive_takes_the_whole_width_of_i32() {
    let mut rng = Random::from_seed(11);
    for _ in 0..1000 {
        let _ = rng.range_inclusive(i32::MIN, i32::MAX);
    }
    let mut rng = Random::from_seed(11);
    let word = Random::from_seed(11).next_u32();
    assert_eq!(rng.range_inclusive(i32::MIN, i32::MAX) as i64, i32::MIN as i64 + word as i64);
}

#[test]
fn weighted_choice_gives_known_picks() {
    let mut rng = Random::from_seed(7);
    let table = [(610u32, 'e'), (390u32, 't')];
    let picks: String = (0..12).map(|_| rng.weighted_choice(&table)).collect();
    assert_eq!(picks, "eteteeeettee");
}

#[test]
fn weighted_choice_never_picks_a_weight_of_zero() {
    let mut rng = Random::from_seed(8);
    let table = [(0u32, 'a'), (5u32, 'b'), (0u32, 'c'), (1u32, 'd'), (0u32, 'e')];
    let mut b = 0;
    let mut d = 0;
    for _ in 0..6000 {
        match rng.weighted_choice(&table) {
            'b' => b += 1,
            'd' => d += 1,
            other => panic!("picked {}", other),
        }
    }
    assert!(b > 4 * d);
    assert!(d > 500);
}

#[test]
fn weighted_choice_of_a_single_item_is_that_item() {
    let mut rng = Random::from_seed(8);
    assert_eq!(rng.weighted_choice(&[(3u32, "only")]), "only");
}

#[test]
fn weighted_choice_costs_one_draw() {
    let mut rng = Random::from_seed(21);
    let mut other = rng;
    rng.weighted_choice(&[(1u32, 0u8), (2u32, 1u8), (3u32, 2u8)]);
    other.next_u32();
    assert_eq!(rng, other);
}

#[test]
fn pick_from_nothing_is_nothing_and_costs_no_draw() {
    let mut rng = Random::from_seed(1);
    let before = rng;
    let nothing: [u8; 0] = [];
    assert_eq!(rng.pick(&nothing), None);
    assert_eq!(rng, before);
}

#[test]
fn pick_gives_an_item_of_the_list() {
    let mut rng = Random::from_seed(518_723_646);
    let items = ["skirt", "trousers"];
    assert_eq!(rng.pick(&items), Some(&"skirt"));
    let numbers = [0, 1, 2, 3, 4, 5];
    let mut seen = [false; 6];
    for _ in 0..1000 {
        seen[*rng.pick(&numbers).unwrap() as usize] = true;
    }
    assert_eq!(seen, [true; 6]);
}

#[test]
fn choose_with_fallback_falls_back_on_an_empty_list() {
    let mut rng = Random::from_seed(1);
    let before = rng;
    let nothing: [&str; 0] = [];
    assert_eq!(*rng.choose_with_fallback(&nothing, &"fallback"), "fallback");
    assert_eq!(rng, before);
}

#[test]
fn choose_with_fallback_picks_from_a_list_that_has_items() {
    let mut rng = Random::from_seed(1);
    let mut twin = rng;
    let items = [10, 20, 30];
    for _ in 0..100 {
        let picked = *rng.choose_with_fallback(&items, &-1);
        assert_eq!(Some(&picked), twin.pick(&items));
        assert!(items.contains(&picked));
    }
}

#[test]
fn a_copy_goes_its_own_way() {
    let mut first = Random::from_seed(77);
    first.next_u32();
    let mut copy = first.clone();
    let untouched = first;
    let from_copy: Vec<u32> = (0..5).map(|_| copy.next_u32()).collect();
    assert_eq!(first, untouched);
    let from_first: Vec<u32> = (0..5).map(|_| first.next_u32()).collect();
    assert_eq!(from_copy, from_first);
}

#[test]
fn unforeseeable_generators_are_made_from_seeds() {
    let mut agree = 0;
    for _ in 0..4 {
        let seed = Random::random_seed();
        let mut a = Random::new();
        let mut b = Random::from_seed(seed);
        if a.next_u32() == b.next_u32() {
            agree += 1;
        }
    }
    assert!(agree < 4);
    let seeds: Vec<u32> = (0..4).map(|_| Random::random_seed()).collect();
    assert!(seeds.iter().any(|&seed| seed != seeds[0]));
}

#[test]
fn a_generator_taken_apart_and_put_together_is_the_same() {
    let mut rng = Random::from_seed(31);
    rng.next_u32();
    let (state, increment) = rng.parts();
    assert_eq!(increment % 2, 1);
    let mut again = Random::from_parts(state, increment);
    assert_eq!(again, rng);
    assert_eq!(again.next_u32(), rng.next_u32());
    assert_ne!(Random::from_parts(state, increment + 2), Random::from_parts(state, increment));
}

#[test]
fn the_words_are_spread_evenly_and_in_order() {
    assert_eq!(spread(0, 6), 0);
    assert_eq!(spread(715_827_882, 6), 0);
    assert_eq!(spread(715_827_883, 6), 1);
    assert_eq!(spread(1_431_655_765, 6), 1);
    assert_eq!(spread(1_431_655_766, 6), 2);
    assert_eq!(spread(2_147_483_647, 6), 2);
    assert_eq!(spread(2_147_483_648, 6), 3);
    assert_eq!(spread(3_579_139_413, 6), 4);
    assert_eq!(spread(3_579_139_414, 6), 5);
    assert_eq!(spread(u32::MAX, 6), 5);
    assert_eq!(spread(12_345, 1), 0);
    assert_eq!(spread(u32::MAX, 1), 0);
    assert_eq!(spread(12_345, 1 << 32), 12_345);
    assert_eq!(spread(u32::MAX, 1 << 32), u32::MAX as u64);
    assert_eq!(spread(u32::MAX, u32::MAX as u64), u32::MAX as u64 - 1);
    assert_eq!(spread(1 << 31, 2), 1);
    assert_eq!(spread((1 << 31) - 1, 2), 0);

    for span in [1u64, 2, 3, 5, 7, 1000, 1002, 1020, 65_537] {
        let share = (1u64 << 32) / span;
        let mut first = 0u64;
        for place in 0..span.min(50) {
            let next = ((place + 1) * (1u64 << 32) + span - 1) / span;
            assert!(next - first == share || next - first == share + 1);
            assert_eq!(spread(first as u32, span), place);
            assert_eq!(spread((next - 1) as u32, span), place);
            first = next;
        }
    }
}
