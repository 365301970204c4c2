use dice_firmware::mini_rng::{forward_s_box, inverse_s_box, Rng};

fn seeded(bytes: [u8; 4]) -> Rng {
    Rng::new(u32::from_ne_bytes(bytes))
}

fn chi_square(counts: &[u32], draws: u32) -> f64 {
    let expected = draws as f64 / counts.len() as f64;
    counts
        .iter()
        .map(|&count| {
            let off = count as f64 - expected;
            off * off / expected
        })
        .sum()
}

#[test]
fn forward_s_box_folds_four_rotations_with_0x63() {
    assert_eq!(forward_s_box(0x00), 0x63);
    assert_eq!(forward_s_box(0x01), 0x7d);
    assert_eq!(forward_s_box(0x80), 0x6c);
    assert_eq!(forward_s_box(0x5a), 0xc9);
    assert_eq!(forward_s_box(0xff), 0x63);
}

#[test]
fn forward_s_box_matches_rotate_left_for_every_byte() {
    for v in 0..=255u8 {
        let expected =
            v.rotate_left(1) ^ v.rotate_left(2) ^ v.rotate_left(3) ^ v.rotate_left(4) ^ 0x63;
        assert_eq!(forward_s_box(v), expected);
    }
}

#[test]
fn inverse_s_box_folds_three_rotations_with_0x05() {
    assert_eq!(inverse_s_box(0x00), 0x05);
    assert_eq!(inverse_s_box(0x01), 0x4f);
    assert_eq!(inverse_s_box(0x80), 0x20);
    assert_eq!(inverse_s_box(0x5a), 0xf5);
    assert_eq!(inverse_s_box(0xff), 0xfa);
}

#[test]
fn inverse_s_box_matches_rotate_left_for_every_byte() {
    for v in 0..=255u8 {
        let expected = v.rotate_left(1) ^ v.rotate_left(3) ^ v.rotate_left(6) ^ 0x05;
        assert_eq!(inverse_s_box(v), expected);
    }
}

#[test]
fn inverse_s_box_is_one_to_one() {
    let mut seen = [false; 256];
    for v in 0..=255u8 {
        let out = inverse_s_box(v) as usize;
        assert!(!seen[out]);
        seen[out] = true;
    }
}

#[test]
fn first_draws_after_seeding() {
    let mut rng = seeded([0x78, 0x56, 0x34, 0x12]);
    let drawn: Vec<u8> = (0..8).map(|_| rng.random()).collect();
    assert_eq!(drawn, vec![116, 123, 172, 250, 61, 132, 200, 194]);
}

#[test]
fn first_draws_after_zero_seed() {
    let mut rng = Rng::new(0);
    let drawn: Vec<u8> = (0..4).map(|_| rng.random()).collect();
    assert_eq!(drawn, vec![28, 123, 45, 192]);
}

#[test]
fn seed_bytes_go_to_different_registers() {
    let mut plain = seeded([9, 8, 7, 6]);
    let mut swapped = seeded([6, 7, 8, 9]);
    let first: Vec<u8> = (0..16).map(|_| plain.random()).collect();
    let second: Vec<u8> = (0..16).map(|_| swapped.random()).collect();
    assert_eq!(first, vec![78, 236, 194, 181, 81, 1, 23, 26, 79, 9, 140, 7, 121, 54, 65, 254]);
    assert_ne!(first, second);
}

#[test]
fn same_seed_same_calls_same_outputs() {
    for seed in [0u32, 1, 0xdead_beef, u32::MAX] {
        let mut first = Rng::new(seed);
        let mut second = Rng::new(seed);
        for round in 0..200u32 {
            assert_eq!(first.random(), second.random());
            assert_eq!(first.rand_range(6), second.rand_range(6));
            assert_eq!(first.rand_range(100), second.rand_range(100));
            assert_eq!(first.rand_u32(), second.rand_u32());
            if round % 17 == 0 {
                first.reseed(round ^ seed);
                second.reseed(round ^ seed);
            }
        }
    }
}

#[test]
fn rand_u32_joins_four_draws_in_native_order() {
    let mut rng = seeded([1, 2, 3, 4]);
    assert_eq!(rng.rand_u32(), u32::from_ne_bytes([168, 185, 47, 51]));
    assert_eq!(rng.rand_u32(), u32::from_ne_bytes([59, 55, 31, 131]));
}

#[test]
fn rand_u32_uses_exactly_four_draws() {
    let mut words = seeded([1, 2, 3, 4]);
    let mut bytes = seeded([1, 2, 3, 4]);
    let word = words.rand_u32();
    let drawn = [bytes.random(), bytes.random(), bytes.random(), bytes.random()];
    assert_eq!(word, u32::from_ne_bytes(drawn));
    assert_eq!(words.random(), bytes.random());
}

#[test]
fn rand_range_scales_the_draw() {
    let mut rng = seeded([9, 8, 7, 6]);
    let samples: Vec<u8> = (0..12).map(|_| rng.rand_range(6)).collect();
    assert_eq!(samples, vec![1, 5, 4, 4, 1, 0, 0, 0, 1, 0, 3, 0]);
    let mut rng = seeded([9, 8, 7, 6]);
    let samples: Vec<u8> = (0..12).map(|_| rng.rand_range(100)).collect();
    assert_eq!(samples, vec![30, 75, 70, 31, 0, 8, 30, 3, 54, 2, 47, 25]);
}

#[test]
fn rand_range_with_large_bounds() {
    let mut rng = seeded([9, 8, 7, 6]);
    let samples: Vec<u8> = (0..12).map(|_| rng.rand_range(129)).collect();
    assert_eq!(samples, vec![118, 97, 40, 0, 11, 39, 4, 70, 3, 60, 32, 127]);
    let mut rng = seeded([9, 8, 7, 6]);
    let samples: Vec<u8> = (0..12).map(|_| rng.rand_range(255)).collect();
    assert_eq!(samples, vec![77, 235, 193, 180, 80, 0, 22, 25, 78, 8, 139, 6]);
}

#[test]
fn rand_range_redraws_after_a_rejected_byte() {
    // The first byte is 85: 85 * 100 = 0x2134, and the low byte 0x34 is
    // under the threshold 56. The second byte is 12: 12 * 100 = 0x04b0.
    let mut raw = seeded([5, 0, 0, 0]);
    assert_eq!([raw.random(), raw.random(), raw.random()], [85, 12, 218]);
    let mut rng = seeded([5, 0, 0, 0]);
    assert_eq!(rng.rand_range(100), 4);
    assert_eq!(rng.random(), 218);
}

#[test]
fn rand_range_of_one_is_always_zero() {
    let mut rng = Rng::new(12345);
    let mut raw = Rng::new(12345);
    for _ in 0..1000 {
        assert_eq!(rng.rand_range(1), 0);
        raw.random();
    }
    assert_eq!(rng.random(), raw.random());
}

#[test]
fn rand_range_with_a_power_of_two_never_redraws() {
    let mut rng = Rng::new(777);
    let mut raw = Rng::new(777);
    for bound in [2u8, 4, 8, 16, 32, 64, 128] {
        for _ in 0..500 {
            let byte = raw.random();
            assert_eq!(rng.rand_range(bound) as u16, (byte as u16 * bound as u16) >> 8);
        }
    }
}

#[test]
fn rand_range_stays_below_every_bound() {
    let mut rng = Rng::new(0x0bad_cafe);
    for bound in 1..=255u8 {
        for _ in 0..300 {
            assert!(rng.rand_range(bound) < bound);
        }
    }
}

#[test]
fn rand_range_is_uniform_for_the_dice() {
    // The limits are the 0.1 % points of the chi-square distribution.
    let limits = [
        (4u8, 16.27),
        (6, 20.52),
        (8, 24.32),
        (10, 27.88),
        (12, 31.26),
        (20, 43.82),
        (100, 148.23),
    ];
    for (bound, limit) in limits {
        let mut rng = seeded([0xef, 0xbe, 0xad, 0xde]);
        let draws = 12_000u32;
        let mut counts = vec![0u32; bound as usize];
        for _ in 0..draws {
            let sample = rng.rand_range(bound);
            assert!(sample < bound);
            counts[sample as usize] += 1;
        }
        assert!(counts.iter().all(|&count| count > 0));
        let chi = chi_square(&counts, draws);
        assert!(chi < limit, "bound {}: chi-square {}", bound, chi);
    }
}

#[test]
fn reseed_with_another_seed_changes_the_next_draw() {
    for (draws, first, second, third) in
        [(0u32, 57u8, 29u8, 99u8), (1, 74, 76, 238), (10, 192, 134, 206), (100, 94, 34, 207)]
    {
        let next = |seed: [u8; 4]| {
            let mut rng = seeded([0x11, 0x22, 0x33, 0x44]);
            for _ in 0..draws {
                rng.random();
            }
            rng.reseed(u32::from_ne_bytes(seed));
            rng.random()
        };
        assert_eq!(next([1, 0, 0, 0]), first);
        assert_eq!(next([2, 0, 0, 0]), second);
        assert_eq!(next([1, 0, 0, 1]), third);
    }
}

#[test]
fn reseed_mixes_into_the_registers_and_does_not_reset_them() {
    let mut early = seeded([5, 5, 5, 5]);
    let mut late = seeded([5, 5, 5, 5]);
    late.random();
    early.reseed(u32::from_ne_bytes([7, 7, 7, 7]));
    late.reseed(u32::from_ne_bytes([7, 7, 7, 7]));
    assert_eq!(early.random(), 111);
    assert_eq!(late.random(), 239);
}

#[test]
fn reseeding_twice_with_one_seed_gives_two_streams() {
    let mut rng = seeded([3, 1, 4, 1]);
    let first: Vec<u8> = (0..4).map(|_| rng.random()).collect();
    rng.reseed(u32::from_ne_bytes([3, 1, 4, 1]));
    let second: Vec<u8> = (0..4).map(|_| rng.random()).collect();
    assert_eq!(first, vec![11, 150, 242, 245]);
    assert_eq!(second, vec![103, 134, 60, 15]);
}

#[test]
fn new_is_reseed_on_blank_registers() {
    let mut fresh = Rng::new(0xfeed_f00d);
    let mut blank = Rng::new(0);
    let mut other = Rng::new(0);
    other.reseed(0);
    // `blank` holds the zero seed mixed in once, `other` twice.
    assert_ne!(
        [blank.random(), blank.random(), blank.random()],
        [other.random(), other.random(), other.random()]
    );
    let mut again = Rng::new(0xfeed_f00d);
    assert_eq!(fresh.rand_u32(), again.rand_u32());
}

#[test]
fn seeds_whose_counter_bytes_mix_alike_give_one_stream() {
    // The counter byte goes through the forward box, which sends 0x00 and
    // 0xff to the same value: from blank registers the counter bytes 0xff
    // and 0xfe end in the same counter.
    assert_eq!(forward_s_box(0x00), forward_s_box(0xff));
    let mut first = seeded([0xff, 1, 2, 3]);
    let mut second = seeded([0xfe, 1, 2, 3]);
    let drawn: Vec<u8> = (0..4).map(|_| first.random()).collect();
    assert_eq!(drawn, vec![201, 72, 187, 25]);
    let drawn: Vec<u8> = (0..4).map(|_| second.random()).collect();
    assert_eq!(drawn, vec![201, 72, 187, 25]);
}
