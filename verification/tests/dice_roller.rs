use dice_firmware::dice_roller::{Dice, DiceRoller, Mode, MAX_THROWS};
use dice_firmware::mini_rng::Rng;

const FACES: [u8; 7] = [4, 6, 8, 10, 12, 20, 100];

#[test]
fn new_dice_is_the_four_sided_one() {
    assert_eq!(Dice::new().get(), 4);
}

#[test]
fn dice_cycle_steps_through_the_faces_and_wraps() {
    let mut dice = Dice::new();
    for round in 0..3 {
        for &sides in FACES.iter() {
            assert_eq!(dice.get(), sides, "round {}", round);
            dice.cycle();
        }
    }
}

#[test]
fn new_roller_is_one_d4_in_configuration_mode() {
    let roller = DiceRoller::new();
    assert_eq!(roller.mode(), Mode::ConfigurationMode);
    assert_eq!(roller.get_dice_amount(), 1);
    assert_eq!(roller.get_dice(), 4);
    assert_eq!(roller.get_roll(), 0);
    assert!(!roller.rolling());
}

#[test]
fn dice_amount_counts_to_nine_and_wraps_to_one() {
    assert_eq!(MAX_THROWS, 9);
    let mut roller = DiceRoller::new();
    for round in 0..3 {
        for amount in 1..=9u8 {
            assert_eq!(roller.get_dice_amount(), amount, "round {}", round);
            roller.change_dice_amount();
        }
    }
    assert_eq!(roller.get_dice_amount(), 1);
}

#[test]
fn change_dice_steps_through_the_faces_and_wraps() {
    let mut roller = DiceRoller::new();
    for _ in 0..2 {
        for &sides in FACES.iter() {
            assert_eq!(roller.get_dice(), sides);
            roller.change_dice();
        }
    }
    assert_eq!(roller.get_dice(), 4);
}

#[test]
fn mode_and_rolling_can_be_set() {
    let mut roller = DiceRoller::new();
    roller.set_mode(Mode::NormalMode);
    assert_eq!(roller.mode(), Mode::NormalMode);
    roller.set_rolling(true);
    assert!(roller.rolling());
    roller.set_mode(Mode::ConfigurationMode);
    roller.set_rolling(false);
    assert_eq!(roller.mode(), Mode::ConfigurationMode);
    assert!(!roller.rolling());
    assert_eq!(roller.get_dice_amount(), 1);
    assert_eq!(roller.get_dice(), 4);
}

#[test]
fn roll_adds_up_one_sample_per_die() {
    let mut rng = Rng::new(u32::from_ne_bytes([0xaa, 0xbb, 0xcc, 0xdd]));
    let mut roller = DiceRoller::new();
    // 1d4
    roller.roll(&mut rng);
    assert_eq!(roller.get_roll(), 3);
    // 3d6
    roller.change_dice();
    roller.change_dice_amount();
    roller.change_dice_amount();
    roller.roll(&mut rng);
    assert_eq!(roller.get_roll(), 11);
    // 9d100
    for _ in 0..5 {
        roller.change_dice();
    }
    for _ in 0..6 {
        roller.change_dice_amount();
    }
    assert_eq!((roller.get_dice_amount(), roller.get_dice()), (9, 100));
    roller.roll(&mut rng);
    assert_eq!(roller.get_roll(), 372);
    // 2d20
    for _ in 0..6 {
        roller.change_dice();
    }
    for _ in 0..2 {
        roller.change_dice_amount();
    }
    assert_eq!((roller.get_dice_amount(), roller.get_dice()), (2, 20));
    roller.roll(&mut rng);
    assert_eq!(roller.get_roll(), 22);
}

#[test]
fn roll_draws_from_the_generator_like_rand_range() {
    let mut rolled = Rng::new(99);
    let mut drawn = Rng::new(99);
    let mut roller = DiceRoller::new();
    for _ in 0..4 {
        roller.change_dice();
    }
    for _ in 0..4 {
        roller.change_dice_amount();
    }
    assert_eq!((roller.get_dice_amount(), roller.get_dice()), (5, 12));
    for _ in 0..50 {
        roller.roll(&mut rolled);
        let total: u16 = (0..5).map(|_| drawn.rand_range(12) as u16 + 1).sum();
        assert_eq!(roller.get_roll(), total);
    }
    assert_eq!(rolled.random(), drawn.random());
}

#[test]
fn roll_lies_between_the_number_of_dice_and_all_faces_up() {
    let mut rng = Rng::new(4242);
    let mut roller = DiceRoller::new();
    for _ in 0..7 {
        for _ in 0..9 {
            let (throws, sides) = (roller.get_dice_amount() as u16, roller.get_dice() as u16);
            for _ in 0..40 {
                roller.roll(&mut rng);
                assert!(throws <= roller.get_roll() && roller.get_roll() <= throws * sides);
            }
            roller.change_dice_amount();
        }
        roller.change_dice();
    }
}

#[test]
fn roll_leaves_mode_and_choice_alone() {
    let mut rng = Rng::new(1);
    let mut roller = DiceRoller::new();
    roller.change_dice();
    roller.change_dice_amount();
    roller.set_mode(Mode::NormalMode);
    roller.set_rolling(true);
    roller.roll(&mut rng);
    assert_eq!(roller.mode(), Mode::NormalMode);
    assert!(roller.rolling());
    assert_eq!((roller.get_dice_amount(), roller.get_dice()), (2, 6));
}
