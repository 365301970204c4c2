use dice_firmware::clock::{elapsed_since, prescale_select, MonotonicClock, Prescale};

#[test]
fn clock_starts_at_zero() {
    assert_eq!(MonotonicClock::init(64, 250).read(), 0);
    assert_eq!(MonotonicClock::init(1024, 255).read(), 0);
}

#[test]
fn clock_reads_the_number_of_interrupts_times_the_increment() {
    // 64 * 250 / 16000 = 1 millisecond per interrupt.
    let mut clock = MonotonicClock::init(64, 250);
    for n in 1..=5000u32 {
        clock.tick();
        assert_eq!(clock.read(), n);
    }
}

#[test]
fn clock_increment_follows_prescaler_and_compare_count() {
    // 1024 * 250 / 16000 = 16, 256 * 250 / 16000 = 4, 256 * 125 / 16000 = 2.
    for (prescaler, compare_count, increment) in
        [(1024u32, 250u8, 16u32), (256, 250, 4), (256, 125, 2), (1024, 255, 16), (64, 255, 1)]
    {
        let mut clock = MonotonicClock::init(prescaler, compare_count);
        for n in 1..=100u32 {
            clock.tick();
            assert_eq!(clock.read(), n * increment);
        }
    }
}

#[test]
fn clock_with_a_period_under_a_millisecond_stands_still() {
    // 8 * 250 / 16000 = 0.
    let mut clock = MonotonicClock::init(8, 250);
    for _ in 0..100 {
        clock.tick();
    }
    assert_eq!(clock.read(), 0);
}

#[test]
fn reconfiguring_the_clock_starts_from_zero_again() {
    let mut clock = MonotonicClock::init(64, 250);
    for _ in 0..10 {
        clock.tick();
    }
    assert_eq!(clock.read(), 10);
    clock = MonotonicClock::init(256, 250);
    assert_eq!(clock.read(), 0);
    for _ in 0..10 {
        clock.tick();
    }
    assert_eq!(clock.read(), 40);
}

#[test]
fn prescale_select_knows_four_prescalers() {
    assert_eq!(prescale_select(8), Some(Prescale::By8));
    assert_eq!(prescale_select(64), Some(Prescale::By64));
    assert_eq!(prescale_select(256), Some(Prescale::By256));
    assert_eq!(prescale_select(1024), Some(Prescale::By1024));
}

#[test]
fn prescale_select_refuses_the_rest() {
    for prescaler in [0u32, 1, 7, 9, 32, 63, 65, 128, 512, 1023, 1025, 2048, u32::MAX] {
        assert_eq!(prescale_select(prescaler), None);
    }
}

#[test]
fn elapsed_since_is_the_plain_difference_without_rollover() {
    assert_eq!(elapsed_since(1500, 0), 1500);
    assert_eq!(elapsed_since(2000, 500), 1500);
    assert_eq!(elapsed_since(7, 7), 0);
}

#[test]
fn elapsed_since_spans_the_rollover() {
    assert_eq!(elapsed_since(4, u32::MAX - 5), 10);
    assert_eq!(elapsed_since(0, u32::MAX), 1);
    assert_eq!(elapsed_since(29, u32::MAX), 30);
    for start in [u32::MAX - 1000, u32::MAX - 1, u32::MAX] {
        for advance in [0u32, 1, 31, 999, 1000, 1001, 5000] {
            assert_eq!(elapsed_since(start.wrapping_add(advance), start), advance);
        }
    }
}

#[test]
fn clock_counter_rolls_over_at_two_to_the_thirty_two() {
    // Sixteen milliseconds per interrupt: 2^28 interrupts are 2^32
    // milliseconds.
    let mut clock = MonotonicClock::init(1024, 250);
    for _ in 0..(1u32 << 28) - 1 {
        clock.tick();
    }
    assert_eq!(clock.read(), u32::MAX - 15);
    let before = clock.read();
    clock.tick();
    assert_eq!(clock.read(), 0);
    assert_eq!(elapsed_since(clock.read(), before), 16);
    clock.tick();
    assert_eq!(clock.read(), 16);
    assert_eq!(elapsed_since(clock.read(), before), 32);
}
