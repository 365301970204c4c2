use dice_firmware::stopwatch::Stopwatch;

#[test]
fn new_stopwatch_is_stopped_at_zero() {
    let mut watch = Stopwatch::new();
    assert!(!watch.is_running());
    assert_eq!(watch.get_time(0), 0);
    assert_eq!(watch.get_time(123_456), 0);
}

#[test]
fn stopwatch_measures_fifteen_hundred_milliseconds() {
    let mut watch = Stopwatch::new();
    watch.start(10_000);
    assert!(watch.is_running());
    assert_eq!(watch.get_time(11_500), 1500);
    watch.stop(11_500);
    assert!(!watch.is_running());
    assert_eq!(watch.get_time(20_000), 1500);
    assert_eq!(watch.get_time(4_000_000_000), 1500);
    watch.reset();
    assert_eq!(watch.get_time(20_000), 0);
    assert!(!watch.is_running());
}

#[test]
fn running_stopwatch_follows_the_clock() {
    let mut watch = Stopwatch::new();
    watch.start(250);
    for now in 250..1250u32 {
        assert_eq!(watch.get_time(now), now - 250);
    }
}

#[test]
fn stop_measures_up_to_the_stop() {
    let mut watch = Stopwatch::new();
    watch.start(100);
    assert_eq!(watch.get_time(150), 50);
    watch.stop(400);
    assert_eq!(watch.get_time(1000), 300);
}

#[test]
fn stopping_again_keeps_the_frozen_time() {
    let mut watch = Stopwatch::new();
    watch.start(100);
    watch.stop(400);
    assert_eq!(watch.get_time(1000), 300);
    watch.stop(900);
    assert!(!watch.is_running());
    assert_eq!(watch.get_time(1000), 300);
}

#[test]
fn stopped_time_stays_frozen_until_the_next_start() {
    let mut watch = Stopwatch::new();
    watch.start(1000);
    watch.stop(2500);
    watch.stop(9000);
    assert_eq!(watch.get_time(9000), 1500);
    watch.stop(u32::MAX);
    watch.stop(3);
    assert_eq!(watch.get_time(4), 1500);
    watch.start(5000);
    assert_eq!(watch.get_time(5040), 40);
    watch.stop(5100);
    assert_eq!(watch.get_time(7000), 100);
}

#[test]
fn stopping_a_stopwatch_that_never_ran_leaves_it_at_zero() {
    let mut watch = Stopwatch::new();
    watch.stop(250);
    assert!(!watch.is_running());
    assert_eq!(watch.get_time(9000), 0);
}

#[test]
fn stopping_after_a_reset_leaves_it_at_zero() {
    let mut watch = Stopwatch::new();
    watch.start(100);
    watch.reset();
    watch.stop(700);
    assert!(!watch.is_running());
    assert_eq!(watch.get_time(9000), 0);
}

#[test]
fn start_begins_again_from_zero() {
    let mut watch = Stopwatch::new();
    watch.start(100);
    watch.stop(400);
    watch.start(1000);
    assert!(watch.is_running());
    assert_eq!(watch.get_time(1000), 0);
    assert_eq!(watch.get_time(1007), 7);
}

#[test]
fn reset_stops_a_running_stopwatch() {
    let mut watch = Stopwatch::new();
    watch.start(100);
    watch.reset();
    assert!(!watch.is_running());
    assert_eq!(watch.get_time(5000), 0);
}

#[test]
fn stopwatch_spans_the_rollover_of_the_clock() {
    let mut watch = Stopwatch::new();
    watch.start(u32::MAX - 295);
    assert_eq!(watch.get_time(u32::MAX), 295);
    assert_eq!(watch.get_time(0), 296);
    assert_eq!(watch.get_time(704), 1000);
    watch.stop(1204);
    assert_eq!(watch.get_time(50_000), 1500);
}
