//! A stopwatch on top of the millisecond clock.
//!
//! The stopwatch remembers the clock reading at which it was started and
//! measures from there with wrapped subtraction, so it keeps counting
//! correctly across a rollover of the clock.

use crate::clock::{elapsed, elapsed_since};
use vstd::prelude::*;

verus! {

/// A stopwatch as a mathematical value.
pub struct StopwatchState {
    /// The elapsed time as last computed, in milliseconds.
    pub time: u32,
    /// The clock reading at the last start.
    pub previous: u32,
    /// Whether the stopwatch is running.
    pub running: bool,
}

impl StopwatchState {
    /// A stopwatch that is stopped and shows zero.
    pub open spec fn idle() -> StopwatchState {
        StopwatchState { time: 0, previous: 0, running: false }
    }

    /// The stopwatch after it was started at the clock reading `now`.
    pub open spec fn started(now: u32) -> StopwatchState {
        StopwatchState { time: 0, previous: now, running: true }
    }

    /// The stopwatch after it was read at the clock reading `now`: a
    /// running one has brought its elapsed time up to date, a stopped one
    /// is unchanged.
    pub open spec fn observed(self, now: u32) -> StopwatchState {
        if self.running {
            StopwatchState { time: elapsed(now, self.previous), ..self }
        } else {
            self
        }
    }

    /// The stopwatch after it was stopped at the clock reading `now`: a
    /// running one has measured up to `now` and holds that time, one that
    /// was stopped already keeps the time it held.
    pub open spec fn stopped(self, now: u32) -> StopwatchState {
        StopwatchState { running: false, ..self.observed(now) }
    }
}

/// The stopwatch.
pub struct Stopwatch {
    time: u32,
    previous: u32,
    running: bool,
}

impl View for Stopwatch {
    type V = StopwatchState;

    closed spec fn view(&self) -> StopwatchState {
        StopwatchState { time: self.time, previous: self.previous, running: self.running }
    }
}

impl Stopwatch {
    /// A stopwatch that is stopped and shows zero.
    pub fn new() -> (watch: Stopwatch)
        ensures
            watch@ == StopwatchState::idle(),
    {
        Stopwatch { time: 0, previous: 0, running: false }
    }

    /// Starts measuring from zero at the clock reading `now`.
    pub fn start(&mut self, now: u32)
        ensures
            final(self)@ == StopwatchState::started(now),
    {
        self.time = 0;
        self.running = true;
        self.previous = now;
    }

    fn update(&mut self, now: u32)
        ensures
            final(self)@ == (StopwatchState { time: elapsed(now, old(self)@.previous), ..old(self)@ }),
    {
        self.time = elapsed_since(now, self.previous);
    }

    /// The elapsed time in milliseconds at the clock reading `now`. A
    /// running stopwatch measures up to `now`; a stopped one shows what it
    /// showed when it stopped.
    pub fn get_time(&mut self, now: u32) -> (time: u32)
        ensures
            final(self)@ == old(self)@.observed(now),
            time == final(self)@.time,
            old(self)@.running ==> time == elapsed(now, old(self)@.previous),
            !old(self)@.running ==> time == old(self)@.time,
    {
        if self.running {
            self.update(now);
        }
        self.time
    }

    /// Stops the stopwatch at the clock reading `now`. A running
    /// stopwatch measures up to `now`, and that time stays on show,
    /// whatever the clock does, until the next start. Stopping a stopwatch
    /// that is stopped already changes nothing.
    pub fn stop(&mut self, now: u32)
        ensures
            final(self)@ == old(self)@.stopped(now),
            old(self)@.running ==> final(self)@.time == elapsed(now, old(self)@.previous),
            !old(self)@.running ==> final(self)@.time == old(self)@.time,
            !final(self)@.running,
    {
        if self.running {
            self.update(now);
        }
        self.running = false;
    }

    /// Stops the stopwatch and sets it back to zero.
    pub fn reset(&mut self)
        ensures
            final(self)@ == StopwatchState::idle(),
    {
        self.time = 0;
        self.previous = 0;
        self.running = false;
    }

    /// Whether the stopwatch is running.
    pub fn is_running(&self) -> (running: bool)
        ensures
            running == self@.running,
    {
        self.running
    }
}

/// A stopwatch started at any clock reading shows, `advance` milliseconds
/// later, exactly `advance`, also when the clock rolled over in between.
pub proof fn lemma_running_time(start: u32, advance: u32)
    ensures
        StopwatchState::started(start).observed(start.wrapping_add(advance)).time == advance,
        StopwatchState::started(start).stopped(start.wrapping_add(advance)).time == advance,
{
}

/// Once stopped, a stopwatch shows the same time at every later clock
/// reading, and stopping it again changes nothing: the time is frozen
/// until the next start.
pub proof fn lemma_stopped_time_is_frozen(watch: StopwatchState, at: u32, later: u32)
    ensures
        watch.stopped(at).observed(later) == watch.stopped(at),
        watch.stopped(at).observed(later).time == watch.stopped(at).time,
        watch.stopped(at).stopped(later) == watch.stopped(at),
        watch.running ==> watch.stopped(at).time == elapsed(at, watch.previous),
        !watch.running ==> watch.stopped(at).time == watch.time,
{
}

/// A stopwatch that has been reset shows zero at every clock reading.
pub proof fn lemma_reset_time_is_zero(later: u32)
    ensures
        StopwatchState::idle().observed(later) == StopwatchState::idle(),
        StopwatchState::idle().observed(later).time == 0,
{
}

} // verus!
