//! The millisecond time base.
//!
//! A hardware timer interrupts at a fixed period, and each interrupt adds
//! a fixed number of milliseconds to a 32-bit counter. The counter wraps
//! at 2^32, so consumers measure time as the wrapped difference of two
//! readings and never compare readings directly.

use vstd::prelude::*;

verus! {

/// Processor cycles per millisecond.
pub const CYCLES_PER_MILLI: u32 = 16_000;

/// The divisions of the processor clock that the timer can count.
#[derive(Clone, Copy, Debug, PartialEq, Eq, Structural)]
pub enum Prescale {
    By8,
    By64,
    By256,
    By1024,
}

/// The timer setting that divides the processor clock by `prescaler`, if
/// the timer has one.
pub open spec fn prescale_of(prescaler: u32) -> Option<Prescale> {
    if prescaler == 8 {
        Some(Prescale::By8)
    } else if prescaler == 64 {
        Some(Prescale::By64)
    } else if prescaler == 256 {
        Some(Prescale::By256)
    } else if prescaler == 1024 {
        Some(Prescale::By1024)
    } else {
        None
    }
}

/// Whether the timer can divide the processor clock by `prescaler`.
pub open spec fn supported_prescaler(prescaler: u32) -> bool {
    prescaler == 8 || prescaler == 64 || prescaler == 256 || prescaler == 1024
}

/// The milliseconds that pass between two interrupts of a timer that
/// counts `compare_count` steps of the processor clock divided by
/// `prescaler`.
pub open spec fn millis_increment(prescaler: u32, compare_count: u8) -> int {
    prescaler * compare_count / (CYCLES_PER_MILLI as int)
}

/// The time from the reading `earlier` to the reading `now`, taken modulo
/// 2^32 so that a rollover between the two does not disturb it.
pub open spec fn elapsed(now: u32, earlier: u32) -> u32 {
    now.wrapping_sub(earlier)
}

/// A clock as a mathematical value.
pub struct ClockState {
    /// Milliseconds counted so far, modulo 2^32.
    pub counter: u32,
    /// Milliseconds added by each interrupt.
    pub increment: u32,
}

impl ClockState {
    /// The clock after one interrupt.
    pub open spec fn ticked(self) -> ClockState {
        ClockState { counter: self.counter.wrapping_add(self.increment), increment: self.increment }
    }

    /// The clock after `n` interrupts.
    pub open spec fn ticked_by(self, n: nat) -> ClockState
        decreases n,
    {
        if n == 0 {
            self
        } else {
            self.ticked().ticked_by((n - 1) as nat)
        }
    }

    /// The clock right after it was configured.
    pub open spec fn configured(prescaler: u32, compare_count: u8) -> ClockState {
        ClockState { counter: 0, increment: millis_increment(prescaler, compare_count) as u32 }
    }
}

/// The free-running millisecond counter.
#[derive(Clone, Copy, Debug)]
pub struct MonotonicClock {
    counter: u32,
    increment: u32,
}

impl View for MonotonicClock {
    type V = ClockState;

    closed spec fn view(&self) -> ClockState {
        ClockState { counter: self.counter, increment: self.increment }
    }
}

/// Picks the timer setting for `prescaler`, or nothing where the timer
/// cannot divide by it.
pub fn prescale_select(prescaler: u32) -> (r: Option<Prescale>)
    ensures
        r == prescale_of(prescaler),
        r.is_some() <==> supported_prescaler(prescaler),
{
    if prescaler == 8 {
        Some(Prescale::By8)
    } else if prescaler == 64 {
        Some(Prescale::By64)
    } else if prescaler == 256 {
        Some(Prescale::By256)
    } else if prescaler == 1024 {
        Some(Prescale::By1024)
    } else {
        None
    }
}

/// The wrapped time from `earlier` to `now`.
pub fn elapsed_since(now: u32, earlier: u32) -> (r: u32)
    ensures
        r == elapsed(now, earlier),
{
    now.wrapping_sub(earlier)
}

impl MonotonicClock {
    /// Configures the clock for a timer that fires every `compare_count`
    /// steps of the processor clock divided by `prescaler`, and starts
    /// counting from zero.
    pub fn init(prescaler: u32, compare_count: u8) -> (clock: MonotonicClock)
        requires
            supported_prescaler(prescaler),
        ensures
            clock@ == ClockState::configured(prescaler, compare_count),
            clock@.counter == 0,
            clock@.increment == millis_increment(prescaler, compare_count),
    {
        assert(prescaler * compare_count <= 1024 * 255) by (nonlinear_arith)
            requires
                0 <= prescaler <= 1024,
                0 <= compare_count <= 255,
        ;
        assert(0 <= prescaler * compare_count) by (nonlinear_arith)
            requires
                0 <= prescaler,
                0 <= compare_count,
        ;
        MonotonicClock { counter: 0, increment: prescaler * (compare_count as u32) / CYCLES_PER_MILLI }
    }

    /// Counts one timer interrupt.
    pub fn tick(&mut self)
        ensures
            final(self)@ == old(self)@.ticked(),
    {
        self.counter = self.counter.wrapping_add(self.increment);
    }

    /// The milliseconds counted so far, modulo 2^32.
    pub fn read(&self) -> (now: u32)
        ensures
            now == self@.counter,
    {
        self.counter
    }
}

/// After `n` interrupts the counter has grown by `n` increments, modulo
/// 2^32.
pub proof fn lemma_ticked_by(clock: ClockState, n: nat)
    ensures
        clock.ticked_by(n).increment == clock.increment,
        clock.ticked_by(n).counter == (clock.counter + n * clock.increment) % 0x1_0000_0000,
    decreases n,
{
    if n == 0 {
        assert(n * clock.increment == 0) by (nonlinear_arith)
            requires
                n == 0,
        ;
    } else {
        let next = clock.ticked();
        let m = (n - 1) as nat;
        lemma_ticked_by(next, m);
        let inc = clock.increment as int;
        assert(n * inc == m * inc + inc) by (nonlinear_arith)
            requires
                n == m + 1,
        ;
        let wrapped = next.counter as int;
        let full = clock.counter + inc;
        assert(wrapped == full || wrapped == full - 0x1_0000_0000);
        assert((full - 0x1_0000_0000 + m * inc) % 0x1_0000_0000 == (full + m * inc)
            % 0x1_0000_0000) by {
            vstd::arithmetic::div_mod::lemma_mod_multiples_vanish(
                -1,
                full + m * inc,
                0x1_0000_0000,
            );
        }
    }
}

/// A clock that has just been configured reads, after `n` interrupts, `n`
/// times its increment modulo 2^32.
pub proof fn lemma_read_after_interrupts(prescaler: u32, compare_count: u8, n: nat)
    requires
        supported_prescaler(prescaler),
    ensures
        ClockState::configured(prescaler, compare_count).ticked_by(n).counter == (n
            * millis_increment(prescaler, compare_count)) % 0x1_0000_0000,
{
    let clock = ClockState::configured(prescaler, compare_count);
    assert(0 <= prescaler * compare_count <= 1024 * 255) by (nonlinear_arith)
        requires
            0 <= prescaler <= 1024,
            0 <= compare_count <= 255,
    ;
    assert(clock.increment == millis_increment(prescaler, compare_count));
    lemma_ticked_by(clock, n);
}

/// Going forward by `advance` milliseconds from any reading, rollover or
/// not, and measuring back to that reading gives `advance`.
pub proof fn lemma_elapsed_across_rollover(start: u32, advance: u32)
    ensures
        elapsed(start.wrapping_add(advance), start) == advance,
{
}

/// The time measured over `n` interrupts is `n` increments, as long as
/// that fits in 32 bits, wherever the counter stood at the start.
pub proof fn lemma_elapsed_over_interrupts(clock: ClockState, n: nat)
    requires
        n * clock.increment < 0x1_0000_0000,
    ensures
        elapsed(clock.ticked_by(n).counter, clock.counter) == n * clock.increment,
{
    lemma_ticked_by(clock, n);
    let total = n * clock.increment;
    assert(0 <= total) by (nonlinear_arith)
        requires
            total == n * clock.increment,
            0 <= n,
            0 <= clock.increment,
    ;
    let sum = clock.counter + total;
    if sum < 0x1_0000_0000 {
        assert(sum % 0x1_0000_0000 == sum);
    } else {
        assert(sum % 0x1_0000_0000 == sum - 0x1_0000_0000);
    }
}

} // verus!
