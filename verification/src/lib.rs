//! Timekeeping, debouncing and pseudo-random dice rolls for a small
//! button-and-display dice device.
//!
//! Everything here works on plain values: the hardware layer samples the
//! pins and the millisecond clock, hands the readings in, and drives the
//! output lines with the signals it gets back.

pub mod button;
pub mod clock;
pub mod device;
pub mod dice_roller;
pub mod display;
pub mod mini_rng;
pub mod period;
pub mod stopwatch;
