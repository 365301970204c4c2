//! Debouncing of a push button.
//!
//! The button pulls its pin low while pressed. A release is believed at
//! once. A press is reported as [`State::Down`] only when more than
//! [`DEBOUNCE_TIME`] milliseconds have passed since the button last
//! looked pressed, and as [`State::Debouncing`] otherwise. Every poll of a
//! pressed button moves that mark to the present, so a caller that polls
//! in a tight loop sees one `Down` per press and not a stream of them.

use crate::clock::{elapsed, elapsed_since};
use vstd::prelude::*;

verus! {

/// Milliseconds that must lie between two looks at a pressed button for
/// the second to count as a new press.
pub const DEBOUNCE_TIME: u32 = 30;

/// What a poll reports.
#[derive(Clone, Copy, Debug, PartialEq, Eq, Structural)]
pub enum State {
    /// The button is released.
    Up,
    /// The button has just been pressed.
    Down,
    /// The button is pressed, and was already seen pressed a moment ago.
    Debouncing,
}

/// A debouncer as a mathematical value.
pub struct ButtonState {
    /// The last report.
    pub state: State,
    /// The clock reading at which the button last looked pressed.
    pub deadline: u32,
}

/// One look at the pin together with the clock reading taken with it.
pub struct Sample {
    /// The level of the pin: high while the button is released.
    pub pin_high: bool,
    /// The clock reading, in milliseconds.
    pub now: u32,
}

impl ButtonState {
    /// A debouncer before its first poll.
    pub open spec fn fresh() -> ButtonState {
        ButtonState { state: State::Up, deadline: 0 }
    }

    /// The debouncer after a poll that found the pin at `pin_high` at the
    /// clock reading `now`.
    pub open spec fn polled(self, pin_high: bool, now: u32) -> ButtonState {
        if pin_high {
            ButtonState { state: State::Up, deadline: self.deadline }
        } else if elapsed(now, self.deadline) > DEBOUNCE_TIME {
            ButtonState { state: State::Down, deadline: now }
        } else {
            ButtonState { state: State::Debouncing, deadline: now }
        }
    }

    /// The debouncer after one poll for each of `samples`, in order.
    pub open spec fn polled_all(self, samples: Seq<Sample>) -> ButtonState
        decreases samples.len(),
    {
        if samples.len() == 0 {
            self
        } else {
            self.polled_all(samples.drop_last()).polled(samples.last().pin_high, samples.last().now)
        }
    }
}

/// Whether `samples` show a button that is held down throughout and is
/// looked at often enough: no two looks in a row lie more than
/// [`DEBOUNCE_TIME`] milliseconds apart.
pub open spec fn held_and_watched(samples: Seq<Sample>) -> bool {
    &&& forall|i: int| 0 <= i < samples.len() ==> !(#[trigger] samples[i]).pin_high
    &&& forall|i: int|
        0 < i < samples.len() ==> elapsed((#[trigger] samples[i]).now, samples[i - 1].now)
            <= DEBOUNCE_TIME
}

/// The debouncer of one button.
pub struct Button {
    state: State,
    deadline: u32,
}

impl View for Button {
    type V = ButtonState;

    closed spec fn view(&self) -> ButtonState {
        ButtonState { state: self.state, deadline: self.deadline }
    }
}

impl Button {
    /// A debouncer for a button that has not been looked at yet.
    pub fn new() -> (button: Button)
        ensures
            button@ == ButtonState::fresh(),
    {
        Button { state: State::Up, deadline: 0 }
    }

    /// Takes in one look at the pin, `pin_high`, made at the clock reading
    /// `now`, and reports what the button is doing.
    pub fn get_pulse(&mut self, pin_high: bool, now: u32) -> (state: State)
        ensures
            final(self)@ == old(self)@.polled(pin_high, now),
            state == final(self)@.state,
            pin_high ==> state == State::Up,
            !pin_high ==> (state == State::Down <==> elapsed(now, old(self)@.deadline)
                > DEBOUNCE_TIME),
            !pin_high ==> (state == State::Debouncing <==> elapsed(now, old(self)@.deadline)
                <= DEBOUNCE_TIME),
    {
        if pin_high {
            self.state = State::Up;
            return self.state;
        }
        if elapsed_since(now, self.deadline) > DEBOUNCE_TIME {
            self.state = State::Down;
            self.deadline = now;
            self.state
        } else {
            self.state = State::Debouncing;
            self.deadline = now;
            self.state
        }
    }
}

/// A poll that finds the button pressed leaves the mark at the present,
/// whatever it reports.
pub proof fn lemma_pressed_poll_moves_deadline(button: ButtonState, now: u32)
    ensures
        button.polled(false, now).deadline == now,
        button.polled(false, now).state != State::Up,
{
}

/// At the end of a run of polls that find the button held down, each at
/// most [`DEBOUNCE_TIME`] milliseconds after the one before, the mark
/// stands at the last poll, and unless the run is a single poll the
/// report is [`State::Debouncing`].
proof fn lemma_held_run(button: ButtonState, samples: Seq<Sample>)
    requires
        held_and_watched(samples),
    ensures
        samples.len() >= 1 ==> button.polled_all(samples).deadline == samples.last().now,
        samples.len() >= 2 ==> button.polled_all(samples).state == State::Debouncing,
    decreases samples.len(),
{
    if samples.len() >= 1 {
        let before = samples.drop_last();
        lemma_held_prefix(samples, before.len() as int);
        assert(before =~= samples.take(before.len() as int));
        lemma_held_run(button, before);
        assert(!samples[samples.len() - 1].pin_high);
        if samples.len() >= 2 {
            assert(before.last() == samples[samples.len() - 2]);
            assert(elapsed(samples[samples.len() - 1].now, samples[samples.len() - 2].now)
                <= DEBOUNCE_TIME);
        }
    }
}

/// The first `n` polls of a held and watched run are such a run too.
proof fn lemma_held_prefix(samples: Seq<Sample>, n: int)
    requires
        held_and_watched(samples),
        0 <= n <= samples.len(),
    ensures
        held_and_watched(samples.take(n)),
{
    let first = samples.take(n);
    assert forall|i: int| 0 <= i < first.len() implies !(#[trigger] first[i]).pin_high by {
        assert(first[i] == samples[i]);
    }
    assert forall|i: int| 0 < i < first.len() implies elapsed(
        (#[trigger] first[i]).now,
        first[i - 1].now,
    ) <= DEBOUNCE_TIME by {
        assert(first[i] == samples[i]);
        assert(first[i - 1] == samples[i - 1]);
    }
}

/// While a button is held down and polled at least every
/// [`DEBOUNCE_TIME`] milliseconds, only the first poll can report
/// [`State::Down`]: the second and every later one reports
/// [`State::Debouncing`].
pub proof fn lemma_single_pulse_while_held(button: ButtonState, samples: Seq<Sample>)
    requires
        held_and_watched(samples),
    ensures
        forall|n: int|
            2 <= n <= samples.len() ==> button.polled_all(#[trigger] samples.take(n)).state
                == State::Debouncing,
{
    assert forall|n: int| 2 <= n <= samples.len() implies button.polled_all(
        #[trigger] samples.take(n),
    ).state == State::Debouncing by {
        lemma_held_prefix(samples, n);
        lemma_held_run(button, samples.take(n));
    }
}

/// A press is reported as [`State::Down`] exactly when the button has
/// not looked pressed for more than [`DEBOUNCE_TIME`] milliseconds, also
/// when the clock has rolled over in between.
pub proof fn lemma_press_after_quiet_time(button: ButtonState, quiet: u32)
    ensures
        button.polled(false, button.deadline.wrapping_add(quiet)).state == (if quiet
            > DEBOUNCE_TIME {
            State::Down
        } else {
            State::Debouncing
        }),
{
}

} // verus!
