//! The device as a whole: three buttons, the dice, the generator, the
//! stopwatch and the display, and the rules that tie them together.
//!
//! The hardware layer calls [`Device::step`] over and over, each time with
//! a fresh look at the three button pins and the clock, and then applies
//! the signals that the step has queued for the display.
//!
//! The first button rolls the dice: the roll begins when the button goes
//! down and ends when it comes up again, and the time in between is mixed
//! into the generator. In configuration mode the first button goes back
//! to rolling, the second changes the number of dice and the third the
//! kind of die. While rolling, the second and third button lead into
//! configuration mode.

use crate::button::{Button, ButtonState, State};
use crate::dice_roller::{
    registers_after_throws, total_of_throws, DiceRoller, Mode, RollerState,
};
use crate::display::{
    config_signals, timer_signals, u16_signals, BitOrder, Display, DisplayState, Signal,
};
use crate::mini_rng::{Registers, Rng};
use crate::stopwatch::{Stopwatch, StopwatchState};
use vstd::prelude::*;

verus! {

/// One look at the outside world: the levels of the three button pins,
/// high while a button is released, and the clock reading.
#[derive(Clone, Copy, Debug)]
pub struct Inputs {
    pub button1_high: bool,
    pub button2_high: bool,
    pub button3_high: bool,
    pub now: u32,
}

/// What one step does in answer to the buttons.
#[derive(Clone, Copy, Debug, PartialEq, Eq, Structural)]
pub enum Action {
    /// Go from configuration mode to normal mode.
    LeaveConfiguration,
    /// Begin a roll: reseed the generator and start the stopwatch.
    BeginRoll,
    /// End the roll: stop the stopwatch, reseed the generator and throw.
    FinishRoll,
    /// Throw one die more, or one again after nine.
    ChangeDiceAmount,
    /// Select the next die.
    ChangeDice,
    /// Go from normal mode to configuration mode.
    EnterConfiguration,
    /// Nothing.
    Idle,
}

/// A device as a mathematical value.
pub struct DeviceState {
    pub button1: ButtonState,
    pub button2: ButtonState,
    pub button3: ButtonState,
    pub roller: RollerState,
    pub rng: Registers,
    pub stopwatch: StopwatchState,
    pub display: DisplayState,
}

impl DeviceState {
    /// A device that has just been switched on at the clock reading
    /// `now`.
    pub open spec fn booted(bit_order: BitOrder, now: u32) -> DeviceState {
        DeviceState {
            button1: ButtonState::fresh(),
            button2: ButtonState::fresh(),
            button3: ButtonState::fresh(),
            roller: RollerState::initial(),
            rng: Registers::seeded(now),
            stopwatch: StopwatchState::idle(),
            display: DisplayState { bit_order, queued: Seq::empty() },
        }
    }

    /// Whether the first button, once polled, answers for this step: it
    /// has gone down, or it is up while a roll is under way.
    pub open spec fn first_button_acts(self, inputs: Inputs) -> bool {
        let first = self.button1.polled(inputs.button1_high, inputs.now).state;
        first == State::Down || (first == State::Up && self.roller.rolling)
    }

    /// What the step does in answer to `inputs`. The buttons are asked in
    /// order, and the first that has something to say decides.
    pub open spec fn decided(self, inputs: Inputs) -> Action {
        let configuring = self.roller.mode == Mode::ConfigurationMode;
        let first = self.button1.polled(inputs.button1_high, inputs.now).state;
        if first == State::Down {
            if configuring {
                Action::LeaveConfiguration
            } else {
                Action::BeginRoll
            }
        } else if first == State::Up && self.roller.rolling {
            Action::FinishRoll
        } else if self.button2.polled(inputs.button2_high, inputs.now).state == State::Down {
            if configuring {
                Action::ChangeDiceAmount
            } else {
                Action::EnterConfiguration
            }
        } else if self.button3.polled(inputs.button3_high, inputs.now).state == State::Down {
            if configuring {
                Action::ChangeDice
            } else {
                Action::EnterConfiguration
            }
        } else {
            Action::Idle
        }
    }

    /// The device after the buttons have been asked. A button that comes
    /// after the one that decided is not polled.
    pub open spec fn polled(self, inputs: Inputs) -> DeviceState {
        let button1 = self.button1.polled(inputs.button1_high, inputs.now);
        let second = self.button2.polled(inputs.button2_high, inputs.now);
        let third = self.button3.polled(inputs.button3_high, inputs.now);
        if self.first_button_acts(inputs) {
            DeviceState { button1, ..self }
        } else if second.state == State::Down {
            DeviceState { button1, button2: second, ..self }
        } else {
            DeviceState { button1, button2: second, button3: third, ..self }
        }
    }

    /// The device after it has carried out `action` at the clock reading
    /// `now`.
    pub open spec fn acted(self, action: Action, now: u32) -> DeviceState {
        match action {
            Action::LeaveConfiguration => DeviceState {
                roller: RollerState { mode: Mode::NormalMode, ..self.roller },
                ..self
            },
            Action::EnterConfiguration => DeviceState {
                roller: RollerState { mode: Mode::ConfigurationMode, ..self.roller },
                ..self
            },
            Action::BeginRoll => DeviceState {
                rng: self.rng.advance_by(4).reseed(self.rng.drawn_word().wrapping_add(now)),
                stopwatch: StopwatchState::started(now),
                roller: RollerState { rolling: true, ..self.roller },
                ..self
            },
            Action::FinishRoll => {
                let stopwatch = self.stopwatch.stopped(now);
                let seed = self.rng.drawn_word().wrapping_add(now).wrapping_add(stopwatch.time);
                let rng = self.rng.advance_by(4).reseed(seed);
                let throws = self.roller.throws as nat;
                DeviceState {
                    stopwatch,
                    rng: registers_after_throws(rng, self.roller.sides(), throws),
                    roller: RollerState {
                        rolling: false,
                        roll: total_of_throws(rng, self.roller.sides(), throws) as u16,
                        ..self.roller
                    },
                    ..self
                }
            },
            Action::ChangeDiceAmount => DeviceState {
                roller: RollerState {
                    throws: if self.roller.throws < 9 {
                        (self.roller.throws + 1) as u8
                    } else {
                        1
                    },
                    ..self.roller
                },
                ..self
            },
            Action::ChangeDice => DeviceState {
                roller: RollerState { position: (self.roller.position + 1) % 7, ..self.roller },
                ..self
            },
            Action::Idle => self,
        }
    }

    /// The device after it has queued what the display is to show at the
    /// clock reading `now`: the choice of dice in configuration mode, the
    /// running time during a roll, and the last total otherwise.
    pub open spec fn refreshed(self, now: u32) -> DeviceState {
        let order = self.display.bit_order;
        if self.roller.mode == Mode::ConfigurationMode {
            DeviceState {
                display: DisplayState {
                    queued: self.display.queued + config_signals(
                        order,
                        self.roller.throws,
                        self.roller.sides(),
                    ),
                    ..self.display
                },
                ..self
            }
        } else if self.roller.rolling {
            let stopwatch = self.stopwatch.observed(now);
            DeviceState {
                stopwatch,
                display: DisplayState {
                    queued: self.display.queued + timer_signals(order, stopwatch.time),
                    ..self.display
                },
                ..self
            }
        } else {
            DeviceState {
                display: DisplayState {
                    queued: self.display.queued + u16_signals(order, self.roller.roll),
                    ..self.display
                },
                ..self
            }
        }
    }

    /// The device after one whole step.
    pub open spec fn stepped(self, inputs: Inputs) -> DeviceState {
        self.polled(inputs).acted(self.decided(inputs), inputs.now).refreshed(inputs.now)
    }
}

/// The device.
pub struct Device {
    button1: Button,
    button2: Button,
    button3: Button,
    roller: DiceRoller,
    rng: Rng,
    stopwatch: Stopwatch,
    display: Display,
}

impl View for Device {
    type V = DeviceState;

    closed spec fn view(&self) -> DeviceState {
        DeviceState {
            button1: self.button1@,
            button2: self.button2@,
            button3: self.button3@,
            roller: self.roller@,
            rng: self.rng@,
            stopwatch: self.stopwatch@,
            display: self.display@,
        }
    }
}

impl Device {
    /// Switches the device on at the clock reading `now`, which seeds the
    /// generator.
    pub fn new(bit_order: BitOrder, now: u32) -> (device: Device)
        ensures
            device@ == DeviceState::booted(bit_order, now),
    {
        Device {
            button1: Button::new(),
            button2: Button::new(),
            button3: Button::new(),
            roller: DiceRoller::new(),
            rng: Rng::new(now),
            stopwatch: Stopwatch::new(),
            display: Display::new(bit_order),
        }
    }

    /// Asks the buttons in order and says what is to be done.
    fn decide(&mut self, inputs: Inputs) -> (action: Action)
        ensures
            action == old(self)@.decided(inputs),
            final(self)@ == old(self)@.polled(inputs),
    {
        let configuring = self.roller.mode() == Mode::ConfigurationMode;
        if self.button1.get_pulse(inputs.button1_high, inputs.now) == State::Down {
            if configuring {
                Action::LeaveConfiguration
            } else {
                Action::BeginRoll
            }
        } else if self.button1.get_pulse(inputs.button1_high, inputs.now) == State::Up
            && self.roller.rolling() {
            Action::FinishRoll
        } else if self.button2.get_pulse(inputs.button2_high, inputs.now) == State::Down {
            if configuring {
                Action::ChangeDiceAmount
            } else {
                Action::EnterConfiguration
            }
        } else if self.button3.get_pulse(inputs.button3_high, inputs.now) == State::Down {
            if configuring {
                Action::ChangeDice
            } else {
                Action::EnterConfiguration
            }
        } else {
            Action::Idle
        }
    }

    /// Carries out `action` at the clock reading `now`.
    fn act(&mut self, action: Action, now: u32)
        ensures
            final(self)@ == old(self)@.acted(action, now),
    {
        match action {
            Action::LeaveConfiguration => {
                self.roller.set_mode(Mode::NormalMode);
            },
            Action::EnterConfiguration => {
                self.roller.set_mode(Mode::ConfigurationMode);
            },
            Action::BeginRoll => {
                let random = self.rng.rand_u32();
                self.rng.reseed(random.wrapping_add(now));
                self.stopwatch.start(now);
                self.roller.set_rolling(true);
            },
            Action::FinishRoll => {
                self.stopwatch.stop(now);
                let random = self.rng.rand_u32();
                let time = self.stopwatch.get_time(now);
                self.rng.reseed(random.wrapping_add(now).wrapping_add(time));
                self.roller.set_rolling(false);
                self.roller.roll(&mut self.rng);
            },
            Action::ChangeDiceAmount => {
                self.roller.change_dice_amount();
            },
            Action::ChangeDice => {
                self.roller.change_dice();
            },
            Action::Idle => {},
        }
    }

    /// Queues what the display is to show at the clock reading `now`.
    fn refresh(&mut self, now: u32)
        ensures
            final(self)@ == old(self)@.refreshed(now),
    {
        match self.roller.mode() {
            Mode::ConfigurationMode => {
                self.display.display_config(&self.roller);
            },
            Mode::NormalMode => {
                if self.roller.rolling() {
                    let time = self.stopwatch.get_time(now);
                    self.display.display_timer(time);
                } else {
                    self.display.display_u16(self.roller.get_roll());
                }
            },
        }
    }

    /// Takes one look at the buttons and the clock, does what the buttons
    /// ask for, and queues what the display is to show.
    pub fn step(&mut self, inputs: Inputs)
        ensures
            final(self)@ == old(self)@.stepped(inputs),
    {
        let action = self.decide(inputs);
        self.act(action, inputs.now);
        self.refresh(inputs.now);
    }

    /// Hands over the signals queued for the display, oldest first, and
    /// empties the queue.
    pub fn take_signals(&mut self) -> (signals: Vec<Signal>)
        ensures
            signals@ == old(self)@.display.queued,
            final(self)@ == (DeviceState {
                display: DisplayState { queued: Seq::empty(), ..old(self)@.display },
                ..old(self)@
            }),
    {
        self.display.take_signals()
    }

    /// The current mode.
    pub fn mode(&self) -> (mode: Mode)
        ensures
            mode == self@.roller.mode,
    {
        self.roller.mode()
    }

    /// Whether a roll is under way.
    pub fn rolling(&self) -> (rolling: bool)
        ensures
            rolling == self@.roller.rolling,
    {
        self.roller.rolling()
    }

    /// The total of the last roll; zero before the first.
    pub fn last_roll(&self) -> (roll: u16)
        ensures
            roll == self@.roller.roll,
    {
        self.roller.get_roll()
    }
}

} // verus!
