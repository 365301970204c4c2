//! The dice that the device rolls: which die, how many of them, and the
//! total of the last roll.

use crate::mini_rng::{product_high, Registers, Rng};
use vstd::prelude::*;

verus! {

/// What the buttons and the display are used for at the moment.
#[derive(Clone, Copy, Debug, PartialEq, Eq, Structural)]
pub enum Mode {
    /// Rolling dice and showing the total.
    NormalMode,
    /// Choosing the die and the number of dice.
    ConfigurationMode,
}

/// The dice on offer, by number of faces, in the order in which a button
/// press steps through them.
pub open spec fn faces() -> Seq<u8> {
    seq![4, 6, 8, 10, 12, 20, 100]
}

/// The most dice that one roll can throw.
pub const MAX_THROWS: u8 = 9;

/// The die that is selected.
pub struct Dice {
    dice: [u8; 7],
    index: usize,
}

impl Dice {
    #[verifier::type_invariant]
    spec fn well_formed(self) -> bool {
        &&& self.index < 7
        &&& self.dice@ =~= faces()
    }

    /// The place of the selected die among [`faces`].
    pub closed spec fn position(self) -> int {
        self.index as int
    }

    /// The number of faces of the selected die.
    pub open spec fn sides(self) -> u8 {
        faces()[self.position()]
    }

    /// The smallest die.
    pub fn new() -> (dice: Dice)
        ensures
            dice.position() == 0,
    {
        Dice { dice: [4, 6, 8, 10, 12, 20, 100], index: 0 }
    }

    /// Moves on to the next larger die, and from the largest back to the
    /// smallest.
    pub fn cycle(&mut self)
        ensures
            final(self).position() == (old(self).position() + 1) % 7,
        no_unwind
    {
        proof {
            use_type_invariant(&*self);
        }
        if self.index < 6 {
            self.index += 1;
        } else {
            self.index = 0;
        }
    }

    /// The number of faces of the selected die.
    pub fn get(&self) -> (sides: u8)
        ensures
            sides == self.sides(),
            0 <= self.position() < 7,
            4 <= sides <= 100,
    {
        proof {
            use_type_invariant(self);
        }
        self.dice[self.index]
    }
}

/// A dice roller as a mathematical value.
pub struct RollerState {
    /// The current mode.
    pub mode: Mode,
    /// How many dice one roll throws.
    pub throws: u8,
    /// The place of the selected die among [`faces`].
    pub position: int,
    /// The total of the last roll.
    pub roll: u16,
    /// Whether a roll is under way.
    pub rolling: bool,
}

impl RollerState {
    /// The number of faces of the selected die.
    pub open spec fn sides(self) -> u8 {
        faces()[self.position]
    }

    /// A roller as it is when the device starts.
    pub open spec fn initial() -> RollerState {
        RollerState {
            mode: Mode::ConfigurationMode,
            throws: 1,
            position: 0,
            roll: 0,
            rolling: false,
        }
    }
}

/// The generator after `throws` samples below `sides` have been drawn
/// from it.
pub open spec fn registers_after_throws(rng: Registers, sides: u8, throws: nat) -> Registers
    decreases throws,
{
    if throws == 0 {
        rng
    } else {
        registers_after_throws(rng.sampled(sides), sides, (throws - 1) as nat)
    }
}

/// The total of `throws` dice with `sides` faces each, every die showing
/// one more than the sample drawn for it.
pub open spec fn total_of_throws(rng: Registers, sides: u8, throws: nat) -> int
    decreases throws,
{
    if throws == 0 {
        0
    } else {
        let drawn = rng.sampled(sides);
        product_high(drawn.c, sides) + 1 + total_of_throws(drawn, sides, (throws - 1) as nat)
    }
}

/// The dice roller.
pub struct DiceRoller {
    mode: Mode,
    throws: u8,
    dice: Dice,
    roll: u16,
    rolling: bool,
}

impl View for DiceRoller {
    type V = RollerState;

    closed spec fn view(&self) -> RollerState {
        RollerState {
            mode: self.mode,
            throws: self.throws,
            position: self.dice.position(),
            roll: self.roll,
            rolling: self.rolling,
        }
    }
}

impl DiceRoller {
    #[verifier::type_invariant]
    spec fn well_formed(self) -> bool {
        1 <= self.throws <= MAX_THROWS
    }

    /// A roller in configuration mode, set to one four-sided die.
    pub fn new() -> (roller: DiceRoller)
        ensures
            roller@ == RollerState::initial(),
    {
        DiceRoller {
            mode: Mode::ConfigurationMode,
            throws: 1,
            dice: Dice::new(),
            roll: 0,
            rolling: false,
        }
    }

    /// The current mode.
    pub fn mode(&self) -> (mode: Mode)
        ensures
            mode == self@.mode,
    {
        self.mode
    }

    /// Switches to `mode`.
    pub fn set_mode(&mut self, mode: Mode)
        ensures
            final(self)@ == (RollerState { mode, ..old(self)@ }),
    {
        proof {
            use_type_invariant(&*self);
        }
        self.mode = mode;
    }

    /// Whether a roll is under way.
    pub fn rolling(&self) -> (rolling: bool)
        ensures
            rolling == self@.rolling,
    {
        self.rolling
    }

    /// Records that a roll has begun or ended.
    pub fn set_rolling(&mut self, rolling: bool)
        ensures
            final(self)@ == (RollerState { rolling, ..old(self)@ }),
    {
        proof {
            use_type_invariant(&*self);
        }
        self.rolling = rolling;
    }

    /// Throws one die more, and after nine dice one die again.
    pub fn change_dice_amount(&mut self)
        ensures
            final(self)@ == (RollerState {
                throws: if old(self)@.throws < MAX_THROWS {
                    (old(self)@.throws + 1) as u8
                } else {
                    1
                },
                ..old(self)@
            }),
    {
        proof {
            use_type_invariant(&*self);
        }
        if self.throws < MAX_THROWS {
            self.throws += 1;
        } else {
            self.throws = 1;
        }
    }

    /// How many dice one roll throws: from one to nine.
    pub fn get_dice_amount(&self) -> (throws: u8)
        ensures
            throws == self@.throws,
            1 <= throws <= MAX_THROWS,
    {
        proof {
            use_type_invariant(self);
        }
        self.throws
    }

    /// Selects the next larger die, and after the largest the smallest.
    pub fn change_dice(&mut self)
        ensures
            final(self)@ == (RollerState {
                position: (old(self)@.position + 1) % 7,
                ..old(self)@
            }),
    {
        proof {
            use_type_invariant(&*self);
        }
        self.dice.cycle();
    }

    /// The number of faces of the selected die.
    pub fn get_dice(&self) -> (sides: u8)
        ensures
            sides == self@.sides(),
            0 <= self@.position < 7,
            4 <= sides <= 100,
    {
        self.dice.get()
    }

    /// Throws the dice: draws one sample per die from `rng` and adds up
    /// what the dice show.
    pub fn roll(&mut self, rng: &mut Rng)
        ensures
            final(self)@ == (RollerState {
                roll: total_of_throws(old(rng)@, old(self)@.sides(), old(self)@.throws as nat) as u16,
                ..old(self)@
            }),
            final(rng)@ == registers_after_throws(
                old(rng)@,
                old(self)@.sides(),
                old(self)@.throws as nat,
            ),
            final(self)@.throws <= final(self)@.roll <= final(self)@.throws * final(self)@.sides(),
    {
        proof {
            use_type_invariant(&*self);
        }
        let sides = self.get_dice();
        let throws = self.throws;
        let ghost start = rng@;
        let mut total: u16 = 0;
        let mut thrown: u8 = 0;
        while thrown < throws
            invariant
                thrown <= throws <= MAX_THROWS,
                4 <= sides <= 100,
                thrown <= total <= thrown * sides,
                registers_after_throws(rng@, sides, (throws - thrown) as nat)
                    == registers_after_throws(start, sides, throws as nat),
                total + total_of_throws(rng@, sides, (throws - thrown) as nat) == total_of_throws(
                    start,
                    sides,
                    throws as nat,
                ),
            decreases throws - thrown,
        {
            let sample = rng.rand_range(sides);
            assert(thrown * sides + sides == (thrown + 1) * sides) by (nonlinear_arith);
            assert(thrown * sides <= 9 * 100) by (nonlinear_arith)
                requires
                    0 <= thrown <= 9,
                    0 <= sides <= 100,
            ;
            total += (sample + 1) as u16;
            thrown += 1;
        }
        self.roll = total;
    }

    /// The total of the last roll; zero before the first.
    pub fn get_roll(&self) -> (roll: u16)
        ensures
            roll == self@.roll,
    {
        self.roll
    }
}

} // verus!
