//! The four-digit display.
//!
//! The digits sit behind two chained shift registers that are fed over
//! three lines: a data line, a clock line that takes one bit in on each
//! pulse, and a latch line that puts the bits on show when it rises. To
//! light a digit the driver sends the segment pattern and then the byte
//! that selects the position.
//!
//! The driver does not touch the lines itself. It queues the level
//! changes in the order in which they have to happen, and whoever owns
//! the pins takes them from the queue and applies them.

use crate::dice_roller::DiceRoller;
use vstd::prelude::*;

verus! {

/// The segment patterns of the digits zero to nine, and of a blank. A
/// segment is lit where its bit is clear.
pub const SEGMAP: [u8; 11] = [0xC0, 0xF9, 0xA4, 0xB0, 0x99, 0x92, 0x82, 0xF8, 0x80, 0x90, 0xFF];

/// The bytes that select the four positions, leftmost first.
pub const DIGIT: [u8; 4] = [0xF1, 0xF2, 0xF4, 0xF8];

/// The segment pattern of a lower-case `d`.
pub const LETTER_D: u8 = 0b10100001;

/// The order in which the bits of a byte go out.
#[derive(Clone, Copy, Debug, PartialEq, Eq, Structural)]
pub enum BitOrder {
    LsbFirst,
    MsbFirst,
}

/// The three lines to the shift registers.
#[derive(Clone, Copy, Debug, PartialEq, Eq, Structural)]
pub enum Line {
    Latch,
    Clock,
    Data,
}

/// One level change on one line.
#[derive(Clone, Copy, Debug, PartialEq, Eq, Structural)]
pub struct Signal {
    pub line: Line,
    pub high: bool,
}

/// The pattern with the decimal point lit as well.
pub open spec fn with_decimal_point(pattern: u8) -> u8 {
    pattern & 0x7f
}

/// The level of the data line for the `i`-th bit to go out of `value`.
pub open spec fn data_level(order: BitOrder, value: u8, i: u8) -> bool
    recommends
        i < 8,
{
    match order {
        BitOrder::LsbFirst => (value >> i) & 1 == 1,
        BitOrder::MsbFirst => (value >> ((7 - i) as u8)) & 1 == 1,
    }
}

/// The signals that clock the `i`-th bit of `value` in: the data line
/// takes the level of the bit, then the clock line rises and falls.
pub open spec fn bit_signals(order: BitOrder, value: u8, i: u8) -> Seq<Signal> {
    seq![
        Signal { line: Line::Data, high: data_level(order, value, i) },
        Signal { line: Line::Clock, high: true },
        Signal { line: Line::Clock, high: false },
    ]
}

/// The signals that clock the first `n` bits of `value` in.
pub open spec fn bits_signals(order: BitOrder, value: u8, n: nat) -> Seq<Signal>
    decreases n,
{
    if n == 0 {
        Seq::empty()
    } else {
        bits_signals(order, value, (n - 1) as nat) + bit_signals(order, value, (n - 1) as u8)
    }
}

/// The signals that clock all eight bits of `value` in.
pub open spec fn byte_signals(order: BitOrder, value: u8) -> Seq<Signal> {
    bits_signals(order, value, 8)
}

/// The signals that put `pattern` on show at the position that `select`
/// stands for: the latch line falls, the two bytes go out, the latch line
/// rises.
pub open spec fn latched_signals(order: BitOrder, pattern: u8, select: u8) -> Seq<Signal> {
    seq![Signal { line: Line::Latch, high: false }] + byte_signals(order, pattern) + byte_signals(
        order,
        select,
    ) + seq![Signal { line: Line::Latch, high: true }]
}

/// The signals that show the digit `value`, or a blank for ten, at the
/// position `segment`, with or without the decimal point.
pub open spec fn number_signals(order: BitOrder, segment: u8, value: u8, show_dot: bool) -> Seq<
    Signal,
>
    recommends
        segment < 4,
        value < 11,
{
    latched_signals(
        order,
        if show_dot {
            with_decimal_point(SEGMAP@[value as int])
        } else {
            SEGMAP@[value as int]
        },
        DIGIT@[segment as int],
    )
}

/// The signals that show the letter `d` at the position `segment`.
pub open spec fn letter_signals(order: BitOrder, segment: u8) -> Seq<Signal>
    recommends
        segment < 4,
{
    latched_signals(order, LETTER_D, DIGIT@[segment as int])
}

/// The signals that show `number` flush right without leading zeros. Of
/// a number with more than four digits the last four are shown.
pub open spec fn u16_signals(order: BitOrder, number: u16) -> Seq<Signal> {
    (if number >= 1000 {
        number_signals(order, 0, (number / 1000 % 10) as u8, false)
    } else {
        Seq::empty()
    }) + (if number >= 100 {
        number_signals(order, 1, (number / 100 % 10) as u8, false)
    } else {
        Seq::empty()
    }) + (if number >= 10 {
        number_signals(order, 2, (number / 10 % 10) as u8, false)
    } else {
        Seq::empty()
    }) + number_signals(order, 3, (number % 10) as u8, false)
}

/// The signals that show `number` milliseconds as seconds with one
/// decimal place: tens and hundreds of seconds only where there are any,
/// then the seconds with the decimal point, then the tenths.
pub open spec fn timer_signals(order: BitOrder, number: u32) -> Seq<Signal> {
    (if number >= 100_000 {
        number_signals(order, 0, (number / 100_000 % 10) as u8, false)
    } else {
        Seq::empty()
    }) + (if number >= 10_000 {
        number_signals(order, 1, (number / 10_000 % 10) as u8, false)
    } else {
        Seq::empty()
    }) + number_signals(order, 2, (number / 1000 % 10) as u8, true) + number_signals(
        order,
        3,
        (number / 100 % 10) as u8,
        false,
    )
}

/// The signals that show a choice of `throws` dice with `sides` faces:
/// the number of dice, the letter `d`, and the last two digits of the
/// number of faces.
pub open spec fn config_signals(order: BitOrder, throws: u8, sides: u8) -> Seq<Signal>
    recommends
        throws < 11,
        sides <= 100,
{
    number_signals(order, 0, throws, false) + letter_signals(order, 1) + (if sides == 100 {
        number_signals(order, 2, 0, false) + number_signals(order, 3, 0, false)
    } else {
        number_signals(order, 2, sides / 10, false) + number_signals(order, 3, sides % 10, false)
    })
}

/// A display driver as a mathematical value.
pub struct DisplayState {
    /// The order in which the bits of a byte go out.
    pub bit_order: BitOrder,
    /// The signals that are queued, oldest first.
    pub queued: Seq<Signal>,
}

/// The display driver.
pub struct Display {
    bit_order: BitOrder,
    queue: Vec<Signal>,
}

impl View for Display {
    type V = DisplayState;

    closed spec fn view(&self) -> DisplayState {
        DisplayState { bit_order: self.bit_order, queued: self.queue@ }
    }
}

proof fn lemma_next_bit(value: u8, i: u8, j: u8)
    by (bit_vector)
    requires
        i < 8,
        j == i + 1,
    ensures
        (value >> i) >> 1u8 == value >> j,
        (value << i) << 1u8 == value << j,
        ((value >> i) & 1 == 0) == !((value >> i) & 1 == 1),
        ((value << i) & 128 != 0) == ((value >> ((7 - i) as u8)) & 1 == 1),
{
}

proof fn lemma_unshifted(value: u8)
    by (bit_vector)
    ensures
        value >> 0u8 == value,
        value << 0u8 == value,
{
}

/// Lights the decimal point in a segment pattern.
fn show_decimal(value: u8) -> (r: u8)
    ensures
        r == with_decimal_point(value),
{
    assert(!(1u8 << 7u8) == 0x7fu8) by (bit_vector);
    value & !(1u8 << 7u8)
}

impl Display {
    /// A driver with nothing queued that sends bytes in `bit_order`.
    pub fn new(bit_order: BitOrder) -> (display: Display)
        ensures
            display@ == (DisplayState { bit_order, queued: Seq::empty() }),
    {
        Display { bit_order, queue: Vec::new() }
    }

    /// Hands over the queued signals, oldest first, and empties the
    /// queue.
    pub fn take_signals(&mut self) -> (signals: Vec<Signal>)
        ensures
            signals@ == old(self)@.queued,
            final(self)@ == (DisplayState { queued: Seq::empty(), ..old(self)@ }),
    {
        let mut signals = Vec::new();
        signals.append(&mut self.queue);
        signals
    }

    /// Queues one level change.
    fn set(&mut self, line: Line, high: bool)
        ensures
            final(self)@ == (DisplayState {
                queued: old(self)@.queued.push(Signal { line, high }),
                ..old(self)@
            }),
    {
        self.queue.push(Signal { line, high });
    }

    /// Clocks the eight bits of `value` in.
    pub fn shift_out(&mut self, value: u8)
        ensures
            final(self)@ == (DisplayState {
                queued: old(self)@.queued + byte_signals(old(self)@.bit_order, value),
                ..old(self)@
            }),
    {
        let mut i: u8 = 0;
        let mut v = value;
        let ghost order = self@.bit_order;
        proof {
            lemma_unshifted(value);
            assert(self@.queued =~= old(self)@.queued + bits_signals(order, value, 0));
        }
        while i < 8
            invariant
                i <= 8,
                self@.bit_order == order,
                order == old(self)@.bit_order,
                order == BitOrder::LsbFirst ==> v == value >> i,
                order == BitOrder::MsbFirst ==> v == value << i,
                self@.queued == old(self)@.queued + bits_signals(order, value, i as nat),
            decreases 8 - i,
        {
            proof {
                lemma_next_bit(value, i, (i + 1) as u8);
            }
            match self.bit_order {
                BitOrder::LsbFirst => {
                    if v & 1 == 0 {
                        self.set(Line::Data, false);
                    } else {
                        self.set(Line::Data, true);
                    }
                    v >>= 1;
                },
                BitOrder::MsbFirst => {
                    if v & 128 != 0 {
                        self.set(Line::Data, true);
                    } else {
                        self.set(Line::Data, false);
                    }
                    v <<= 1;
                },
            }
            self.set(Line::Clock, true);
            self.set(Line::Clock, false);
            proof {
                assert(self@.queued =~= old(self)@.queued + bits_signals(
                    order,
                    value,
                    (i + 1) as nat,
                ));
            }
            i += 1;
        }
    }

    /// Queues the signals that put `pattern` on show at the position that
    /// `select` stands for.
    fn write_latched(&mut self, pattern: u8, select: u8)
        ensures
            final(self)@ == (DisplayState {
                queued: old(self)@.queued + latched_signals(old(self)@.bit_order, pattern, select),
                ..old(self)@
            }),
    {
        self.set(Line::Latch, false);
        self.shift_out(pattern);
        self.shift_out(select);
        self.set(Line::Latch, true);
        proof {
            assert(self@.queued =~= old(self)@.queued + latched_signals(
                old(self)@.bit_order,
                pattern,
                select,
            ));
        }
    }

    /// Shows the digit `value`, or a blank for ten, at the position
    /// `segment`, with the decimal point if `show_dot` is set.
    pub fn write_number_to_segment(&mut self, segment: u8, value: u8, show_dot: bool)
        requires
            segment < 4,
            value < 11,
        ensures
            final(self)@ == (DisplayState {
                queued: old(self)@.queued + number_signals(
                    old(self)@.bit_order,
                    segment,
                    value,
                    show_dot,
                ),
                ..old(self)@
            }),
    {
        let pattern = if show_dot {
            show_decimal(SEGMAP[value as usize])
        } else {
            SEGMAP[value as usize]
        };
        self.write_latched(pattern, DIGIT[segment as usize]);
    }

    /// Shows the letter `d` at the position `segment`.
    pub fn write_d(&mut self, segment: u8)
        requires
            segment < 4,
        ensures
            final(self)@ == (DisplayState {
                queued: old(self)@.queued + letter_signals(old(self)@.bit_order, segment),
                ..old(self)@
            }),
    {
        self.write_latched(LETTER_D, DIGIT[segment as usize]);
    }

    /// Shows `number` flush right without leading zeros.
    pub fn display_u16(&mut self, number: u16)
        ensures
            final(self)@ == (DisplayState {
                queued: old(self)@.queued + u16_signals(old(self)@.bit_order, number),
                ..old(self)@
            }),
    {
        if number >= 1000 {
            self.write_number_to_segment(0, (number / 1000 % 10) as u8, false);
        }
        if number >= 100 {
            self.write_number_to_segment(1, (number / 100 % 10) as u8, false);
        }
        if number >= 10 {
            self.write_number_to_segment(2, (number / 10 % 10) as u8, false);
        }
        self.write_number_to_segment(3, (number % 10) as u8, false);
        proof {
            assert(self@.queued =~= old(self)@.queued + u16_signals(old(self)@.bit_order, number));
        }
    }

    /// Shows `number` milliseconds as seconds with one decimal place.
    pub fn display_timer(&mut self, number: u32)
        ensures
            final(self)@ == (DisplayState {
                queued: old(self)@.queued + timer_signals(old(self)@.bit_order, number),
                ..old(self)@
            }),
    {
        if number >= 100_000 {
            self.write_number_to_segment(0, (number / 100_000 % 10) as u8, false);
        }
        if number >= 10_000 {
            self.write_number_to_segment(1, (number / 10_000 % 10) as u8, false);
        }
        self.write_number_to_segment(2, (number / 1000 % 10) as u8, true);
        self.write_number_to_segment(3, (number / 100 % 10) as u8, false);
        proof {
            assert(self@.queued =~= old(self)@.queued + timer_signals(
                old(self)@.bit_order,
                number,
            ));
        }
    }

    /// Shows the choice of dice that `roller` holds, such as `2d20`.
    pub fn display_config(&mut self, roller: &DiceRoller)
        ensures
            final(self)@ == (DisplayState {
                queued: old(self)@.queued + config_signals(
                    old(self)@.bit_order,
                    roller@.throws,
                    roller@.sides(),
                ),
                ..old(self)@
            }),
    {
        self.write_number_to_segment(0, roller.get_dice_amount(), false);
        self.write_d(1);
        let dice = roller.get_dice();
        if dice == 100 {
            self.write_number_to_segment(2, 0, false);
            self.write_number_to_segment(3, 0, false);
        } else {
            self.write_number_to_segment(2, dice / 10, false);
            self.write_number_to_segment(3, dice % 10, false);
        }
        proof {
            assert(self@.queued =~= old(self)@.queued + config_signals(
                old(self)@.bit_order,
                roller@.throws,
                roller@.sides(),
            ));
        }
    }
}

} // verus!
