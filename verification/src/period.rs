//! Why bounded sampling may stop looking after 2^32 draws.
//!
//! The registers hold 32 bits, so the generator has 2^32 states, and a
//! draw never merges two of them. The states that a generator runs
//! through therefore come round again after at most 2^32 draws, and
//! whatever byte has not turned up in the first 2^32 draws never turns
//! up at all.

use crate::mini_rng::{
    accepted, lemma_advance_by_adds, lemma_advance_is_one_to_one,
    lemma_settle_stops_at_first_accepted, Registers, REDRAW_LIMIT,
};
use vstd::prelude::*;
use vstd::set_lib::{lemma_int_range, lemma_len_subset, set_int_range};

verus! {

/// The number of states of the generator.
pub open spec fn state_count() -> int {
    0x1_0000_0000
}

/// The registers read as one number.
pub open spec fn code(registers: Registers) -> int {
    registers.x + 0x100 * registers.a + 0x1_0000 * registers.b + 0x100_0000 * registers.c
}

/// The code of a state lies below the number of states, and the
/// registers can be read off it.
proof fn lemma_decode(p: Registers)
    ensures
        0 <= code(p) < state_count(),
        p.x == code(p) % 0x100,
        p.a == code(p) / 0x100 % 0x100,
        p.b == code(p) / 0x100 / 0x100 % 0x100,
        p.c == code(p) / 0x100 / 0x100 / 0x100,
{
    let upper = p.b + 0x100 * p.c;
    let middle = p.a + 0x100 * upper;
    assert(code(p) == p.x + 0x100 * middle);
    assert(code(p) / 0x100 == middle);
    assert(middle / 0x100 == upper);
    assert(upper / 0x100 == p.c);
}

/// Every state has a code of its own below the number of states.
proof fn lemma_code(p: Registers, q: Registers)
    ensures
        0 <= code(p) < state_count(),
        code(p) == code(q) ==> p == q,
{
    lemma_decode(p);
    lemma_decode(q);
}

/// Among the states before the first draw and after each of the first
/// 2^32 draws, two are the same.
proof fn lemma_some_state_repeats(start: Registers) -> (pair: (nat, nat))
    ensures
        pair.0 < pair.1 <= state_count(),
        start.advance_by(pair.0) == start.advance_by(pair.1),
{
    let codes = Seq::new((state_count() + 1) as nat, |i: int| code(start.advance_by(i as nat)));
    if codes.no_duplicates() {
        let all = set_int_range(0, state_count());
        assert forall|c: int| codes.to_set().contains(c) implies all.contains(c) by {
            let i = choose|i: int| 0 <= i < codes.len() && codes[i] == c;
            lemma_code(start.advance_by(i as nat), start);
        }
        lemma_int_range(0, state_count());
        lemma_len_subset(codes.to_set(), all);
        codes.unique_seq_to_set();
        assert(false);
    }
    let (i, j) = choose|i: int, j: int|
        0 <= i < codes.len() && 0 <= j < codes.len() && i != j && codes[i] == codes[j];
    lemma_code(start.advance_by(i as nat), start.advance_by(j as nat));
    if i < j {
        (i as nat, j as nat)
    } else {
        (j as nat, i as nat)
    }
}

/// One more draw after `n` draws is `n + 1` draws.
proof fn lemma_last_draw(start: Registers, n: nat)
    ensures
        start.advance_by(n + 1) == start.advance_by(n).advance(),
{
    lemma_advance_by_adds(start, n, 1);
    assert(start.advance_by(n).advance_by(1) == start.advance_by(n).advance()) by {
        reveal_with_fuel(Registers::advance_by, 2);
    }
}

/// If the states after `i` and after `j` draws are the same, then the
/// state after `j - i` draws is the state at the start.
proof fn lemma_rewind(start: Registers, i: nat, j: nat)
    requires
        i <= j,
        start.advance_by(i) == start.advance_by(j),
    ensures
        start.advance_by((j - i) as nat) == start,
    decreases i,
{
    if i > 0 {
        let before_i = (i - 1) as nat;
        let before_j = (j - 1) as nat;
        lemma_last_draw(start, before_i);
        lemma_last_draw(start, before_j);
        lemma_advance_is_one_to_one(start.advance_by(before_i), start.advance_by(before_j));
        lemma_rewind(start, before_i, before_j);
    }
}

/// The generator comes back to the state in which it started, after no
/// more draws than it has states.
pub proof fn lemma_states_come_round(start: Registers) -> (period: nat)
    ensures
        0 < period <= state_count(),
        start.advance_by(period) == start,
{
    let (i, j) = lemma_some_state_repeats(start);
    lemma_rewind(start, i, j);
    (j - i) as nat
}

/// Where the states come round after `period` draws, the state after any
/// number of draws is one of the first `period` states.
pub proof fn lemma_states_repeat(start: Registers, period: nat, draws: nat)
    requires
        period > 0,
        start.advance_by(period) == start,
    ensures
        start.advance_by(draws) == start.advance_by(draws % period),
    decreases draws,
{
    if draws >= period {
        let rest = (draws - period) as nat;
        lemma_advance_by_adds(start, period, rest);
        lemma_states_repeat(start, period, rest);
        assert(rest % period == draws % period) by {
            vstd::arithmetic::div_mod::lemma_mod_sub_multiples_vanish(
                draws as int,
                period as int,
            );
        }
    } else {
        assert(draws % period == draws) by {
            vstd::arithmetic::div_mod::lemma_small_mod(draws, period);
        }
    }
}

/// The limit on redraws changes nothing: where bounded sampling uses up
/// its redraws without finding a byte to accept, no later draw would be
/// accepted either, and sampling without a limit would go on for ever.
pub proof fn lemma_redraw_limit_is_enough(start: Registers, bound: u8)
    requires
        !accepted(start.sampled(bound).c, bound),
    ensures
        forall|draws: nat| draws >= 1 ==> !accepted(#[trigger] start.advance_by(draws).c, bound),
{
    let first = start.advance();
    let redraws = lemma_settle_stops_at_first_accepted(first, bound, REDRAW_LIMIT as nat);
    assert(redraws == REDRAW_LIMIT);
    let period = lemma_states_come_round(first);
    assert forall|draws: nat| draws >= 1 implies !accepted(
        #[trigger] start.advance_by(draws).c,
        bound,
    ) by {
        let after_first = (draws - 1) as nat;
        assert(start.advance_by(draws) == first.advance_by(after_first));
        lemma_states_repeat(first, period, after_first);
        let seen = after_first % period;
        assert(seen < period) by {
            vstd::arithmetic::div_mod::lemma_mod_bound(after_first as int, period as int);
        }
        assert(!accepted(first.advance_by(seen).c, bound));
    }
}

} // verus!
