//! A four-register pseudo-random byte generator for 8-bit devices.
//!
//! The generator keeps a counter `x` and three mixing registers `a`, `b`
//! and `c`. Every draw bumps the counter, folds it into the registers and
//! hands out `c`. Seed material is mixed into the current registers rather
//! than replacing them, so reseeding over and over keeps adding entropy.
//! The generator is fast and small; it is not meant for cryptography.

use vstd::endian::{endianness, Endian};
use vstd::prelude::*;

verus! {

/// The register file of the generator, as a mathematical value.
pub struct Registers {
    pub x: u8,
    pub a: u8,
    pub b: u8,
    pub c: u8,
}

/// `v` rotated left by `n` bit positions within eight bits.
pub open spec fn rotated_left(v: u8, n: u8) -> u8
    recommends
        0 < n < 8,
{
    (v << n) | (v >> ((8 - n) as u8))
}

/// The forward substitution step: four rotations of `v` folded together
/// with the constant `0x63`.
pub open spec fn mix(v: u8) -> u8 {
    rotated_left(v, 1) ^ rotated_left(v, 2) ^ rotated_left(v, 3) ^ rotated_left(v, 4) ^ 0x63
}

/// The inverse substitution step: three rotations of `v` folded together
/// with the constant `0x05`.
pub open spec fn inverse_mix(v: u8) -> u8 {
    rotated_left(v, 1) ^ rotated_left(v, 3) ^ rotated_left(v, 6) ^ 0x05
}

/// The four bytes of `v`, least significant first.
pub open spec fn little_endian_bytes(v: u32) -> Seq<u8> {
    seq![
        (v % 256) as u8,
        (v / 0x100 % 256) as u8,
        (v / 0x1_0000 % 256) as u8,
        (v / 0x100_0000 % 256) as u8,
    ]
}

/// The 32-bit value whose bytes, least significant first, are `s`.
pub open spec fn from_little_endian_bytes(s: Seq<u8>) -> u32
    recommends
        s.len() == 4,
{
    (s[0] + s[1] * 0x100 + s[2] * 0x1_0000 + s[3] * 0x100_0000) as u32
}

/// The four bytes of `v` in the order in which the running hardware
/// stores them.
pub open spec fn native_bytes(v: u32) -> Seq<u8> {
    match endianness() {
        Endian::Little => little_endian_bytes(v),
        Endian::Big => little_endian_bytes(v).reverse(),
    }
}

/// The 32-bit value that the running hardware stores as the bytes `s`.
pub open spec fn from_native_bytes(s: Seq<u8>) -> u32
    recommends
        s.len() == 4,
{
    match endianness() {
        Endian::Little => from_little_endian_bytes(s),
        Endian::Big => from_little_endian_bytes(s.reverse()),
    }
}

/// The largest low byte that is still rejected for `bound`, plus one:
/// `(256 - bound) mod bound`.
pub open spec fn rejection_threshold(bound: u8) -> int
    recommends
        bound > 0,
{
    (256 - bound) % (bound as int)
}

/// The low byte of the 16-bit product `byte * bound`.
pub open spec fn product_low(byte: u8, bound: u8) -> int {
    (byte * bound) % 256
}

/// The high byte of the 16-bit product `byte * bound`: the sample that
/// `byte` stands for.
pub open spec fn product_high(byte: u8, bound: u8) -> int {
    (byte * bound) / 256
}

/// Whether a drawn `byte` is kept when sampling below `bound`.
pub open spec fn accepted(byte: u8, bound: u8) -> bool {
    product_low(byte, bound) >= rejection_threshold(bound)
}

/// The bytes that are accepted when sampling below `bound` and that
/// stand for `sample`.
pub open spec fn bytes_for(bound: u8, sample: int) -> Set<int> {
    Set::new(
        |byte: int|
            0 <= byte < 256 && accepted(byte as u8, bound) && product_high(byte as u8, bound)
                == sample,
    )
}

impl Registers {
    /// The registers before any seed has been mixed in.
    pub open spec fn blank() -> Registers {
        Registers { x: 0, a: 0, b: 0, c: 0 }
    }

    /// Folds the counter value `x` into the mixing registers.
    pub open spec fn stirred(self, x: u8) -> Registers {
        let a = self.a ^ self.c ^ x;
        let b = self.b.wrapping_add(a);
        let c = self.c.wrapping_add(inverse_mix(b));
        Registers { x, a, b, c }
    }

    /// The registers after one draw. The byte drawn is the new `c`.
    pub open spec fn advance(self) -> Registers {
        self.stirred(self.x.wrapping_add(1))
    }

    /// The registers after `n` draws.
    pub open spec fn advance_by(self, n: nat) -> Registers
        decreases n,
    {
        if n == 0 {
            self
        } else {
            self.advance().advance_by((n - 1) as nat)
        }
    }

    /// The 32-bit value that the next four draws make up: the bytes drawn,
    /// in the order in which the running hardware stores them.
    pub open spec fn drawn_word(self) -> u32 {
        from_native_bytes(
            seq![
                self.advance_by(1).c,
                self.advance_by(2).c,
                self.advance_by(3).c,
                self.advance_by(4).c,
            ],
        )
    }

    /// The registers after the four seed bytes `s` have been mixed in.
    pub open spec fn absorb(self, s: Seq<u8>) -> Registers
        recommends
            s.len() == 4,
    {
        let salted = Registers { x: self.x, a: self.a ^ s[1], b: self.b ^ s[2], c: self.c ^ s[3] };
        salted.stirred(mix(self.x.wrapping_add(s[0]).wrapping_add(1)))
    }

    /// The registers after reseeding with `seed`.
    pub open spec fn reseed(self, seed: u32) -> Registers {
        self.absorb(native_bytes(seed))
    }

    /// The registers of a generator freshly built from `seed`.
    pub open spec fn seeded(seed: u32) -> Registers {
        Registers::blank().reseed(seed)
    }

    /// Starting from registers whose `c` is a candidate byte, the registers
    /// at which bounded sampling stops: the first candidate that is
    /// accepted, or the one reached when `budget` redraws are used up.
    pub open spec fn settle(self, bound: u8, budget: nat) -> Registers
        decreases budget,
    {
        if accepted(self.c, bound) || budget == 0 {
            self
        } else {
            self.advance().settle(bound, (budget - 1) as nat)
        }
    }

    /// The registers after a sample below `bound` has been drawn: one
    /// draw, and then redraws until a byte is accepted or the redraws are
    /// used up. The byte that the sample is made from is the new `c`.
    pub open spec fn sampled(self, bound: u8) -> Registers {
        self.advance().settle(bound, REDRAW_LIMIT as nat)
    }
}

/// The number of redraws after which bounded sampling stops looking.
///
/// The generator has 2^32 states, so a run of 2^32 draws has been through
/// every state it can ever reach: a byte that has not turned up by then
/// never will. The limit therefore changes no sample; it only makes sure
/// that sampling ends.
pub const REDRAW_LIMIT: u32 = 0xffff_ffff;

/// One request that a generator can answer.
pub enum Call {
    /// Mix a seed into the registers.
    Reseed(u32),
    /// Draw a byte.
    Random,
    /// Draw a sample below a bound, which is not zero.
    RandRange(u8),
    /// Draw a 32-bit value.
    RandU32,
}

impl Registers {
    /// The registers after the generator has answered `call`.
    pub open spec fn after(self, call: Call) -> Registers {
        match call {
            Call::Reseed(seed) => self.reseed(seed),
            Call::Random => self.advance(),
            Call::RandRange(bound) => self.sampled(bound),
            Call::RandU32 => self.advance_by(4),
        }
    }

    /// What the generator hands back for `call`; nothing for a reseed.
    pub open spec fn answer(self, call: Call) -> Option<u32> {
        match call {
            Call::Reseed(_) => None,
            Call::Random => Some(self.after(call).c as u32),
            Call::RandRange(bound) => Some(product_high(self.after(call).c, bound) as u32),
            Call::RandU32 => Some(self.drawn_word()),
        }
    }

    /// The registers after the generator has answered `calls` in order.
    pub open spec fn after_all(self, calls: Seq<Call>) -> Registers
        decreases calls.len(),
    {
        if calls.len() == 0 {
            self
        } else {
            self.after(calls.first()).after_all(calls.drop_first())
        }
    }

    /// What the generator hands back for each of `calls`, in order.
    pub open spec fn answers(self, calls: Seq<Call>) -> Seq<Option<u32>>
        decreases calls.len(),
    {
        if calls.len() == 0 {
            Seq::empty()
        } else {
            seq![self.answer(calls.first())] + self.after(calls.first()).answers(
                calls.drop_first(),
            )
        }
    }
}

/// The pseudo-random generator.
pub struct Rng {
    x: u8,
    a: u8,
    b: u8,
    c: u8,
}

impl View for Rng {
    type V = Registers;

    closed spec fn view(&self) -> Registers {
        Registers { x: self.x, a: self.a, b: self.b, c: self.c }
    }
}

/// Rotates `v` left by `n` bits.
fn rotate_left(v: u8, n: u8) -> (r: u8)
    requires
        0 < n < 8,
    ensures
        r == rotated_left(v, n),
{
    (v << n) | (v >> (8 - n))
}

/// Maps a byte to a byte in the manner of a cipher's substitution box.
pub fn forward_s_box(v: u8) -> (r: u8)
    ensures
        r == mix(v),
{
    rotate_left(v, 1) ^ rotate_left(v, 2) ^ rotate_left(v, 3) ^ rotate_left(v, 4) ^ 0x63
}

/// The companion of [`forward_s_box`] that the draw itself uses.
pub fn inverse_s_box(v: u8) -> (r: u8)
    ensures
        r == inverse_mix(v),
{
    rotate_left(v, 1) ^ rotate_left(v, 3) ^ rotate_left(v, 6) ^ 0x05
}

/// Calls `u32::to_ne_bytes`. Trusted: the result holds the four bytes of
/// `v` in the byte order of the running hardware.
#[verifier::external_body]
fn to_native_bytes(v: u32) -> (s: [u8; 4])
    ensures
        s@ == native_bytes(v),
{
    v.to_ne_bytes()
}

/// Calls `u32::from_ne_bytes`. Trusted: the result is the value that the
/// running hardware stores as the four bytes `s`.
#[verifier::external_body]
fn from_native(s: [u8; 4]) -> (v: u32)
    ensures
        v == from_native_bytes(s@),
{
    u32::from_ne_bytes(s)
}

impl Rng {
    /// Builds a generator and mixes `seed` into its blank registers.
    pub fn new(seed: u32) -> (rng: Rng)
        ensures
            rng@ == Registers::seeded(seed),
    {
        let mut rng = Rng { x: 0, a: 0, b: 0, c: 0 };
        rng.reseed(seed);
        rng
    }

    /// Mixes `seed` into the current registers.
    pub fn reseed(&mut self, seed: u32)
        ensures
            final(self)@ == old(self)@.reseed(seed),
    {
        let s = to_native_bytes(seed);
        self.init(s[0], s[1], s[2], s[3]);
    }

    fn init(&mut self, s0: u8, s1: u8, s2: u8, s3: u8)
        ensures
            final(self)@ == old(self)@.absorb(seq![s0, s1, s2, s3]),
    {
        self.a ^= s1;
        self.b ^= s2;
        self.c ^= s3;
        self.x = forward_s_box(self.x.wrapping_add(s0).wrapping_add(1));
        self.a = self.a ^ self.c ^ self.x;
        self.b = self.b.wrapping_add(self.a);
        self.c = self.c.wrapping_add(inverse_s_box(self.b));
    }

    /// Draws one byte.
    pub fn random(&mut self) -> (r: u8)
        ensures
            final(self)@ == old(self)@.advance(),
            r == final(self)@.c,
    {
        self.x = self.x.wrapping_add(1);
        self.a = self.a ^ self.c ^ self.x;
        self.b = self.b.wrapping_add(self.a);
        self.c = self.c.wrapping_add(inverse_s_box(self.b));
        self.c
    }

    /// Draws a sample below `bound` in which every value is as likely as
    /// any other.
    ///
    /// A byte is drawn and scaled by `bound`; the high byte of the product
    /// is the sample. The few low bytes under the rejection threshold would
    /// favour some samples, so such a draw is thrown away and another is
    /// taken, for at most [`REDRAW_LIMIT`] redraws.
    pub fn rand_range(&mut self, bound: u8) -> (r: u8)
        requires
            bound > 0,
        ensures
            final(self)@ == old(self)@.sampled(bound),
            r == product_high(final(self)@.c, bound),
            r < bound,
    {
        let mut x = self.random();
        let mut m: u16 = (x as u16).wrapping_mul(bound as u16);
        let mut l: u8 = (m % 256) as u8;
        proof {
            lemma_product_fits(x, bound);
        }
        if l < bound {
            let mut t: u8 = 0u8.wrapping_sub(bound);
            if t >= bound {
                t -= bound;
                if t >= bound {
                    t %= bound;
                }
            }
            proof {
                lemma_threshold(bound);
            }
            assert(t == rejection_threshold(bound));
            let mut budget: u32 = REDRAW_LIMIT;
            while l < t && budget > 0
                invariant
                    bound > 0,
                    t == rejection_threshold(bound),
                    x == self@.c,
                    m == x * bound,
                    l == product_low(x, bound),
                    self@.settle(bound, budget as nat) == old(self)@.sampled(bound),
                decreases budget,
            {
                x = self.random();
                m = (x as u16).wrapping_mul(bound as u16);
                l = (m % 256) as u8;
                budget -= 1;
                proof {
                    lemma_product_fits(x, bound);
                }
            }
        } else {
            proof {
                lemma_threshold(bound);
            }
        }
        proof {
            lemma_product_fits(x, bound);
        }
        (m / 256) as u8
    }

    /// Draws four bytes and joins them into a 32-bit value in the byte
    /// order of the running hardware.
    pub fn rand_u32(&mut self) -> (r: u32)
        ensures
            final(self)@ == old(self)@.advance_by(4),
            r == old(self)@.drawn_word(),
    {
        proof {
            reveal_with_fuel(Registers::advance_by, 5);
        }
        let b0 = self.random();
        let b1 = self.random();
        let b2 = self.random();
        let b3 = self.random();
        from_native([b0, b1, b2, b3])
    }
}

/// The product of a byte and a bound fits in sixteen bits, and its high
/// byte lies below the bound.
proof fn lemma_product_fits(byte: u8, bound: u8)
    ensures
        byte * bound <= 0xffff,
        (byte as u16).wrapping_mul(bound as u16) == byte * bound,
        0 <= product_low(byte, bound) < 256,
        0 <= product_high(byte, bound) <= 255,
        bound > 0 ==> product_high(byte, bound) < bound,
{
    assert(byte * bound <= 255 * 255) by (nonlinear_arith)
        requires
            0 <= byte <= 255,
            0 <= bound <= 255,
    ;
    assert(0 <= byte * bound) by (nonlinear_arith)
        requires
            0 <= byte,
            0 <= bound,
    ;
    if bound > 0 {
        assert(byte * bound < 256 * bound) by (nonlinear_arith)
            requires
                0 <= byte < 256,
                bound > 0,
        ;
    }
}

/// The rejection threshold lies below the bound, and the shortcut that
/// takes the bound off `256 - bound` once or twice before dividing arrives
/// at it.
proof fn lemma_threshold(bound: u8)
    requires
        bound > 0,
    ensures
        0 <= rejection_threshold(bound) < bound,
        0u8.wrapping_sub(bound) == 256 - bound,
        256 - bound < bound ==> rejection_threshold(bound) == 256 - bound,
        bound <= 256 - bound < 2 * bound ==> rejection_threshold(bound) == 256 - 2 * bound,
        256 - 2 * bound >= bound ==> rejection_threshold(bound) == (256 - 2 * bound)
            % (bound as int),
{
    let n = bound as int;
    assert((256 - n) % n == (256 - 2 * n) % n) by (nonlinear_arith)
        requires
            n > 0,
    ;
    assert(0 <= (256 - n) % n < n) by (nonlinear_arith)
        requires
            n > 0,
    ;
    if 256 - n < n {
        assert((256 - n) % n == 256 - n) by (nonlinear_arith)
            requires
                0 <= 256 - n < n,
        ;
    }
    if n <= 256 - n < 2 * n {
        assert((256 - 2 * n) % n == 256 - 2 * n) by (nonlinear_arith)
            requires
                0 <= 256 - 2 * n < n,
        ;
    }
}

proof fn lemma_xor_cancels(p: u8, q: u8, k: u8)
    by (bit_vector)
    requires
        p ^ k == q ^ k,
    ensures
        p == q,
{
}

/// Stirring the same counter value into different mixing registers gives
/// different registers.
proof fn lemma_stirred_is_one_to_one(p: Registers, q: Registers, x: u8)
    requires
        p.stirred(x) == q.stirred(x),
    ensures
        p.a == q.a,
        p.b == q.b,
        p.c == q.c,
{
    let after = p.stirred(x);
    assert(p.c.wrapping_add(inverse_mix(after.b)) == q.c.wrapping_add(inverse_mix(after.b)));
    assert(p.c == q.c);
    assert(p.b.wrapping_add(after.a) == q.b.wrapping_add(after.a));
    assert(p.b == q.b);
    lemma_xor_cancels(p.a ^ p.c, q.a ^ q.c, x);
    lemma_xor_cancels(p.a, q.a, p.c);
}

/// A draw never merges two states: registers that differ before a draw
/// differ after it. So the states that a generator runs through form a
/// cycle, and the cycle has at most 2^32 states.
pub proof fn lemma_advance_is_one_to_one(p: Registers, q: Registers)
    requires
        p.advance() == q.advance(),
    ensures
        p == q,
{
    assert(p.x.wrapping_add(1) == q.x.wrapping_add(1));
    assert(p.x == q.x);
    lemma_stirred_is_one_to_one(p, q, p.x.wrapping_add(1));
}

/// Draws add up: `m` draws followed by `n` draws are `m + n` draws.
pub proof fn lemma_advance_by_adds(start: Registers, m: nat, n: nat)
    ensures
        start.advance_by(m).advance_by(n) == start.advance_by(m + n),
    decreases m,
{
    if m > 0 {
        lemma_advance_by_adds(start.advance(), (m - 1) as nat, n);
    }
}

/// Bounded sampling stops at the first candidate that is accepted: it
/// takes some number `k` of redraws, every candidate before the `k`-th
/// was rejected, and the `k`-th is accepted unless the budget ran out
/// with it.
pub proof fn lemma_settle_stops_at_first_accepted(start: Registers, bound: u8, budget: nat) -> (k:
    nat)
    ensures
        k <= budget,
        start.settle(bound, budget) == start.advance_by(k),
        forall|j: nat| j < k ==> !accepted(#[trigger] start.advance_by(j).c, bound),
        accepted(start.advance_by(k).c, bound) || k == budget,
    decreases budget,
{
    if accepted(start.c, bound) || budget == 0 {
        0
    } else {
        let rest = lemma_settle_stops_at_first_accepted(start.advance(), bound, (budget - 1) as nat);
        let k = rest + 1;
        assert forall|j: nat| j < k implies !accepted(#[trigger] start.advance_by(j).c, bound) by {
            if j > 0 {
                assert(start.advance_by(j) == start.advance().advance_by((j - 1) as nat));
            }
        }
        k
    }
}

/// The generator has no hidden input: registers that are equal answer the
/// same calls with the same values and end in the same registers. In
/// particular two generators built from one seed stay in step for good.
pub proof fn lemma_same_seed_same_answers(first: Rng, second: Rng, seed: u32, calls: Seq<Call>)
    requires
        first@ == Registers::seeded(seed),
        second@ == Registers::seeded(seed),
    ensures
        first@.answers(calls) == second@.answers(calls),
        first@.after_all(calls) == second@.after_all(calls),
        first@.answers(calls) == Registers::seeded(seed).answers(calls),
{
}

/// Reseeding keeps what the generator has gathered so far: with the same
/// seed, generators whose counters agree and whose mixing registers differ
/// still differ afterwards.
pub proof fn lemma_reseed_keeps_history(p: Registers, q: Registers, seed: u32)
    requires
        p.x == q.x,
        p.reseed(seed) == q.reseed(seed),
    ensures
        p == q,
{
    let s = native_bytes(seed);
    let x = mix(p.x.wrapping_add(s[0]).wrapping_add(1));
    let ps = Registers { x: p.x, a: p.a ^ s[1], b: p.b ^ s[2], c: p.c ^ s[3] };
    let qs = Registers { x: q.x, a: q.a ^ s[1], b: q.b ^ s[2], c: q.c ^ s[3] };
    lemma_stirred_is_one_to_one(ps, qs, x);
    lemma_xor_cancels(p.a, q.a, s[1]);
    lemma_xor_cancels(p.b, q.b, s[2]);
    lemma_xor_cancels(p.c, q.c, s[3]);
}

/// Reseeding tells seeds apart: seed bytes that agree in the byte for the
/// counter and differ anywhere else lead one generator to different
/// registers.
pub proof fn lemma_reseed_tells_seeds_apart(start: Registers, s: Seq<u8>, t: Seq<u8>)
    requires
        s.len() == 4,
        t.len() == 4,
        s[0] == t[0],
        start.absorb(s) == start.absorb(t),
    ensures
        s == t,
{
    let x = mix(start.x.wrapping_add(s[0]).wrapping_add(1));
    let ps = Registers { x: start.x, a: start.a ^ s[1], b: start.b ^ s[2], c: start.c ^ s[3] };
    let qs = Registers { x: start.x, a: start.a ^ t[1], b: start.b ^ t[2], c: start.c ^ t[3] };
    lemma_stirred_is_one_to_one(ps, qs, x);
    lemma_xor_commutes(start.a, s[1]);
    lemma_xor_commutes(start.a, t[1]);
    lemma_xor_commutes(start.b, s[2]);
    lemma_xor_commutes(start.b, t[2]);
    lemma_xor_commutes(start.c, s[3]);
    lemma_xor_commutes(start.c, t[3]);
    lemma_xor_cancels(s[1], t[1], start.a);
    lemma_xor_cancels(s[2], t[2], start.b);
    lemma_xor_cancels(s[3], t[3], start.c);
    assert(s =~= t);
}

proof fn lemma_xor_commutes(p: u8, q: u8)
    by (bit_vector)
    ensures
        p ^ q == q ^ p,
{
}

/// Splitting a value into its native bytes and joining them again gives
/// the value back.
pub proof fn lemma_native_bytes_round_trip(v: u32)
    ensures
        native_bytes(v).len() == 4,
        from_native_bytes(native_bytes(v)) == v,
{
    let le = little_endian_bytes(v);
    let n = v as int;
    let q1 = n / 0x100;
    let q2 = q1 / 0x100;
    let q3 = q2 / 0x100;
    assert(n / 0x1_0000 == q2) by {
        vstd::arithmetic::div_mod::lemma_div_denominator(n, 0x100, 0x100);
    }
    assert(n / 0x100_0000 == q3) by {
        vstd::arithmetic::div_mod::lemma_div_denominator(n, 0x1_0000, 0x100);
    }
    assert(q3 % 256 == q3);
    assert(n == n % 256 + (q1 % 256) * 0x100 + (q2 % 256) * 0x1_0000 + q3 * 0x100_0000);
    assert(from_little_endian_bytes(le) == v);
    assert(le.reverse().reverse() =~= le);
}

/// For a positive step `n`, the multiples `k * n` that reach `from` are
/// those with `k` at least `from / n` rounded up.
proof fn lemma_multiples_from(from: int, n: int, k: int)
    requires
        n > 0,
    ensures
        k * n >= from <==> k >= (from + n - 1) / n,
{
    let c = (from + n - 1) / n;
    let r = (from + n - 1) % n;
    assert(from + n - 1 == c * n + r && 0 <= r < n) by (nonlinear_arith)
        requires
            n > 0,
            c == (from + n - 1) / n,
            r == (from + n - 1) % n,
    ;
    if k >= c {
        assert(k * n >= c * n) by (nonlinear_arith)
            requires
                k >= c,
                n > 0,
        ;
    } else {
        assert(k * n <= (c - 1) * n) by (nonlinear_arith)
            requires
                k <= c - 1,
                n > 0,
        ;
        assert((c - 1) * n == c * n - n) by (nonlinear_arith);
    }
}

/// No sample is favoured: each sample below the bound is what the same
/// number of accepted bytes stand for, namely `256 / bound` of them. So a
/// byte source that is uniform gives samples that are uniform.
pub proof fn lemma_no_sample_is_favoured(bound: u8, sample: int)
    requires
        bound > 0,
        0 <= sample < bound,
    ensures
        bytes_for(bound, sample).finite(),
        bytes_for(bound, sample).len() == 256int / (bound as int),
{
    let n = bound as int;
    let t = rejection_threshold(bound);
    let q = 256int / n;
    assert(256 == q * n + 256int % n && 0 <= 256int % n < n && q >= 0) by (nonlinear_arith)
        requires
            n > 0,
            q == 256int / n,
    ;
    assert((256 - n) % n == 256int % n) by (nonlinear_arith)
        requires
            n > 0,
    ;
    assert(256 - t == q * n);
    let from = 256 * sample + t;
    let lo = (from + n - 1) / n;
    assert forall|byte: int| bytes_for(bound, sample).contains(byte) <==> lo <= byte < lo + q by {
        let p = byte * n;
        lemma_multiples_from(from, n, byte);
        lemma_multiples_from(from, n, byte - q);
        assert((byte - q) * n == p - q * n) by (nonlinear_arith)
            requires
                p == byte * n,
        ;
        if 0 <= byte < 256 {
            assert(byte as u8 == byte);
            assert(product_low(byte as u8, bound) == p % 256);
            assert(product_high(byte as u8, bound) == p / 256);
        }
        if from <= p < from + q * n {
            assert(byte >= 0) by (nonlinear_arith)
                requires
                    byte * n >= 0,
                    n > 0,
            ;
            assert(byte < 256) by (nonlinear_arith)
                requires
                    byte * n < 256 * n,
                    n > 0,
            ;
        }
    }
    assert(bytes_for(bound, sample) =~= vstd::set_lib::set_int_range(lo, lo + q));
    vstd::set_lib::lemma_int_range(lo, lo + q);
}

} // verus!
