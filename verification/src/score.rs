//! The score of a game for its first player, a number between 0 and 1.
//!
//! A score travels inside a record as an IEEE 754 single-precision number.
//! The ledger keeps it as that number's 32 bits, so that it is stored and
//! compared exactly, and reads the interval test off the bit pattern.

use vstd::arithmetic::power2::{
    lemma2_to64, lemma_pow2_adds, lemma_pow2_pos, lemma_pow2_strictly_increases, pow2,
};
use vstd::prelude::*;

verus! {

/// The bit pattern of 1, a win of the first player.
pub const WIN_BITS: u32 = 0x3F80_0000;

/// The bit pattern of one half, a draw.
pub const DRAW_BITS: u32 = 0x3F00_0000;

/// The bit pattern of 0, a loss of the first player.
pub const LOSS_BITS: u32 = 0;

/// The bit pattern of negative zero, which is equal to 0 as a number.
pub const NEGATIVE_ZERO_BITS: u32 = 0x8000_0000;

/// Whether the number with this bit pattern lies in the closed interval from
/// 0 to 1. Among the patterns with a clear sign bit the numbers are ordered
/// as their patterns are, and infinity and the NaNs lie above the pattern of
/// 1; of the patterns with the sign bit set only negative zero is not below 0.
pub open spec fn bits_in_unit_interval(bits: u32) -> bool {
    bits <= WIN_BITS || bits == NEGATIVE_ZERO_BITS
}

/// A score, held as the bits of a single-precision number.
#[derive(Clone, Copy, Debug, PartialEq, Eq, Structural)]
pub struct Score {
    pub bits: u32,
}

impl Score {
    /// Whether the score lies between 0 and 1, both included.
    pub open spec fn valid(self) -> bool {
        bits_in_unit_interval(self.bits)
    }

    pub fn from_bits(bits: u32) -> (s: Score)
        ensures
            s.bits == bits,
    {
        Score { bits }
    }

    pub fn win() -> (s: Score)
        ensures
            s.bits == WIN_BITS,
            s.valid(),
    {
        Score { bits: WIN_BITS }
    }

    pub fn draw() -> (s: Score)
        ensures
            s.bits == DRAW_BITS,
            s.valid(),
    {
        Score { bits: DRAW_BITS }
    }

    pub fn loss() -> (s: Score)
        ensures
            s.bits == LOSS_BITS,
            s.valid(),
    {
        Score { bits: LOSS_BITS }
    }

    /// Whether the score lies between 0 and 1, both included.
    pub fn is_valid(&self) -> (ok: bool)
        ensures
            ok == self.valid(),
    {
        self.bits <= WIN_BITS || self.bits == NEGATIVE_ZERO_BITS
    }
}

/// Whether the sign bit of the pattern is set.
pub open spec fn sign_is_set(bits: u32) -> bool {
    bits >= 0x8000_0000
}

/// The eight bits of the exponent.
pub open spec fn exponent_field(bits: u32) -> int {
    (bits as int / 0x80_0000) % 0x100
}

/// The twenty-three bits of the fraction.
pub open spec fn fraction_field(bits: u32) -> int {
    bits as int % 0x80_0000
}

/// Whether the pattern stands for a number, and not for an infinity or a
/// NaN.
pub open spec fn is_finite(bits: u32) -> bool {
    exponent_field(bits) != 0xFF
}

/// The absolute value of the number, multiplied by 2 to the power of 149,
/// which makes every finite single-precision number an integer. A pattern
/// with the exponent 0 stands for its fraction times 2 to the power of -149;
/// one with the exponent `e` above 0 for the fraction, with the hidden bit
/// put before it, times 2 to the power of `e - 150`.
pub open spec fn scaled_magnitude(bits: u32) -> int {
    if exponent_field(bits) == 0 {
        fraction_field(bits)
    } else {
        (0x80_0000 + fraction_field(bits)) * pow2((exponent_field(bits) - 1) as nat)
    }
}

/// The number that a finite pattern stands for, multiplied by 2 to the power
/// of 149.
pub open spec fn scaled_value(bits: u32) -> int {
    if sign_is_set(bits) {
        -scaled_magnitude(bits)
    } else {
        scaled_magnitude(bits)
    }
}

/// The test on the bit pattern is the test on the number: a pattern passes
/// exactly if it stands for a number, and that number is at least 0 and at
/// most 1.
pub proof fn unit_interval_is_by_value(bits: u32)
    ensures
        bits_in_unit_interval(bits) <==> (is_finite(bits) && 0 <= scaled_value(bits) <= pow2(149)),
{
    lemma2_to64();
    let b = bits as int;
    let e = exponent_field(bits);
    let f = fraction_field(bits);
    assert(pow2(23) == 0x80_0000);
    assert(pow2(24) == 0x100_0000);
    lemma_pow2_pos(149);
    lemma_pow2_strictly_increases(23, 149);
    lemma_pow2_adds(23, 126);
    lemma_pow2_adds(24, 125);
    lemma_pow2_adds(23, 127);
    lemma_pow2_strictly_increases(149, 150);
    if e >= 1 {
        lemma_pow2_pos((e - 1) as nat);
    }
    if b < 0x8000_0000 {
        assert(e == b / 0x80_0000);
        assert(b == 0x80_0000 * e + f);
        if b <= 0x3F80_0000 {
            assert(e <= 127);
            if e == 0 {
            } else if e <= 126 {
                let p = pow2((e - 1) as nat) as int;
                let q = pow2(125) as int;
                if e - 1 < 125 {
                    lemma_pow2_strictly_increases((e - 1) as nat, 125);
                }
                assert(p <= q);
                assert((0x80_0000 + f) * p < 0x100_0000 * q) by (nonlinear_arith)
                    requires
                        0 < p <= q,
                        0 <= f < 0x80_0000,
                ;
            } else {
                assert(f == 0);
            }
        } else {
            assert(e >= 127);
            if e != 0xFF {
                let p = pow2((e - 1) as nat) as int;
                if e == 127 {
                    assert(f >= 1);
                    assert((0x80_0000 + f) * p > 0x80_0000 * p) by (nonlinear_arith)
                        requires
                            0 < p,
                            f >= 1,
                    ;
                } else {
                    let q = pow2(127) as int;
                    if 127 < e - 1 {
                        lemma_pow2_strictly_increases(127, (e - 1) as nat);
                    }
                    assert(q <= p);
                    assert((0x80_0000 + f) * p >= 0x80_0000 * q) by (nonlinear_arith)
                        requires
                            0 < q <= p,
                            0 <= f,
                    ;
                }
            }
        }
    } else {
        assert(b / 0x80_0000 >= 0x100);
        assert(e == b / 0x80_0000 - 0x100);
        assert(b == 0x80_0000 * (e + 0x100) + f);
        if b != 0x8000_0000 && e != 0xFF {
            if e >= 1 {
                let p = pow2((e - 1) as nat) as int;
                assert((0x80_0000 + f) * p > 0) by (nonlinear_arith)
                    requires
                        0 < p,
                        0 <= f,
                ;
            } else {
                assert(f > 0);
            }
        }
    }
}

/// The three outcomes stand for the numbers 1, one half and 0.
pub proof fn outcomes_by_value()
    ensures
        scaled_value(WIN_BITS) == pow2(149),
        2 * scaled_value(DRAW_BITS) == pow2(149),
        scaled_value(LOSS_BITS) == 0,
        scaled_value(NEGATIVE_ZERO_BITS) == 0,
{
    lemma2_to64();
    lemma_pow2_adds(23, 126);
    lemma_pow2_adds(23, 125);
    lemma_pow2_adds(148, 1);
    assert(exponent_field(WIN_BITS) == 127 && fraction_field(WIN_BITS) == 0);
    assert(exponent_field(DRAW_BITS) == 126 && fraction_field(DRAW_BITS) == 0);
    assert(exponent_field(LOSS_BITS) == 0 && fraction_field(LOSS_BITS) == 0);
    assert(exponent_field(NEGATIVE_ZERO_BITS) == 0 && fraction_field(NEGATIVE_ZERO_BITS) == 0);
    assert(pow2(1) == 2);
}

} // verus!
