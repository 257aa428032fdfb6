//! The filter on a record's average: at most thirty.
//!
//! An average comes as the bit pattern of a double-precision number: one sign
//! bit, eleven bits of exponent, fifty-two bits of fraction. The test is the
//! order of IEEE 754, decided on the bits and stated over the number that the
//! bits stand for.

use vstd::prelude::*;
use vstd::arithmetic::power2::{
    lemma2_to64, lemma_pow2_adds, lemma_pow2_pos, lemma_pow2_strictly_increases, lemma_pow2_unfold,
    pow2,
};

verus! {

/// The bit pattern of the double 30.
pub const THRESHOLD_BITS: u64 = 0x403E_0000_0000_0000;

/// The lowest bit pattern with the sign bit set.
pub const SIGN_BIT: u64 = 0x8000_0000_0000_0000;

/// The bit pattern of positive infinity: every exponent bit, no fraction bit.
pub const INFINITY_BITS: u64 = 0x7FF0_0000_0000_0000;

/// Two to the fifty-second: the weight of the lowest exponent bit.
pub const FRACTION_RANGE: u64 = 0x10_0000_0000_0000;

/// Whether the sign bit is set.
pub open spec fn is_negative(bits: u64) -> bool {
    bits >= SIGN_BIT
}

/// The bits without the sign bit.
pub open spec fn magnitude_bits(bits: u64) -> nat {
    (bits % SIGN_BIT) as nat
}

/// The eleven exponent bits, as a number.
pub open spec fn exponent_of(bits: u64) -> nat {
    magnitude_bits(bits) / (FRACTION_RANGE as nat)
}

/// The fifty-two fraction bits, as a number.
pub open spec fn fraction_of(bits: u64) -> nat {
    magnitude_bits(bits) % (FRACTION_RANGE as nat)
}

/// Not a number: every exponent bit set and some fraction bit.
pub open spec fn is_nan(bits: u64) -> bool {
    exponent_of(bits) == 2047 && fraction_of(bits) != 0
}

/// Zero, subnormal or normal: some exponent bit clear.
pub open spec fn is_finite(bits: u64) -> bool {
    exponent_of(bits) < 2047
}

/// The absolute value of a finite double, in units of two to the minus 1074
/// (the smallest positive double). With exponent bits zero the fraction
/// counts these units; otherwise an implicit leading one stands before the
/// fraction and each step of the exponent doubles the value.
pub open spec fn scaled_magnitude(bits: u64) -> nat {
    if exponent_of(bits) == 0 {
        fraction_of(bits)
    } else {
        ((FRACTION_RANGE + fraction_of(bits)) * pow2((exponent_of(bits) - 1) as nat)) as nat
    }
}

/// Thirty, in the same units.
pub open spec fn scaled_threshold() -> nat {
    (30 * pow2(1074)) as nat
}

/// Whether the double is at most thirty. Not a number compares with nothing,
/// so it is not; a number with the sign bit set is zero or below, negative
/// infinity too, so it is; any other has to be finite and no larger than
/// thirty.
pub open spec fn at_most_threshold(bits: u64) -> bool {
    &&& !is_nan(bits)
    &&& is_negative(bits) || (is_finite(bits) && scaled_magnitude(bits) <= scaled_threshold())
}

/// The model reads the bit patterns of the smallest positive double, of one
/// and of thirty as one unit, as two to the 1074th units, and as thirty times
/// that.
pub proof fn lemma_units()
    ensures
        scaled_magnitude(1) == 1,
        scaled_magnitude(0x3FF0_0000_0000_0000) == pow2(1074),
        scaled_magnitude(THRESHOLD_BITS) == scaled_threshold(),
        is_finite(THRESHOLD_BITS) && !is_negative(THRESHOLD_BITS) && !is_nan(THRESHOLD_BITS),
{
    lemma2_to64();
    lemma_pow2_adds(32, 16);
    lemma_pow2_adds(48, 4);
    lemma_pow2_adds(52, 1022);
    lemma_pow2_adds(48, 1026);
    assert(exponent_of(0x3FF0_0000_0000_0000) == 1023);
    assert(fraction_of(0x3FF0_0000_0000_0000) == 0);
    assert(exponent_of(THRESHOLD_BITS) == 1027);
    assert(fraction_of(THRESHOLD_BITS) == 0xE_0000_0000_0000);
    assert((FRACTION_RANGE + 0xE_0000_0000_0000) * pow2(1026) == 30 * pow2(1074))
        by (nonlinear_arith)
        requires
            FRACTION_RANGE == 0x10_0000_0000_0000,
            pow2(1074) == 0x1_0000_0000_0000 * pow2(1026),
    ;
}

/// Among doubles without sign bit that are numbers, those at most thirty are
/// the ones whose bit pattern is at most that of thirty.
pub proof fn lemma_threshold_bits(bits: u64)
    requires
        bits <= INFINITY_BITS,
    ensures
        at_most_threshold(bits) <==> bits <= THRESHOLD_BITS,
{
    let e: nat = exponent_of(bits);
    let f: nat = fraction_of(bits);
    let unit: nat = pow2(1026);
    // Thirty is 30 * 2^48 times 2^1026.
    lemma2_to64();
    lemma_pow2_adds(32, 16);
    lemma_pow2_adds(48, 1026);
    lemma_pow2_pos(1074);
    assert(scaled_threshold() == 30 * 0x1_0000_0000_0000 * unit) by (nonlinear_arith)
        requires
            scaled_threshold() == 30 * pow2(1074),
            pow2(1074) == 0x1_0000_0000_0000 * unit,
    ;
    if e == 0 {
        // Subnormal: less than 2^52 of the smallest units.
        assert(unit > 16) by {
            lemma_pow2_strictly_increases(4, 1026);
        }
        assert(f < 30 * 0x1_0000_0000_0000 * unit) by (nonlinear_arith)
            requires
                f < 0x10_0000_0000_0000,
                unit > 16,
        ;
    } else if e < 1027 {
        // Less than sixteen.
        let below: nat = (e - 1) as nat;
        lemma_pow2_pos(below);
        assert(pow2(below) * 2 <= unit) by {
            lemma_pow2_unfold((below + 1) as nat);
            if below + 1 < 1026 {
                lemma_pow2_strictly_increases((below + 1) as nat, 1026);
            }
        }
        assert((FRACTION_RANGE + f) * pow2(below) <= 30 * 0x1_0000_0000_0000 * unit)
            by (nonlinear_arith)
            requires
                f < 0x10_0000_0000_0000,
                FRACTION_RANGE == 0x10_0000_0000_0000,
                pow2(below) * 2 <= unit,
                pow2(below) > 0,
        ;
    } else if e == 1027 {
        // From sixteen to below thirty-two: the fraction decides.
        lemma_pow2_pos(1026);
        assert(((FRACTION_RANGE + f) * unit <= 30 * 0x1_0000_0000_0000 * unit) <==> (
        FRACTION_RANGE + f <= 30 * 0x1_0000_0000_0000)) by (nonlinear_arith)
            requires
                unit > 0,
        ;
    } else if e < 2047 {
        // Thirty-two or more.
        let below: nat = (e - 1) as nat;
        lemma_pow2_pos(1026);
        assert(unit * 2 <= pow2(below)) by {
            lemma_pow2_unfold(1027);
            if 1027 < below {
                lemma_pow2_strictly_increases(1027, below);
            }
        }
        assert((FRACTION_RANGE + f) * pow2(below) > 30 * 0x1_0000_0000_0000 * unit)
            by (nonlinear_arith)
            requires
                FRACTION_RANGE == 0x10_0000_0000_0000,
                unit * 2 <= pow2(below),
                unit > 0,
                f >= 0,
        ;
    }
}

/// Whether an average passes the filter: whether it is at most thirty.
pub fn within_threshold(bits: u64) -> (r: bool)
    ensures
        r == at_most_threshold(bits),
{
    let magnitude: u64 = bits % SIGN_BIT;
    if magnitude > INFINITY_BITS {
        false
    } else if bits >= SIGN_BIT {
        true
    } else {
        proof {
            lemma_threshold_bits(bits);
        }
        bits <= THRESHOLD_BITS
    }
}

} // verus!
