//! IEEE-754 binary64 values carried as their raw bit patterns, and the
//! conversion of such a value to `u64` that Rust's `as` cast performs
//! (round toward zero, NaN to 0, saturation at both ends).
use vstd::prelude::*;
use vstd::arithmetic::power2::{pow2, lemma2_to64, lemma2_to64_rest, lemma_pow2_strictly_increases, lemma_pow2_pos};
use vstd::arithmetic::div_mod::lemma_basic_div;
use vstd::bits::{lemma_u64_shl_is_mul, lemma_u64_shr_is_div};

verus! {

/// 2^52: the weight of the hidden bit of a normal significand.
pub open spec fn hidden_bit() -> nat {
    0x10_0000_0000_0000
}

/// The sign bit (bit 63).
pub open spec fn sign_bit(bits: u64) -> nat {
    bits as nat / 0x8000_0000_0000_0000
}

/// The biased exponent field (bits 52..63).
pub open spec fn biased_exponent(bits: u64) -> nat {
    (bits as nat / hidden_bit()) % 2048
}

/// The fraction field (bits 0..52).
pub open spec fn fraction(bits: u64) -> nat {
    bits as nat % hidden_bit()
}

pub open spec fn is_nan(bits: u64) -> bool {
    biased_exponent(bits) == 2047 && fraction(bits) != 0
}

pub open spec fn is_infinite(bits: u64) -> bool {
    biased_exponent(bits) == 2047 && fraction(bits) == 0
}

/// The integer significand of a finite value: the fraction, with the hidden
/// bit added for normal numbers.
pub open spec fn significand(bits: u64) -> nat {
    if biased_exponent(bits) == 0 {
        fraction(bits)
    } else {
        fraction(bits) + hidden_bit()
    }
}

/// The power of two that scales the significand of a finite value:
/// |value| == significand * 2^scale.
pub open spec fn scale(bits: u64) -> int {
    if biased_exponent(bits) == 0 {
        1 - 1075
    } else {
        biased_exponent(bits) - 1075
    }
}

/// The largest integer not above the magnitude of a finite value.
pub open spec fn magnitude_floor(bits: u64) -> nat {
    if scale(bits) >= 0 {
        significand(bits) * pow2(scale(bits) as nat)
    } else {
        significand(bits) / pow2((-scale(bits)) as nat)
    }
}

/// What `value as u64` yields for the binary64 value with these bits:
/// NaN gives 0, a negative value gives 0 (after rounding toward zero it is
/// at most 0), +infinity and anything at or above 2^64 give `u64::MAX`,
/// and any other value gives the integer part of the value.
pub open spec fn saturating_trunc(bits: u64) -> u64 {
    if is_nan(bits) {
        0
    } else if sign_bit(bits) == 1 {
        0
    } else if is_infinite(bits) || magnitude_floor(bits) > u64::MAX {
        u64::MAX
    } else {
        magnitude_floor(bits) as u64
    }
}

/// Converts the binary64 value whose bits are `bits` to `u64` the way
/// `as` does.
pub fn truncate_to_u64(bits: u64) -> (r: u64)
    ensures
        r == saturating_trunc(bits),
{
    proof {
        lemma2_to64();
        lemma2_to64_rest();
    }
    let negative = bits >= 0x8000_0000_0000_0000;
    let exponent: u64 = (bits / 0x10_0000_0000_0000) % 2048;
    let frac: u64 = bits % 0x10_0000_0000_0000;
    assert(negative == (sign_bit(bits) == 1));
    if exponent == 2047 {
        if frac != 0 || negative {
            return 0;
        }
        return u64::MAX;
    }
    if negative {
        return 0;
    }
    if exponent < 1023 {
        proof {
            let d = (-scale(bits)) as nat;
            assert(d >= 53);
            if d > 53 {
                lemma_pow2_strictly_increases(53, d);
            }
            assert(significand(bits) < pow2(53));
            lemma_basic_div(significand(bits) as int, pow2(d) as int);
        }
        return 0;
    }
    let sig: u64 = frac + 0x10_0000_0000_0000;
    assert(sig == significand(bits));
    if exponent >= 1075 {
        let shift: u64 = exponent - 1075;
        if shift >= 12 {
            proof {
                if shift > 12 {
                    lemma_pow2_strictly_increases(12, shift as nat);
                }
                let p = pow2(shift as nat);
                assert(p >= 4096);
                assert(sig * p >= 0x1_0000_0000_0000_0000nat) by (nonlinear_arith)
                    requires sig >= 0x10_0000_0000_0000, p >= 4096;
                assert(magnitude_floor(bits) == sig * p);
            }
            return u64::MAX;
        }
        proof {
            if shift < 11 {
                lemma_pow2_strictly_increases(shift as nat, 11);
            }
            let p = pow2(shift as nat);
            assert(p <= 2048);
            assert(sig * p <= u64::MAX) by (nonlinear_arith)
                requires sig < 0x20_0000_0000_0000, p <= 2048;
            lemma_u64_shl_is_mul(sig, shift);
        }
        sig << shift
    } else {
        let shift: u64 = 1075 - exponent;
        proof {
            lemma_u64_shr_is_div(sig, shift);
            lemma_pow2_pos(shift as nat);
        }
        sig >> shift
    }
}

} // verus!
