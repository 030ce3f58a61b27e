//! Reading numbers given as bit patterns of the IEEE 754 binary32 format.
//!
//! A pattern holds a sign bit, eight bits of exponent and twenty-three bits
//! of fraction, and stands for `significand * 2^power`. Here such a number is
//! counted in whole fractions of one, `scale` to the unit, without ever
//! handling the number itself.

use vstd::arithmetic::div_mod::lemma_basic_div;
use vstd::arithmetic::power2::{
    lemma2_to64, lemma2_to64_rest, lemma_pow2_adds, lemma_pow2_pos,
    lemma_pow2_strictly_increases, lemma_pow2_unfold, pow2,
};
use vstd::prelude::*;

verus! {

/// The exponent field of a pattern.
pub open spec fn exponent_field(bits: u32) -> int {
    (bits as int / 0x80_0000) % 0x100
}

/// The fraction field of a pattern.
pub open spec fn fraction_field(bits: u32) -> int {
    bits as int % 0x80_0000
}

/// Holds when the sign bit is set.
pub open spec fn is_negative(bits: u32) -> bool {
    bits >= 0x8000_0000
}

/// Holds when the pattern stands for no number.
pub open spec fn is_nan(bits: u32) -> bool {
    exponent_field(bits) == 255 && fraction_field(bits) != 0
}

/// Holds when the pattern stands for an infinity.
pub open spec fn is_infinite(bits: u32) -> bool {
    exponent_field(bits) == 255 && fraction_field(bits) == 0
}

/// The significand of a finite pattern: the fraction, with the hidden bit
/// above it unless the number is subnormal.
pub open spec fn significand(bits: u32) -> int {
    if exponent_field(bits) == 0 {
        fraction_field(bits)
    } else {
        fraction_field(bits) + 0x80_0000
    }
}

/// The power of two by which the significand of a finite pattern is scaled.
pub open spec fn power(bits: u32) -> int {
    if exponent_field(bits) == 0 {
        -149
    } else {
        exponent_field(bits) - 150
    }
}

/// The magnitude of a finite pattern times `scale`, rounded down.
pub open spec fn magnitude_scaled(bits: u32, scale: int) -> int {
    if power(bits) >= 0 {
        significand(bits) * scale * pow2(power(bits) as nat)
    } else {
        (significand(bits) * scale) / (pow2((-power(bits)) as nat) as int)
    }
}

/// The number that `bits` stands for, times `scale`, rounded down and
/// saturated to `0 ..= cap`. What is no number counts as zero.
pub open spec fn scaled(bits: u32, scale: u64, cap: u64) -> int {
    if is_nan(bits) || is_negative(bits) {
        0
    } else if is_infinite(bits) {
        cap as int
    } else if magnitude_scaled(bits, scale as int) > cap {
        cap as int
    } else {
        magnitude_scaled(bits, scale as int)
    }
}

/// Two to the power of `k`.
fn power_of_two(k: u32) -> (p: u128)
    requires
        k < 128,
    ensures
        p == pow2(k as nat),
{
    let mut p: u128 = 1;
    let mut i: u32 = 0;
    proof {
        lemma2_to64();
    }
    while i < k
        invariant
            i <= k < 128,
            p == pow2(i as nat),
        decreases k - i,
    {
        proof {
            lemma_pow2_unfold((i + 1) as nat);
            lemma_pow2_127();
            if i + 1 < 127 {
                lemma_pow2_strictly_increases((i + 1) as nat, 127);
            }
        }
        p = p * 2;
        i = i + 1;
    }
    p
}

/// The value of two to the power of 127.
proof fn lemma_pow2_127()
    ensures
        pow2(127) == 0x8000_0000_0000_0000_0000_0000_0000_0000,
{
    lemma2_to64_rest();
    lemma_pow2_adds(64, 63);
    assert(0x1_0000_0000_0000_0000int * 0x8000_0000_0000_0000
        == 0x8000_0000_0000_0000_0000_0000_0000_0000int);
}

/// Counts the number that `bits` stands for in whole fractions of one,
/// `scale` to the unit: computes [`scaled`].
pub fn to_scaled(bits: u32, scale: u64, cap: u64) -> (r: u64)
    ensures
        r == scaled(bits, scale, cap),
        r <= cap,
{
    let exponent: u32 = (bits / 0x80_0000) % 0x100;
    let fraction: u32 = bits % 0x80_0000;
    if bits >= 0x8000_0000 {
        return 0;
    }
    if exponent == 255 {
        return if fraction != 0 {
            0
        } else {
            cap
        };
    }
    let significand: u128 = if exponent == 0 {
        fraction as u128
    } else {
        fraction as u128 + 0x80_0000
    };
    assert(significand * scale <= 0x100_0000 * 0xffff_ffff_ffff_ffff) by (nonlinear_arith)
        requires
            0 <= significand <= 0x100_0000,
            0 <= scale <= 0xffff_ffff_ffff_ffff,
    ;
    let product: u128 = significand * (scale as u128);
    if exponent >= 150 {
        let k: u32 = exponent - 150;
        proof {
            lemma_pow2_pos(k as nat);
            assert(product * pow2(k as nat) >= product) by (nonlinear_arith)
                requires
                    product >= 0,
                    pow2(k as nat) >= 1,
            ;
        }
        if product == 0 {
            assert(product * pow2(k as nat) == 0) by (nonlinear_arith)
                requires
                    product == 0,
            ;
            0
        } else if product > cap as u128 {
            cap
        } else if k >= 64 {
            proof {
                lemma2_to64_rest();
                if k > 64 {
                    lemma_pow2_strictly_increases(64, k as nat);
                }
                assert(product * pow2(k as nat) >= pow2(k as nat)) by (nonlinear_arith)
                    requires
                        product >= 1,
                        pow2(k as nat) >= 0,
                ;
            }
            cap
        } else {
            let factor: u128 = power_of_two(k);
            proof {
                lemma2_to64_rest();
                lemma_pow2_strictly_increases(k as nat, 64);
                assert(product * factor <= 0xffff_ffff_ffff_ffff * 0x1_0000_0000_0000_0000)
                    by (nonlinear_arith)
                    requires
                        0 <= product <= 0xffff_ffff_ffff_ffff,
                        0 <= factor <= 0x1_0000_0000_0000_0000,
                ;
            }
            let value: u128 = product * factor;
            if value > cap as u128 {
                cap
            } else {
                value as u64
            }
        }
    } else {
        let k: u32 = if exponent == 0 {
            149
        } else {
            150 - exponent
        };
        if k >= 128 {
            proof {
                lemma_pow2_127();
                lemma_pow2_strictly_increases(127, k as nat);
                lemma_basic_div(product as int, pow2(k as nat) as int);
            }
            0
        } else {
            let divisor: u128 = power_of_two(k);
            proof {
                lemma_pow2_pos(k as nat);
            }
            let value: u128 = product / divisor;
            if value > cap as u128 {
                cap
            } else {
                value as u64
            }
        }
    }
}

} // verus!
