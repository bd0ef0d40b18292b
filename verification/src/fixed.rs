//! Fixed-point scale of the library.
//!
//! All geometric quantities — point coordinates, camera parameters, pixel
//! positions and detection rectangles — are held as signed multiples of
//! `1/Q`. Point coordinates arrive on the wire as IEEE 754 single-precision
//! bit patterns; `fixed_from_f32_bits` reads such a pattern into this scale.

use vstd::prelude::*;
use vstd::arithmetic::power2::{pow2, lemma_pow2_strictly_increases, lemma2_to64};

verus! {

/// Number of fixed-point steps per unit.
pub const Q: i64 = 65536;

/// Magnitude bound of every fixed-point value read from a wire coordinate:
/// coordinates at or beyond `Q_RANGE / Q` units are treated as out of range.
pub const Q_RANGE: i64 = 0x100_0000_0000;

/// The magnitude of a value.
pub open spec fn sabs(x: int) -> int {
    if x >= 0 {
        x
    } else {
        -x
    }
}

/// Truncating (round-toward-zero) division, the semantics of `/` on the
/// signed machine integers.
pub open spec fn tdiv(a: int, b: int) -> int
    recommends
        b > 0,
{
    if a >= 0 {
        a / b
    } else {
        -((-a) / b)
    }
}

/// The fixed-point reading of an IEEE 754 single-precision bit pattern:
/// the stored value times `Q`, truncated toward zero. Patterns with the
/// maximal exponent (infinities, not-a-number) and finite values of `2^24`
/// units or more are out of range and read as `None`; subnormal values
/// truncate to zero.
pub open spec fn spec_fixed_from_f32_bits(bits: u32) -> Option<i64> {
    let sign = bits / 0x8000_0000;
    let exp = (bits / 0x80_0000) % 0x100;
    let frac = bits % 0x80_0000;
    if exp == 255 {
        None
    } else if exp == 0 {
        Some(0i64)
    } else if exp >= 151 {
        None
    } else {
        let m = (frac + 0x80_0000) as int;
        let mag = if exp >= 134 {
            m * pow2((exp - 134) as nat)
        } else {
            m / pow2((134 - exp) as nat) as int
        };
        if sign == 1 {
            Some((-mag) as i64)
        } else {
            Some(mag as i64)
        }
    }
}

/// `2^k` for small exponents.
fn pow2_u64(k: u32) -> (r: u64)
    requires
        k <= 23,
    ensures
        r == pow2(k as nat),
{
    proof {
        lemma2_to64();
    }
    let mut p: u64 = 1;
    let mut i: u32 = 0;
    while i < k
        invariant
            i <= k,
            k <= 23,
            p == pow2(i as nat),
        decreases k - i,
    {
        proof {
            lemma2_to64();
            if (i as nat) < 23 {
                lemma_pow2_strictly_increases(i as nat, 23);
            }
            assert(pow2((i + 1) as nat) == 2 * pow2(i as nat)) by {
                vstd::arithmetic::power2::lemma_pow2_unfold((i + 1) as nat);
            }
        }
        p = p * 2;
        i = i + 1;
    }
    p
}

/// Reads an IEEE 754 single-precision bit pattern as a fixed-point value.
pub fn fixed_from_f32_bits(bits: u32) -> (r: Option<i64>)
    ensures
        r == spec_fixed_from_f32_bits(bits),
        r matches Some(v) ==> -Q_RANGE < v < Q_RANGE,
{
    let sign: u32 = bits / 0x8000_0000;
    let exp: u32 = (bits / 0x80_0000) % 0x100;
    let frac: u32 = bits % 0x80_0000;
    if exp == 255 {
        return None;
    }
    if exp == 0 {
        return Some(0);
    }
    if exp >= 151 {
        return None;
    }
    let m: u64 = (frac + 0x80_0000) as u64;
    assert(0x80_0000 <= m < 0x100_0000);
    let mag: u64 = if exp >= 134 {
        let p = pow2_u64(exp - 134);
        proof {
            lemma2_to64();
            if ((exp - 134) as nat) < 16 {
                lemma_pow2_strictly_increases((exp - 134) as nat, 16);
            }
            assert(m * p < 0x100_0000_0000) by (nonlinear_arith)
                requires
                    m < 0x100_0000,
                    p <= 0x10000,
            ;
        }
        m * p
    } else if exp >= 111 {
        let p = pow2_u64(134 - exp);
        proof {
            assert(p > 0) by {
                vstd::arithmetic::power2::lemma_pow2_pos((134 - exp) as nat);
            }
            assert((m as int) / (p as int) <= m as int) by (nonlinear_arith)
                requires
                    p > 0,
            ;
        }
        m / p
    } else {
        proof {
            lemma2_to64();
            if (134 - exp) as nat > 24 {
                lemma_pow2_strictly_increases(24, (134 - exp) as nat);
            }
            vstd::arithmetic::div_mod::lemma_basic_div(m as int, pow2((134 - exp) as nat) as int);
        }
        0
    };
    if sign == 1 {
        Some(-(mag as i64))
    } else {
        Some(mag as i64)
    }
}

} // verus!
