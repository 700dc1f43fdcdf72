//! Integer model of IEEE-754 single-precision bit patterns.
//!
//! Float channels are carried through the codec as raw 32-bit patterns, so
//! that every operation on them is exact integer arithmetic. This module
//! gives the three operations the codec needs:
//!
//! - [`unit_to_bits`]: the bit pattern of `x / 255` for a byte `x`, rounded
//!   to the nearest representable value (the divisor 255 is odd, so a tie
//!   cannot occur);
//! - [`bits_to_byte`]: 255 times the value of a bit pattern, rounded half
//!   up and clamped to `0..=255` (negative values and NaN give 0);
//! - [`cmp_bits`]: the total order on bit patterns that orders non-NaN
//!   values as the floats they denote, makes the two zeros equal, and
//!   places every NaN above everything else and equal to every other NaN.
//!
//! The order rests on the sign-magnitude layout of the encoding: for
//! non-NaN patterns of equal sign, the denoted values are ordered exactly
//! as the magnitude fields.

use vstd::arithmetic::div_mod::lemma_div_is_ordered;
use vstd::arithmetic::power2::{lemma2_to64, lemma2_to64_rest, pow2};
use vstd::bits::{lemma_u64_shl_is_mul, lemma_u64_shr_is_div};
use vstd::prelude::*;

verus! {

/// The sign bit of a pattern.
pub open spec fn f32_sign(b: u32) -> bool {
    b >= 0x8000_0000
}

/// The 8-bit exponent field of a pattern.
pub open spec fn f32_exp(b: u32) -> nat {
    ((b as nat / 0x80_0000) % 0x100) as nat
}

/// The 23-bit fraction field of a pattern.
pub open spec fn f32_frac(b: u32) -> nat {
    (b as nat % 0x80_0000) as nat
}

/// The magnitude: the pattern with the sign bit cleared.
pub open spec fn f32_mag(b: u32) -> nat {
    (b as nat % 0x8000_0000) as nat
}

/// Whether the pattern denotes a NaN.
pub open spec fn f32_is_nan(b: u32) -> bool {
    f32_exp(b) == 255 && f32_frac(b) != 0
}

/// The key of the total order on patterns: every NaN sits above all other
/// values and all NaNs are equal; the two zeros are equal; any other pair
/// is ordered as the denoted values, which for the sign-magnitude encoding
/// is the order of the magnitudes, reversed under a set sign bit.
pub open spec fn f32_key(b: u32) -> int {
    if f32_is_nan(b) {
        0x8000_0000
    } else if f32_sign(b) {
        -(f32_mag(b) as int)
    } else {
        f32_mag(b) as int
    }
}

/// The position of the highest set bit of a nonzero byte.
pub open spec fn log2_floor_u8(x: u8) -> int {
    if x < 2 {
        0
    } else if x < 4 {
        1
    } else if x < 8 {
        2
    } else if x < 16 {
        3
    } else if x < 32 {
        4
    } else if x < 64 {
        5
    } else if x < 128 {
        6
    } else {
        7
    }
}

/// The bit pattern of the 32-bit float nearest to `x / 255`.
///
/// For nonzero `x` with highest set bit `k`, the value `x / 255` lies in
/// `[2^(k-8), 2^(k-7))`, so the unbiased exponent is `k - 8` and the 24-bit
/// significand is `x * 2^(31-k) / 255` rounded to the nearest integer (the
/// odd divisor admits no tie). Rounding can carry the significand up to
/// `2^24` — exactly at `x == 255` — and the carry then lands in the
/// exponent field, giving the pattern of 1.0.
pub open spec fn unit_bits(x: u8) -> u32 {
    if x == 0 {
        0
    } else {
        let k = log2_floor_u8(x);
        let a = x * pow2((31 - k) as nat);
        let q = a / 255;
        let m = if 2 * (a % 255) > 255 {
            q + 1
        } else {
            q
        };
        (((k + 119) * 0x80_0000) + (m - 0x80_0000)) as u32
    }
}

/// The bit pattern of the 32-bit float nearest to `x / 255`.
pub(crate) fn unit_to_bits(x: u8) -> (r: u32)
    ensures
        r == unit_bits(x),
{
    if x == 0 {
        return 0;
    }
    let (k, p): (u32, u64) = if x < 2 {
        (0, 0x8000_0000)
    } else if x < 4 {
        (1, 0x4000_0000)
    } else if x < 8 {
        (2, 0x2000_0000)
    } else if x < 16 {
        (3, 0x1000_0000)
    } else if x < 32 {
        (4, 0x0800_0000)
    } else if x < 64 {
        (5, 0x0400_0000)
    } else if x < 128 {
        (6, 0x0200_0000)
    } else {
        (7, 0x0100_0000)
    };
    let a: u64 = (x as u64) * p;
    let q: u64 = a / 255;
    let rest: u64 = a % 255;
    let m: u64 = if 2 * rest > 255 {
        q + 1
    } else {
        q
    };
    proof {
        lemma2_to64();
        lemma2_to64_rest();
        assert(k == log2_floor_u8(x) && p == pow2((31 - k) as nat));
        lemma_unit_scaled_range(x as u64, p, k as int);
        // the significand stays within [2^23, 2^24]
        lemma_div_is_ordered(0x8000_0000, a as int, 255);
        lemma_div_is_ordered(a as int, (255 * 0x0100_0000) as int, 255);
        assert(q >= 0x80_0000 && q <= 0x0100_0000);
        if q == 0x0100_0000 {
            // the quotient is at its cap only when a is the exact multiple,
            // so there is nothing to round up
            assert(a == 255 * q + rest);
            assert(rest == 0);
        }
        assert(m <= 0x0100_0000);
    }
    (k + 119) * 0x80_0000 + (m as u32 - 0x80_0000)
}

/// A nonzero byte with highest set bit `k`, scaled by `2^(31-k)`, lands in
/// `[2^31, 255 * 2^24]`.
proof fn lemma_unit_scaled_range(x: u64, p: u64, k: int)
    requires
        1 <= x < 256,
        k == log2_floor_u8(x as u8),
        p == pow2((31 - k) as nat),
    ensures
        0x8000_0000 <= x * p <= 255 * 0x0100_0000,
        k < 7 ==> x * p <= 0x1_0000_0000 - 0x0200_0000,
{
    lemma2_to64();
    lemma2_to64_rest();
    assert(pow2(k as nat) <= x < 2 * pow2(k as nat));
    assert(x * p >= pow2(k as nat) * p) by (nonlinear_arith)
        requires
            x >= pow2(k as nat) && p > 0,
    ;
    assert(pow2(k as nat) * pow2((31 - k) as nat) == pow2(31)) by {
        vstd::arithmetic::power2::lemma_pow2_adds(k as nat, (31 - k) as nat);
    }
    if k == 7 {
        assert(x * p <= 255 * p) by (nonlinear_arith)
            requires
                x <= 255 && p > 0,
        ;
    } else {
        assert(x * p <= (2 * pow2(k as nat) - 1) * p) by (nonlinear_arith)
            requires
                x <= 2 * pow2(k as nat) - 1 && p > 0,
        ;
        assert((2 * pow2(k as nat) - 1) * p == 2 * pow2(31) - p) by (nonlinear_arith)
            requires
                pow2(k as nat) * p == pow2(31),
        ;
        assert(p >= pow2(25)) by {
            if 31 - k > 25 {
                vstd::arithmetic::power2::lemma_pow2_strictly_increases(25, (31 - k) as nat);
            }
        }
    }
}

/// Every pattern that `unit_bits` produces is non-negative and finite:
/// in particular neither NaN nor a sign-bit zero.
pub proof fn lemma_unit_bits_plain(x: u8)
    ensures
        !f32_is_nan(unit_bits(x)),
        !f32_sign(unit_bits(x)),
        f32_key(unit_bits(x)) == f32_mag(unit_bits(x)),
        f32_mag(unit_bits(x)) == unit_bits(x),
{
    lemma2_to64();
    lemma2_to64_rest();
    if x != 0 {
        let k = log2_floor_u8(x);
        let a = x * pow2((31 - k) as nat);
        let q = a / 255;
        let m = if 2 * (a % 255) > 255 {
            q + 1
        } else {
            q
        };
        lemma_unit_scaled_range(x as u64, pow2((31 - k) as nat) as u64, k);
        lemma_div_is_ordered(0x8000_0000, a, 255);
        lemma_div_is_ordered(a, (255 * 0x0100_0000) as int, 255);
        assert(0x80_0000 <= q <= 0x0100_0000);
        if q == 0x0100_0000 {
            assert(a == 255 * q + a % 255);
            assert(a % 255 == 0);
        }
        assert(0x80_0000 <= m <= 0x0100_0000);
        let w = ((k + 119) * 0x80_0000) + (m - 0x80_0000);
        assert(0 <= w <= 0x3F80_0000);
        assert(unit_bits(x) == w as u32);
        // the packed word stays below the sign bit and its exponent field
        // below the NaN marker
        assert(f32_mag(w as u32) == w);
        assert(w as nat / 0x80_0000 <= 127) by {
            lemma_div_is_ordered(w, 0x3F80_0000, 0x80_0000);
        }
        assert(f32_exp(w as u32) <= 127);
    }
}

/// 255 times the value a bit pattern denotes, rounded half up and clamped
/// to `0..=255`; NaN and every negative value give 0, and infinity 255.
///
/// A finite pattern with fraction `f` and exponent field `e` denotes
/// `m * 2^(e' - 150)` where `(m, e')` is `(f, 1)` for a subnormal and
/// `(2^23 + f, e)` otherwise, so the rounding is the integer division
/// below.
pub open spec fn byte_of_bits(b: u32) -> u8 {
    if f32_is_nan(b) || f32_sign(b) {
        0
    } else {
        let e = if f32_exp(b) == 0 {
            1int
        } else {
            f32_exp(b) as int
        };
        let m = if f32_exp(b) == 0 {
            f32_frac(b) as int
        } else {
            0x80_0000 + f32_frac(b) as int
        };
        if e >= 150 {
            255
        } else {
            let r = (m * 255 + pow2((149 - e) as nat)) as int / pow2((150 - e) as nat) as int;
            if r >= 255 {
                255
            } else {
                r as u8
            }
        }
    }
}

/// Scaling a byte down to a unit float and back up is lossless: the
/// nearest pattern to `x / 255` projects back to exactly `x`. Converting a
/// packed channel to a float channel and back therefore loses nothing.
pub proof fn lemma_unit_byte_round_trip(x: u8)
    ensures
        byte_of_bits(unit_bits(x)) == x,
{
    lemma2_to64();
    lemma2_to64_rest();
    if x == 0 {
        // the zero pattern is subnormal with significand 0: half an ulp
        // of nothing rounds down to 0
        assert(unit_bits(0u8) == 0);
        vstd::arithmetic::power2::lemma_pow2_strictly_increases(148, 149);
        vstd::arithmetic::div_mod::lemma_basic_div(
            pow2(148) as int,
            pow2(149) as int,
        );
    } else {
        let k = log2_floor_u8(x);
        let p = pow2((31 - k) as nat);
        let a = x * p;
        let q = a / 255;
        let rest = a % 255;
        let m = if 2 * rest > 255 {
            q + 1
        } else {
            q
        };
        lemma_unit_scaled_range(x as u64, p as u64, k);
        lemma_div_is_ordered(0x8000_0000, a, 255);
        lemma_div_is_ordered(a, (255 * 0x0100_0000) as int, 255);
        assert(0x80_0000 <= q <= 0x0100_0000);
        assert(a == 255 * q + rest && 0 <= rest < 255);
        if q == 0x0100_0000 {
            assert(rest == 0);
        }
        // the half-ulp added before the truncating division
        let ph = pow2((30 - k) as nat);
        assert(2 * ph == p) by {
            lemma_pow2_unfold_once((30 - k) as nat);
        }
        assert(ph >= 0x80_0000) by {
            lemma_pow2_increases(23, (30 - k) as nat);
        }
        if m <= 0x0100_0000 - 1 {
            // the significand stays normal under exponent k + 119
            let w = (k + 119) * 0x80_0000 + (m - 0x80_0000);
            assert(unit_bits(x) == w as u32);
            lemma_w_fields(w, k + 119, m - 0x80_0000);
            // 255 m differs from a by less than half an ulp either way,
            // so adding the half ulp and dividing yields x exactly
            let num = m * 255 + ph;
            assert(byte_of_bits(unit_bits(x)) == (if num / p as int >= 255 {
                255u8
            } else {
                (num / p as int) as u8
            }));
            if 2 * rest > 255 {
                assert(num == x * p + (ph + 255 - rest));
                vstd::arithmetic::div_mod::lemma_fundamental_div_mod_converse(
                    num,
                    p as int,
                    x as int,
                    ph + 255 - rest,
                );
            } else {
                assert(num == x * p + (ph - rest));
                vstd::arithmetic::div_mod::lemma_fundamental_div_mod_converse(
                    num,
                    p as int,
                    x as int,
                    ph - rest,
                );
            }
            assert(num / p as int == x);
        } else {
            // the rounded significand carried into the exponent; that
            // takes an exact quotient, which happens only at x == 255
            assert(m == 0x0100_0000 && q == 0x0100_0000 && rest == 0);
            assert(a == 255 * 0x0100_0000);
            if k < 7 {
                assert(x * p <= 0x1_0000_0000 - 0x0200_0000);
                assert(false);
            }
            assert(k == 7 && p == 0x0100_0000);
            assert(x as int * 0x0100_0000 == 255 * 0x0100_0000);
            assert(x == 255);
            let w = (k + 119) * 0x80_0000 + (m - 0x80_0000);
            assert(w == 127 * 0x80_0000);
            assert(unit_bits(x) == 0x3F80_0000u32);
            assert(f32_exp(0x3F80_0000u32) == 127 && f32_frac(0x3F80_0000u32) == 0 && !f32_sign(
                0x3F80_0000u32,
            ) && !f32_is_nan(0x3F80_0000u32));
            // 2^23 * 255 + 2^22 over 2^23 is 255 with a remainder
            vstd::arithmetic::div_mod::lemma_fundamental_div_mod_converse(
                0x80_0000 * 255 + pow2(22) as int,
                pow2(23) as int,
                255,
                pow2(22) as int,
            );
        }
    }
}

/// The exponent and fraction fields of a word assembled as
/// `e * 2^23 + f` with `f` below `2^23` and `e` below 255.
proof fn lemma_w_fields(w: int, e: int, f: int)
    requires
        w == e * 0x80_0000 + f,
        0 <= f < 0x80_0000,
        0 <= e < 255,
    ensures
        f32_exp(w as u32) == e,
        f32_frac(w as u32) == f,
        !f32_sign(w as u32),
        !f32_is_nan(w as u32),
{
    assert(w < 255 * 0x80_0000);
    vstd::arithmetic::div_mod::lemma_fundamental_div_mod_converse(w, 0x80_0000, e, f);
    vstd::arithmetic::div_mod::lemma_small_mod(e as nat, 0x100);
}

/// 255 times the value a bit pattern denotes, rounded half up and clamped
/// to `0..=255`.
pub(crate) fn bits_to_byte(b: u32) -> (r: u8)
    ensures
        r == byte_of_bits(b),
{
    let expf: u32 = (b / 0x80_0000) % 0x100;
    let frac: u32 = b % 0x80_0000;
    if expf == 255 && frac != 0 {
        // NaN
        return 0;
    }
    if b >= 0x8000_0000 {
        // negative, including the negative zero
        return 0;
    }
    let (m, e): (u32, u32) = if expf == 0 {
        (frac, 1)
    } else {
        (frac + 0x80_0000, expf)
    };
    if e >= 150 {
        return 255;
    }
    let shift: u32 = 150 - e;
    if shift >= 33 {
        // 255 * m + 2^(shift-1) < 2^shift: the rounded value is zero
        proof {
            lemma2_to64();
            lemma2_to64_rest();
            lemma_pow2_increases(32, (shift - 1) as nat);
            assert(m * 255 + pow2((shift - 1) as nat) < 2 * pow2((shift - 1) as nat));
            lemma_pow2_unfold_once((shift - 1) as nat);
            vstd::arithmetic::div_mod::lemma_basic_div(
                (m * 255 + pow2((shift - 1) as nat)) as int,
                pow2(shift as nat) as int,
            );
        }
        return 0;
    }
    proof {
        lemma2_to64();
        lemma2_to64_rest();
        lemma_pow2_increases((shift - 1) as nat, 31);
        lemma_u64_shl_is_mul(1u64, (shift - 1) as u64);
    }
    let num: u64 = (m as u64) * 255 + (1u64 << (shift - 1) as u64);
    let r64: u64 = num >> (shift as u64);
    proof {
        lemma_u64_shr_is_div(num, shift as u64);
    }
    if r64 >= 255 {
        255
    } else {
        r64 as u8
    }
}

/// Doubling a power of two steps the exponent.
proof fn lemma_pow2_unfold_once(n: nat)
    ensures
        2 * pow2(n) == pow2(n + 1),
{
    vstd::arithmetic::power2::lemma_pow2_unfold(n + 1);
}

/// Powers of two grow with the exponent.
proof fn lemma_pow2_increases(a: nat, b: nat)
    requires
        a <= b,
    ensures
        pow2(a) <= pow2(b),
{
    if a < b {
        vstd::arithmetic::power2::lemma_pow2_strictly_increases(a, b);
    }
}

/// Compare two bit patterns in the total order of [`f32_key`].
pub(crate) fn cmp_bits(a: u32, b: u32) -> (r: core::cmp::Ordering)
    ensures
        (r == core::cmp::Ordering::Equal) == (f32_key(a) == f32_key(b)),
        (r == core::cmp::Ordering::Less) == (f32_key(a) < f32_key(b)),
        (r == core::cmp::Ordering::Greater) == (f32_key(a) > f32_key(b)),
{
    let a_nan = ((a / 0x80_0000) % 0x100 == 255) && (a % 0x80_0000 != 0);
    let b_nan = ((b / 0x80_0000) % 0x100 == 255) && (b % 0x80_0000 != 0);
    if a_nan && b_nan {
        return core::cmp::Ordering::Equal;
    }
    if a_nan {
        return core::cmp::Ordering::Greater;
    }
    if b_nan {
        return core::cmp::Ordering::Less;
    }
    let a_neg = a >= 0x8000_0000;
    let b_neg = b >= 0x8000_0000;
    let a_mag = a % 0x8000_0000;
    let b_mag = b % 0x8000_0000;
    if a_neg && b_neg {
        if b_mag < a_mag {
            core::cmp::Ordering::Less
        } else if b_mag > a_mag {
            core::cmp::Ordering::Greater
        } else {
            core::cmp::Ordering::Equal
        }
    } else if !a_neg && !b_neg {
        if a_mag < b_mag {
            core::cmp::Ordering::Less
        } else if a_mag > b_mag {
            core::cmp::Ordering::Greater
        } else {
            core::cmp::Ordering::Equal
        }
    } else if a_neg {
        if a_mag == 0 && b_mag == 0 {
            core::cmp::Ordering::Equal
        } else {
            core::cmp::Ordering::Less
        }
    } else {
        if a_mag == 0 && b_mag == 0 {
            core::cmp::Ordering::Equal
        } else {
            core::cmp::Ordering::Greater
        }
    }
}

} // verus!
