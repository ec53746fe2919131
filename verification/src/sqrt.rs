//! Square root of a single-precision scalar, computed and verified as
//! integer arithmetic on the bit pattern.
//!
//! A positive finite scalar is `m * 2^(ep - 300)` with mantissa
//! `m` in `[2^23, 2^24)`. Scaling the mantissa by `2^24` (even exponent)
//! or `2^23` (odd exponent) makes the exponent of the root exact, so the
//! correctly rounded root is the rounded integer square root of the
//! scaled mantissa; a tie can never occur, because the square root of an
//! integer is never an odd multiple of one half.

use vstd::prelude::*;
use vstd::arithmetic::power2::{pow2, lemma2_to64, lemma_pow2_adds, lemma_pow2_strictly_increases};
use crate::scalar::abs_bits;

verus! {

/// Floor of the square root of a non-negative integer.
pub closed spec fn spec_isqrt(v: int) -> int {
    choose|s: int| 0 <= s && #[trigger] (s * s) <= v && v < (s + 1) * (s + 1)
}

/// The defining property pins `spec_isqrt` down on non-negative input.
pub proof fn lemma_isqrt_is(v: int, s: int)
    requires
        0 <= s,
        s * s <= v,
        v < (s + 1) * (s + 1),
    ensures
        spec_isqrt(v) == s,
{
    assert(exists|t: int| 0 <= t && #[trigger] (t * t) <= v && v < (t + 1) * (t + 1)) by {
        assert(0 <= s && s * s <= v && v < (s + 1) * (s + 1));
    }
    let t = choose|t: int| 0 <= t && #[trigger] (t * t) <= v && v < (t + 1) * (t + 1);
    assert(t == s) by (nonlinear_arith)
        requires
            0 <= s,
            s * s <= v,
            v < (s + 1) * (s + 1),
            0 <= t,
            t * t <= v,
            v < (t + 1) * (t + 1),
    ;
}

/// Normalisation of a subnormal mantissa: double until the implicit-bit
/// position is reached, lowering the exponent in step.
pub open spec fn spec_norm(m: int, ep: int) -> (int, int)
    decreases (if 0 < m < 0x80_0000 { 0x80_0000 - m } else { 0 }),
{
    if 0 < m < 0x80_0000 {
        spec_norm(2 * m, ep - 1)
    } else {
        (m, ep)
    }
}

/// Square root of a positive finite scalar given as mantissa
/// `m0` (`frac` for subnormals, `frac + 2^23` for normals) and offset
/// exponent `ep0`, the mantissa's power of two plus 300: `151` for
/// subnormals, `exp_field + 150` otherwise. The result is packed back
/// into a bit pattern.
pub open spec fn spec_sqrt_positive(m0: int, ep0: int) -> int {
    let (m, ep) = spec_norm(m0, ep0);
    let even = ep % 2 == 0;
    let v = if even {
        m * 0x100_0000
    } else {
        m * 0x80_0000
    };
    let biased = if even {
        (ep - 24) / 2
    } else {
        (ep - 23) / 2
    };
    let s0 = spec_isqrt(v);
    let rem = v - s0 * s0;
    let s = if rem > s0 {
        s0 + 1
    } else {
        s0
    };
    if s == 0x100_0000 {
        (biased + 1) * 0x80_0000
    } else {
        biased * 0x80_0000 + (s - 0x80_0000)
    }
}

/// The square root of a scalar bit pattern: NaN stays NaN (quieted), the
/// two zeros and positive infinity return themselves, negative scalars
/// give the canonical quiet NaN, and a positive finite scalar gives its
/// correctly rounded root (round to nearest, ties impossible).
pub open spec fn sqrt_bits(a: u32) -> u32 {
    if abs_bits(a) > 0x7F80_0000 {
        a | 0x0040_0000
    } else if abs_bits(a) == 0 {
        a
    } else if a >= 0x8000_0000 {
        0xFFC0_0000
    } else if a == 0x7F80_0000 {
        a
    } else {
        let exp_field = a as int / 0x80_0000;
        let frac = a as int % 0x80_0000;
        if exp_field == 0 {
            spec_sqrt_positive(frac, 151) as u32
        } else {
            spec_sqrt_positive(frac + 0x80_0000, exp_field + 150) as u32
        }
    }
}

/// Floor square root of an integer below 2^48, by binary descent on the
/// candidate bit.
fn isqrt48(v: u64) -> (s: u64)
    requires
        v < 0x1_0000_0000_0000u64,
    ensures
        (s as int) * (s as int) <= v as int,
        (v as int) < ((s as int) + 1) * ((s as int) + 1),
        s < 0x200_0000u64,
{
    let mut s: u64 = 0;
    let mut p: u64 = 0x200_0000;
    let mut kk: u32 = 25;
    proof {
        lemma2_to64();
        assert((0x200_0000int) * (0x200_0000int) > v as int) by (nonlinear_arith)
            requires
                v < 0x1_0000_0000_0000u64,
        ;
    }
    while kk > 0
        invariant
            kk <= 25,
            p as int == pow2(kk as nat),
            s + p <= 0x200_0000,
            s as int * s as int <= v as int,
            (v as int) < ((s as int) + (p as int)) * ((s as int) + (p as int)),
            v < 0x1_0000_0000_0000u64,
        decreases kk,
    {
        proof {
            lemma_pow2_adds(1, (kk - 1) as nat);
            lemma2_to64();
        }
        kk = kk - 1;
        p = p / 2;
        let c: u64 = s + p;
        proof {
            assert(c as int * c as int <= 0x200_0000int * 0x200_0000int) by (nonlinear_arith)
                requires
                    c <= 0x200_0000u64,
            ;
        }
        let cc: u64 = c * c;
        if cc <= v {
            s = c;
        }
    }
    proof {
        lemma2_to64();
    }
    s
}

/// Square root of a scalar bit pattern, correctly rounded single
/// precision.
pub fn float_sqrt(a: u32) -> (r: u32)
    ensures
        r == sqrt_bits(a),
{
    let mag = crate::scalar::float_abs(a);
    if mag > 0x7F80_0000 {
        return a | 0x0040_0000;
    }
    if mag == 0 {
        return a;
    }
    if a >= 0x8000_0000 {
        return 0xFFC0_0000;
    }
    if a == 0x7F80_0000 {
        return a;
    }
    let exp_field = a / 0x80_0000;
    let frac = a % 0x80_0000;
    let ghost m0: int = if exp_field == 0 { frac as int } else { frac as int + 0x80_0000 };
    let ghost ep0: int = if exp_field == 0 { 151int } else { exp_field as int + 150 };
    proof {
        assert(abs_bits(a) == a) by (bit_vector)
            requires
                a < 0x8000_0000u32,
        ;
        lemma2_to64();
    }
    let mut m: u32;
    let mut ep: u32;
    if exp_field == 0 {
        m = frac;
        ep = 151;
        while m < 0x80_0000
            invariant
                0 < m < 0x100_0000,
                128 <= ep <= 151,
                pow2((151 - ep) as nat) <= m,
                spec_norm(m as int, ep as int) == spec_norm(m0, ep0),
            decreases 0x100_0000 - m,
        {
            proof {
                // m is at least 2^(151 - ep) and below 2^23 here, so the
                // exponent stays above its floor as it is lowered.
                if ep <= 128 {
                    lemma_pow2_strictly_increases(22, (151 - ep) as nat);
                    lemma2_to64();
                    assert(false);
                }
                lemma_pow2_adds(1, (151 - ep) as nat);
                lemma2_to64();
            }
            m = m * 2;
            ep = ep - 1;
        }
    } else {
        m = frac + 0x80_0000;
        ep = exp_field + 150;
    }
    assert(spec_norm(m as int, ep as int) == spec_norm(m0, ep0));
    assert(0x80_0000 <= m < 0x100_0000);
    assert(128 <= ep <= 404);
    assert(spec_norm(m as int, ep as int) == (m as int, ep as int));
    let even = ep % 2 == 0;
    let v: u64;
    let mut biased: u32;
    if even {
        proof {
            assert(m as u64 as int * 0x100_0000int < 0x1_0000_0000_0000int) by (nonlinear_arith)
                requires
                    m < 0x100_0000u32,
            ;
        }
        v = (m as u64) * 0x100_0000;
        biased = (ep - 24) / 2;
    } else {
        proof {
            assert(m as u64 as int * 0x80_0000int < 0x1_0000_0000_0000int) by (nonlinear_arith)
                requires
                    m < 0x100_0000u32,
            ;
        }
        v = (m as u64) * 0x80_0000;
        biased = (ep - 23) / 2;
    }
    proof {
        assert(v as int >= 0x4000_0000_0000int) by (nonlinear_arith)
            requires
                v as int == m as int * 0x100_0000int || v as int == m as int * 0x80_0000int,
                m >= 0x80_0000u32,
        ;
    }
    let s0 = isqrt48(v);
    proof {
        lemma_isqrt_is(v as int, s0 as int);
        // The root of at least 2^46 is at least 2^23; below 2^48 it is
        // below 2^24.
        assert(s0 as int >= 0x80_0000int) by (nonlinear_arith)
            requires
                (v as int) < ((s0 as int) + 1) * ((s0 as int) + 1),
                v as int >= 0x4000_0000_0000int,
                s0 >= 0,
        ;
        assert((s0 as int) < 0x100_0000int) by (nonlinear_arith)
            requires
                s0 as int * s0 as int <= v as int,
                v < 0x1_0000_0000_0000u64,
                s0 >= 0,
        ;
    }
    let rem: u64 = v - s0 * s0;
    let s32: u32 = if rem > s0 {
        (s0 + 1) as u32
    } else {
        s0 as u32
    };
    if s32 == 0x100_0000 {
        biased * 0x80_0000 + 0x80_0000
    } else {
        biased * 0x80_0000 + (s32 - 0x80_0000)
    }
}

} // verus!
