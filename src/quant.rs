//! Fixed-point vector components: a signed 16-bit value scaled by 1/16384.
//!
//! The library carries single-precision floats as their IEEE-754 bit patterns.
//! Every `i16` divided by 16384 is either zero or a normal float, so the bits of
//! the dequantized value are computed exactly with integer arithmetic.
use vstd::prelude::*;

verus! {

/// 2 to the power `n`.
pub open spec fn two_pow(n: nat) -> nat
    decreases n,
{
    if n == 0 {
        1
    } else {
        2 * two_pow((n - 1) as nat)
    }
}

/// The sign bit of a single-precision bit pattern.
pub open spec fn f32_sign(bits: u32) -> nat {
    bits as nat / 0x80000000
}

/// The biased exponent field of a single-precision bit pattern.
pub open spec fn f32_exponent(bits: u32) -> nat {
    (bits as nat / 0x800000) % 0x100
}

/// The fraction field of a single-precision bit pattern.
pub open spec fn f32_fraction(bits: u32) -> nat {
    bits as nat % 0x800000
}

/// `bits` is the single-precision float whose value is exactly `q / 16384`:
/// positive zero for `q == 0`, else a normal float of the sign of `q` with
/// `(1 + fraction / 2^23) * 2^(exponent - 127) == |q| / 2^14`.
pub open spec fn is_dequantized(bits: u32, q: int) -> bool {
    if q == 0 {
        bits == 0
    } else {
        let mag = if q < 0 {
            -q
        } else {
            q
        };
        &&& f32_sign(bits) == (if q < 0 {
            1nat
        } else {
            0nat
        })
        &&& 113 <= f32_exponent(bits) <= 128
        &&& (0x800000 + f32_fraction(bits)) * two_pow((f32_exponent(bits) - 113) as nat) == mag
            * 0x800000
    }
}

/// The position of the highest set bit of a positive `m`.
pub open spec fn high_bit(m: nat) -> nat
    decreases m,
{
    if m < 2 {
        0
    } else {
        1 + high_bit(m / 2)
    }
}

/// The bits of the float `q / 16384.0`, field by field.
pub open spec fn dequantized_bits(q: i16) -> u32 {
    if q == 0 {
        0
    } else {
        let mag: nat = (if q < 0 {
            -q
        } else {
            q as int
        }) as nat;
        let e = high_bit(mag);
        let sign: nat = if q < 0 {
            0x80000000
        } else {
            0
        };
        (sign + (e + 113) * 0x800000 + (mag - two_pow(e)) * two_pow((23 - e) as nat)) as u32
    }
}

proof fn lemma_high_bit(m: nat, e: nat)
    requires
        two_pow(e) <= m < 2 * two_pow(e),
    ensures
        high_bit(m) == e,
    decreases e,
{
    if e > 0 {
        assert(two_pow((e - 1) as nat) <= m / 2 < 2 * two_pow((e - 1) as nat));
        lemma_high_bit(m / 2, (e - 1) as nat);
    } else {
        assert(m < 2);
    }
}

/// The bits of the float `q / 16384.0`.
pub fn dequantize(q: i16) -> (r: u32)
    ensures
        r == dequantized_bits(q),
        is_dequantized(r, q as int),
{
    if q == 0 {
        return 0;
    }
    let neg: bool = q < 0;
    let m: u32 = if neg {
        (0 - (q as i32)) as u32
    } else {
        q as u32
    };
    // p = 2^e is the largest power of two not above m, and p * scale == 2^23.
    let mut e: u32 = 0;
    let mut p: u32 = 1;
    let mut scale: u32 = 0x800000;
    assert(two_pow(23) == 0x800000) by {
        reveal_with_fuel(two_pow, 24);
    }
    while p * 2 <= m
        invariant
            1 <= m <= 32768,
            e <= 15,
            p == two_pow(e as nat),
            1 <= p <= m,
            p * scale == 0x800000,
            scale == two_pow((23 - e) as nat),
        decreases 32768 - p,
    {
        assert(e < 15) by {
            if e >= 15 {
                reveal_with_fuel(two_pow, 16);
                assert(two_pow(15) == 32768);
                lemma_two_pow_monotone(15, e as nat);
            }
        }
        let ghost half = two_pow((23 - (e + 1)) as nat);
        assert(scale == 2 * half);
        assert((p * 2) * half == p * scale) by (nonlinear_arith)
            requires
                scale == 2 * half,
        ;
        p = p * 2;
        scale = scale / 2;
        e = e + 1;
    }
    assert((m - p) * scale < 0x800000) by (nonlinear_arith)
        requires
            p * scale == 0x800000,
            m < 2 * p,
            p <= m,
    ;
    let frac: u32 = (m - p) * scale;
    assert((0x800000 + frac) * p == m * 0x800000) by (nonlinear_arith)
        requires
            frac == (m - p) * scale,
            p * scale == 0x800000,
    ;
    assert(frac < 0x800000) by (nonlinear_arith)
        requires
            frac == (m - p) * scale,
            p * scale == 0x800000,
            m < 2 * p,
            p <= m,
    ;
    let sign: u32 = if neg {
        0x80000000
    } else {
        0
    };
    let bits: u32 = sign + (e + 113) * 0x800000 + frac;
    proof {
        lemma_high_bit(m as nat, e as nat);
    }
    assert(f32_fraction(bits) == frac && f32_exponent(bits) == e + 113 && f32_sign(bits) == (
    if neg {
        1nat
    } else {
        0nat
    }));
    bits
}

proof fn lemma_two_pow_monotone(a: nat, b: nat)
    requires
        a <= b,
    ensures
        two_pow(a) <= two_pow(b),
    decreases b,
{
    if a < b {
        lemma_two_pow_monotone(a, (b - 1) as nat);
    }
}

} // verus!
