//! Double-precision numbers of the unit interval, decided on their bits.
//!
//! A number is given by its IEEE 754 bits. Its magnitude is counted in units of the smallest
//! positive double, so that every statement is one about integers.
use vstd::arithmetic::power2::{
    lemma2_to64, lemma2_to64_rest, lemma_pow2_adds, lemma_pow2_pos, lemma_pow2_strictly_increases,
    lemma_pow2_unfold, pow2,
};
use vstd::prelude::*;

verus! {

/// The number of fraction values per exponent.
pub const FRACTIONS: u64 = 0x10_0000_0000_0000;

/// The bits of one.
pub const ONE_BITS: u64 = 0x3ff0_0000_0000_0000;

/// The bits of one half.
pub const HALF_BITS: u64 = 0x3fe0_0000_0000_0000;

/// The bits of half the distance from one to the next double.
pub const HALF_STEP_BITS: u64 = 0x3ca0_0000_0000_0000;

/// The bits of negative zero.
pub const NEGATIVE_ZERO_BITS: u64 = 0x8000_0000_0000_0000;

/// The biased exponent.
pub open spec fn exponent(bits: u64) -> nat {
    (bits as nat / FRACTIONS as nat) % 2048
}

/// Whether the sign bit is set.
pub open spec fn is_negative(bits: u64) -> bool {
    bits >= NEGATIVE_ZERO_BITS
}

/// The magnitude of a finite double, in units of the smallest positive one.
pub open spec fn magnitude(bits: u64) -> nat {
    let e = exponent(bits);
    let fraction = bits as nat % FRACTIONS as nat;
    if e == 0 {
        fraction
    } else {
        (fraction + FRACTIONS as nat) * pow2((e - 1) as nat)
    }
}

/// The magnitude of one.
pub open spec fn one() -> nat {
    pow2(1074)
}

/// The magnitude of half the distance from one to the next double.
pub open spec fn half_step() -> nat {
    pow2(1021)
}

/// Whether a double is a finite number from zero to one, with zero itself only on request.
pub open spec fn in_unit(bits: u64, allow_zero: bool) -> bool {
    &&& exponent(bits) < 2047
    &&& is_negative(bits) ==> magnitude(bits) == 0
    &&& magnitude(bits) <= one()
    &&& allow_zero || magnitude(bits) > 0
}

/// Whether the sum of two doubles of the unit interval is rounded to a double above one.
///
/// A sum is rounded to the nearest double, and to one where it lies halfway between one and
/// the next double.
pub open spec fn sum_above_one(a: u64, b: u64) -> bool {
    magnitude(a) + magnitude(b) > one() + half_step()
}

proof fn lemma_magnitude_grows(a: u64, b: u64)
    requires
        a < b,
        b < NEGATIVE_ZERO_BITS,
    ensures
        magnitude(a) < magnitude(b),
{
    let f = FRACTIONS as nat;
    let ea = a as nat / f;
    let eb = b as nat / f;
    assert(ea <= eb && eb < 2048) by (nonlinear_arith)
        requires
            ea == a as nat / f,
            eb == b as nat / f,
            a < b,
            b < 0x8000_0000_0000_0000u64,
            f == 0x10_0000_0000_0000nat,
    ;
    assert(exponent(a) == ea && exponent(b) == eb);
    let ma = a as nat % f;
    let mb = b as nat % f;
    if ea == eb {
        assert(ma < mb);
        if ea > 0 {
            let p = pow2((ea - 1) as nat);
            lemma_pow2_pos((ea - 1) as nat);
            assert((ma + f) * p < (mb + f) * p) by (nonlinear_arith)
                requires
                    ma < mb,
                    p > 0,
            ;
        }
    } else {
        let q = pow2((eb - 1) as nat);
        lemma_pow2_pos((eb - 1) as nat);
        assert((mb + f) * q >= f * q) by (nonlinear_arith)
            requires
                q > 0,
                mb >= 0,
        ;
        if ea == 0 {
            assert(f * q >= f) by (nonlinear_arith)
                requires
                    q > 0,
            ;
        } else {
            let p = pow2((ea - 1) as nat);
            lemma_pow2_pos((ea - 1) as nat);
            lemma_pow2_unfold(ea);
            if ea < eb - 1 {
                lemma_pow2_strictly_increases(ea, (eb - 1) as nat);
            }
            assert(2 * p <= q);
            assert((ma + f) * p < f * q) by (nonlinear_arith)
                requires
                    ma < f,
                    2 * p <= q,
                    p > 0,
            ;
        }
    }
}

proof fn lemma_landmarks()
    ensures
        magnitude(0) == 0,
        magnitude(NEGATIVE_ZERO_BITS) == 0,
        magnitude(ONE_BITS) == one(),
        2 * magnitude(HALF_BITS) == one(),
        magnitude(HALF_STEP_BITS) == half_step(),
{
    lemma2_to64();
    lemma2_to64_rest();
    assert(pow2(52) == 0x10_0000_0000_0000);
    lemma_pow2_adds(52, 1022);
    lemma_pow2_adds(52, 1021);
    lemma_pow2_adds(52, 969);
    lemma_pow2_unfold(1074);
    assert(exponent(ONE_BITS) == 1023 && exponent(HALF_BITS) == 1022);
    assert(exponent(HALF_STEP_BITS) == 970);
    assert(exponent(NEGATIVE_ZERO_BITS) == 0);
}

/// Decides whether a double is a number from zero to one.
pub fn unit_accepts(bits: u64, allow_zero: bool) -> (r: bool)
    ensures
        r == in_unit(bits, allow_zero),
{
    proof {
        lemma_landmarks();
        if bits < NEGATIVE_ZERO_BITS {
            if bits > 0 {
                lemma_magnitude_grows(0, bits);
            }
            if bits > ONE_BITS {
                lemma_magnitude_grows(ONE_BITS, bits);
            } else {
                if bits < ONE_BITS {
                    lemma_magnitude_grows(bits, ONE_BITS);
                }
                assert(bits as nat / (FRACTIONS as nat) <= 1023);
            }
        } else if bits > NEGATIVE_ZERO_BITS {
            lemma_negative_nonzero(bits);
        }
    }
    if bits == 0 || bits == NEGATIVE_ZERO_BITS {
        allow_zero
    } else {
        bits <= ONE_BITS
    }
}

proof fn lemma_negative_nonzero(bits: u64)
    requires
        bits > NEGATIVE_ZERO_BITS,
    ensures
        magnitude(bits) > 0,
{
    let f = FRACTIONS as nat;
    let low = bits as nat % f;
    let q = bits as nat / f;
    assert(bits as nat == q * f + low) by (nonlinear_arith)
        requires
            low == bits as nat % f,
            q == bits as nat / f,
            f > 0,
    ;
    if exponent(bits) == 0 {
        assert(q >= 2048) by (nonlinear_arith)
            requires
                q == bits as nat / f,
                bits > 0x8000_0000_0000_0000u64,
                f == 0x10_0000_0000_0000nat,
        ;
        assert(q < 4096) by (nonlinear_arith)
            requires
                q == bits as nat / f,
                bits <= u64::MAX,
                f == 0x10_0000_0000_0000nat,
        ;
        assert(q == 2048);
        assert(low > 0);
    } else {
        let p = pow2((exponent(bits) - 1) as nat);
        lemma_pow2_pos((exponent(bits) - 1) as nat);
        assert((low + f) * p > 0) by (nonlinear_arith)
            requires
                p > 0,
                f > 0,
        ;
    }
}

/// Two to a small power.
fn small_pow2(n: u64) -> (r: u128)
    requires
        n <= 60,
    ensures
        r == pow2(n as nat),
{
    let mut r: u128 = 1;
    let mut i: u64 = 0;
    proof {
        lemma2_to64();
    }
    while i < n
        invariant
            i <= n <= 60,
            r == pow2(i as nat),
        decreases n - i,
    {
        proof {
            lemma_pow2_unfold((i + 1) as nat);
            lemma2_to64();
            lemma2_to64_rest();
            if i < 60 {
                lemma_pow2_strictly_increases(i as nat, 60);
            }
        }
        r = r * 2;
        i += 1;
    }
    r
}

/// Decides whether the rounded sum of two doubles of the unit interval is above one.
pub fn sum_exceeds_one(a: u64, b: u64) -> (r: bool)
    requires
        in_unit(a, true),
        in_unit(b, true),
    ensures
        r == sum_above_one(a, b),
{
    proof {
        lemma_landmarks();
        if a > NEGATIVE_ZERO_BITS {
            lemma_negative_nonzero(a);
        }
        if b > NEGATIVE_ZERO_BITS {
            lemma_negative_nonzero(b);
        }
    }
    let a: u64 = if a == NEGATIVE_ZERO_BITS {
        0
    } else {
        a
    };
    let b: u64 = if b == NEGATIVE_ZERO_BITS {
        0
    } else {
        b
    };
    if a >= b {
        ordered_sum_exceeds_one(a, b)
    } else {
        ordered_sum_exceeds_one(b, a)
    }
}

fn ordered_sum_exceeds_one(hi: u64, lo: u64) -> (r: bool)
    requires
        lo <= hi,
        hi < NEGATIVE_ZERO_BITS,
        magnitude(hi) <= one(),
    ensures
        r == sum_above_one(hi, lo),
{
    proof {
        lemma_landmarks();
        if lo < hi {
            lemma_magnitude_grows(lo, hi);
        }
        if hi > ONE_BITS {
            lemma_magnitude_grows(ONE_BITS, hi);
        }
        lemma_pow2_pos(1021);
    }
    if hi == ONE_BITS {
        proof {
            if lo > HALF_STEP_BITS {
                lemma_magnitude_grows(HALF_STEP_BITS, lo);
            } else if lo < HALF_STEP_BITS {
                lemma_magnitude_grows(lo, HALF_STEP_BITS);
            }
        }
        return lo > HALF_STEP_BITS;
    }
    if hi < HALF_BITS {
        proof {
            lemma_magnitude_grows(hi, HALF_BITS);
        }
        return false;
    }
    let ghost f = FRACTIONS as nat;
    let ghost unit = pow2(1021);
    let m: u64 = hi % FRACTIONS + FRACTIONS;
    let k: u64 = FRACTIONS * 2 + 1 - m;
    let e: u64 = lo / FRACTIONS;
    let ml: u64 = lo % FRACTIONS + FRACTIONS;
    proof {
        assert(hi as nat / f == 1022) by (nonlinear_arith)
            requires
                0x3fe0_0000_0000_0000u64 <= hi < 0x3ff0_0000_0000_0000u64,
                f == 0x10_0000_0000_0000nat,
        ;
        assert(magnitude(hi) == m as nat * unit);
        lemma2_to64_rest();
        lemma_pow2_adds(53, 1021);
        assert(one() == 2 * f * unit);
        assert(sum_above_one(hi, lo) == (magnitude(lo) > k as nat * unit)) by (nonlinear_arith)
            requires
                sum_above_one(hi, lo) == (m as nat * unit + magnitude(lo) > 2 * f * unit + unit),
                k as nat + m as nat == 2 * f + 1,
        ;
        assert(e <= 1022) by (nonlinear_arith)
            requires
                e as nat == lo as nat / f,
                lo < 0x3ff0_0000_0000_0000u64,
                f == 0x10_0000_0000_0000nat,
        ;
        assert(exponent(lo) == e);
    }
    if e == 0 {
        proof {
            lemma_pow2_strictly_increases(53, 1021);
            assert(k as nat * unit >= unit) by (nonlinear_arith)
                requires
                    k >= 1,
                    unit > 0,
            ;
        }
        return false;
    }
    let s: u64 = 1022 - e;
    let ghost base = pow2((e - 1) as nat);
    let ghost shift = pow2(s as nat);
    proof {
        lemma_pow2_pos((e - 1) as nat);
        lemma_pow2_pos(s as nat);
        lemma_pow2_adds(s as nat, (e - 1) as nat);
        assert(unit == shift * base);
        assert(magnitude(lo) == ml as nat * base);
        assert((ml as nat * base > k as nat * unit) == (ml as nat > k as nat * shift))
            by (nonlinear_arith)
            requires
                unit == shift * base,
                base > 0,
        ;
    }
    if s >= 53 {
        proof {
            if s > 53 {
                lemma_pow2_strictly_increases(53, s as nat);
            }
            assert(k as nat * shift >= shift) by (nonlinear_arith)
                requires
                    k >= 1,
                    shift > 0,
            ;
        }
        return false;
    }
    let p: u128 = small_pow2(s);
    proof {
        if s < 53 {
            lemma_pow2_strictly_increases(s as nat, 53);
        }
        assert(k as nat * shift <= 0x1_0000_0000_0000_0000nat * 0x20_0000_0000_0000nat)
            by (nonlinear_arith)
            requires
                k as nat <= 0x1_0000_0000_0000_0000nat,
                shift <= 0x20_0000_0000_0000nat,
        ;
    }
    ml as u128 > k as u128 * p
}

} // verus!
