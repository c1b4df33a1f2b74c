//! Saturating fixed-point scalars.
//!
//! A scalar is an `i64` holding `value * SCALE`. Every operation clamps its
//! mathematical result into `[-FP_MAX, FP_MAX]`, so no operation overflows and
//! no caller needs range side conditions beyond well-formedness (`fp_ok`).
//! Products and quotients truncate toward zero, as the specs state exactly.
use vstd::prelude::*;

verus! {

/// Number of raw units per one world unit.
pub const SCALE: i64 = 65536;

/// Largest raw magnitude a scalar may hold.
pub const FP_MAX: i64 = 0x4000_0000_0000_0000;

/// A raw value the arithmetic accepts: clamped into `[-FP_MAX, FP_MAX]`.
pub open spec fn fp_ok(x: int) -> bool {
    -(FP_MAX as int) <= x <= FP_MAX as int
}

/// Mathematical result clamped into the representable range.
pub open spec fn clamp_s(x: int) -> int {
    if x > FP_MAX as int {
        FP_MAX as int
    } else if x < -(FP_MAX as int) {
        -(FP_MAX as int)
    } else {
        x
    }
}

/// Division truncating toward zero, for positive divisors.
pub open spec fn trunc_div(x: int, y: int) -> int {
    if x >= 0 {
        x / y
    } else {
        -((-x) / y)
    }
}

pub open spec fn abs_s(x: int) -> int {
    if x >= 0 {
        x
    } else {
        -x
    }
}

/// Saturating fixed-point sum.
pub open spec fn fp_add_s(a: int, b: int) -> int {
    clamp_s(a + b)
}

/// Saturating fixed-point difference.
pub open spec fn fp_sub_s(a: int, b: int) -> int {
    clamp_s(a - b)
}

/// Saturating fixed-point product, truncating toward zero.
pub open spec fn fp_mul_s(a: int, b: int) -> int {
    clamp_s(trunc_div(a * b, SCALE as int))
}

/// Saturating fixed-point quotient by a positive divisor, truncating toward zero.
pub open spec fn fp_div_s(a: int, b: int) -> int {
    clamp_s(trunc_div(a * SCALE, b))
}

/// `r` is the integer square root of `n`.
pub open spec fn is_isqrt(r: int, n: int) -> bool {
    0 <= r && r * r <= n && n < (r + 1) * (r + 1)
}

/// The integer square root (well defined for `n >= 0` by `lemma_sqrt_exists`).
pub open spec fn sqrt_s(n: int) -> int {
    choose|r: int| is_isqrt(r, n)
}

/// Square root of a nonnegative fixed-point scalar, in fixed-point units.
pub open spec fn fp_sqrt_s(x: int) -> int {
    sqrt_s(x * SCALE)
}

/// Every nonnegative integer has an integer square root.
pub proof fn lemma_sqrt_exists(n: int)
    requires
        n >= 0,
    ensures
        is_isqrt(sqrt_s(n), n),
    decreases n,
{
    if n == 0 {
        assert(is_isqrt(0, 0));
    } else {
        lemma_sqrt_exists(n - 1);
        let r = sqrt_s(n - 1);
        assert(is_isqrt(r, n - 1));
        if (r + 1) * (r + 1) <= n {
            assert(is_isqrt(r + 1, n)) by (nonlinear_arith)
                requires
                    0 <= r,
                    r * r <= n - 1,
                    n - 1 < (r + 1) * (r + 1),
                    (r + 1) * (r + 1) <= n,
            ;
        } else {
            assert(is_isqrt(r, n));
        }
        assert(exists|q: int| is_isqrt(q, n));
    }
}

/// The integer square root is unique.
pub proof fn lemma_sqrt_unique(r1: int, r2: int, n: int)
    requires
        is_isqrt(r1, n),
        is_isqrt(r2, n),
    ensures
        r1 == r2,
{
    assert(r1 == r2) by (nonlinear_arith)
        requires
            0 <= r1,
            r1 * r1 <= n,
            n < (r1 + 1) * (r1 + 1),
            0 <= r2,
            r2 * r2 <= n,
            n < (r2 + 1) * (r2 + 1),
    ;
}

/// A square root of something no larger than `b * b` is at most `b`.
pub proof fn lemma_sqrt_le(n: int, b: int)
    requires
        0 <= n,
        0 <= b,
        n <= b * b,
    ensures
        sqrt_s(n) <= b,
{
    lemma_sqrt_exists(n);
    let r = sqrt_s(n);
    assert(r <= b) by (nonlinear_arith)
        requires
            0 <= r,
            0 <= b,
            r * r <= n,
            n <= b * b,
    ;
}

/// Clamp a wide intermediate into the representable range.
fn clamp128(x: i128) -> (r: i64)
    ensures
        r as int == clamp_s(x as int),
{
    let hi: i128 = FP_MAX as i128;
    if x > hi {
        FP_MAX
    } else if x < -hi {
        -FP_MAX
    } else {
        x as i64
    }
}

/// Magnitude of a well-formed scalar.
fn abs64(a: i64) -> (r: u64)
    requires
        fp_ok(a as int),
    ensures
        r as int == abs_s(a as int),
{
    if a >= 0 {
        a as u64
    } else {
        (-a) as u64
    }
}

/// Saturating sum.
pub fn fp_add(a: i64, b: i64) -> (r: i64)
    requires
        fp_ok(a as int),
        fp_ok(b as int),
    ensures
        r as int == fp_add_s(a as int, b as int),
        fp_ok(r as int),
{
    clamp128(a as i128 + b as i128)
}

/// Saturating difference.
pub fn fp_sub(a: i64, b: i64) -> (r: i64)
    requires
        fp_ok(a as int),
        fp_ok(b as int),
    ensures
        r as int == fp_sub_s(a as int, b as int),
        fp_ok(r as int),
{
    clamp128(a as i128 - b as i128)
}

/// Exact negation (well-formed scalars have a representable negation).
pub fn fp_neg(a: i64) -> (r: i64)
    requires
        fp_ok(a as int),
    ensures
        r as int == -(a as int),
        fp_ok(r as int),
{
    -a
}

/// How the sign and magnitude of a product follow from its factors.
pub proof fn lemma_mul_sign_abs(a: int, b: int)
    ensures
        abs_s(a * b) == abs_s(a) * abs_s(b),
        a >= 0 && b >= 0 ==> a * b >= 0,
        a < 0 && b < 0 ==> a * b >= 0,
        a >= 0 && b < 0 ==> a * b <= 0,
        a < 0 && b >= 0 ==> a * b <= 0,
{
    if a >= 0 && b >= 0 {
        assert(a * b >= 0) by (nonlinear_arith)
            requires
                a >= 0,
                b >= 0,
        ;
    } else if a < 0 && b < 0 {
        assert(a * b >= 0 && a * b == (-a) * (-b)) by (nonlinear_arith)
            requires
                a < 0,
                b < 0,
        ;
    } else if a >= 0 && b < 0 {
        assert(a * b <= 0 && -(a * b) == a * (-b)) by (nonlinear_arith)
            requires
                a >= 0,
                b < 0,
        ;
    } else {
        assert(a * b <= 0 && -(a * b) == (-a) * b) by (nonlinear_arith)
            requires
                a < 0,
                b >= 0,
        ;
    }
}

/// Saturating product, truncating toward zero.
pub fn fp_mul(a: i64, b: i64) -> (r: i64)
    requires
        fp_ok(a as int),
        fp_ok(b as int),
    ensures
        r as int == fp_mul_s(a as int, b as int),
        fp_ok(r as int),
{
    let neg: bool = (a < 0) != (b < 0);
    let ma: u128 = abs64(a) as u128;
    let mb: u128 = abs64(b) as u128;
    proof {
        lemma_mul_sign_abs(a as int, b as int);
        assert(ma * mb <= (FP_MAX as int) * (FP_MAX as int)) by (nonlinear_arith)
            requires
                0 <= ma <= FP_MAX as int,
                0 <= mb <= FP_MAX as int,
        ;
    }
    let q: u128 = (ma * mb) / (SCALE as u128);
    let signed: i128 = if neg {
        -(q as i128)
    } else {
        q as i128
    };
    proof {
        let p = a as int * b as int;
        assert(ma * mb == abs_s(p));
        if neg {
            assert(p <= 0);
            assert(signed as int == trunc_div(p, SCALE as int));
        } else {
            assert(p >= 0);
            assert(signed as int == trunc_div(p, SCALE as int));
        }
    }
    clamp128(signed)
}

/// Saturating quotient by a positive divisor, truncating toward zero.
pub fn fp_div(a: i64, b: i64) -> (r: i64)
    requires
        fp_ok(a as int),
        0 < b,
        fp_ok(b as int),
    ensures
        r as int == fp_div_s(a as int, b as int),
        fp_ok(r as int),
{
    let mag: u64 = abs64(a);
    proof {
        assert((mag as int) * (SCALE as int) <= (FP_MAX as int) * (SCALE as int))
            by (nonlinear_arith)
            requires
                0 <= mag as int <= FP_MAX as int,
                SCALE as int > 0,
        ;
    }
    let ma: u128 = (mag as u128) * (SCALE as u128);
    let q: u128 = ma / (b as u128);
    proof {
        lemma_mul_sign_abs(a as int, SCALE as int);
        assert(ma == abs_s(a as int * SCALE));
    }
    let signed: i128 = if a < 0 {
        -(q as i128)
    } else {
        q as i128
    };
    proof {
        let p = a as int * SCALE;
        if a >= 0 {
            assert(signed as int == trunc_div(p, b as int));
        } else {
            assert(p <= 0);
            assert(signed as int == trunc_div(p, b as int));
        }
    }
    clamp128(signed)
}

/// Integer square root by bisection.
pub fn isqrt_u128(n: u128) -> (r: u64)
    requires
        n as int <= (FP_MAX as int) * (SCALE as int),
    ensures
        is_isqrt(r as int, n as int),
        r as int == sqrt_s(n as int),
        0 <= r as int <= FP_MAX as int,
{
    let mut lo: u64 = 0;
    let mut hi: u64 = 0x8000_0000_0000;
    proof {
        assert((0x8000_0000_0000 as int) * (0x8000_0000_0000 as int) > (FP_MAX as int) * (
        SCALE as int)) by (nonlinear_arith);
    }
    while lo + 1 < hi
        invariant
            lo < hi,
            hi <= 0x8000_0000_0000,
            (lo as int) * (lo as int) <= n as int,
            (n as int) < (hi as int) * (hi as int),
        decreases hi - lo,
    {
        let mid: u64 = lo + (hi - lo) / 2;
        proof {
            assert((mid as int) * (mid as int) < 0x1_0000_0000_0000_0000_0000_0000int)
                by (nonlinear_arith)
                requires
                    0 <= mid as int <= 0x8000_0000_0000,
            ;
        }
        if (mid as u128) * (mid as u128) <= n {
            lo = mid;
        } else {
            hi = mid;
        }
    }
    proof {
        assert(is_isqrt(lo as int, n as int));
        lemma_sqrt_exists(n as int);
        lemma_sqrt_unique(lo as int, sqrt_s(n as int), n as int);
    }
    lo
}

/// Square root of a nonnegative scalar, in fixed-point units.
pub fn fp_sqrt(x: i64) -> (r: i64)
    requires
        0 <= x,
        fp_ok(x as int),
    ensures
        r as int == fp_sqrt_s(x as int),
        0 <= r as int,
        fp_ok(r as int),
{
    let wide: u128 = (x as u128) * (SCALE as u128);
    let root: u64 = isqrt_u128(wide);
    root as i64
}

} // verus!
