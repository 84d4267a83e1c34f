//! Signed fixed-point scalars: an `i64` raw value `r` stands for `r / ONE`.
//! Every operation is total: results are rounded and then saturated to
//! `[-MAXV, MAXV]`, which also plays the part of an infinite distance.
use vstd::prelude::*;

verus! {

/// The raw value of 1.0.
pub const ONE: i64 = 65536;

/// The raw value of 2.0.
pub const TWO: i64 = 131072;

/// The raw value of 0.5.
pub const HALF: i64 = 32768;

/// The largest magnitude a scalar can hold; it stands for infinity.
pub const MAXV: i64 = 0x7fff_ffff_ffff_ffff;

/// Clamps an exact result into the representable range.
pub open spec fn sat(x: int) -> int {
    if x > MAXV {
        MAXV as int
    } else if x < -MAXV {
        -MAXV
    } else {
        x
    }
}

/// Division by a positive `d`, rounding half away from zero.
pub open spec fn round_div(p: int, d: int) -> int {
    if p >= 0 {
        (p + d / 2) / d
    } else {
        -((-p + d / 2) / d)
    }
}

pub open spec fn fx_add(a: i64, b: i64) -> i64 {
    sat(a + b) as i64
}

pub open spec fn fx_sub(a: i64, b: i64) -> i64 {
    sat(a - b) as i64
}

pub open spec fn fx_neg(a: i64) -> i64 {
    sat(-a) as i64
}

pub open spec fn fx_mul(a: i64, b: i64) -> i64 {
    sat(round_div(a * b, ONE as int)) as i64
}

/// The scalar `n / b`, for a numerator `n` of any size in raw units. A zero
/// divisor gives a signed infinity (or zero for `0 / 0`), as a float
/// division would give an infinity.
pub open spec fn fx_quot(n: int, b: i64) -> i64 {
    if b == 0 {
        if n > 0 {
            MAXV
        } else if n < 0 {
            (-MAXV) as i64
        } else {
            0
        }
    } else if b > 0 {
        sat(round_div(n * ONE, b as int)) as i64
    } else {
        sat(round_div(-(n * ONE), -(b as int))) as i64
    }
}

/// Quotient of two scalars, rounded to the nearest representable value.
pub open spec fn fx_div(a: i64, b: i64) -> i64 {
    fx_quot(a as int, b)
}

/// `r` is the truncated square root of `n`.
pub open spec fn is_isqrt(n: int, r: int) -> bool {
    0 <= r && r * r <= n && n < (r + 1) * (r + 1)
}

/// The truncated square root of a non-negative integer.
pub open spec fn isqrt(n: int) -> int {
    choose|r: int| is_isqrt(n, r)
}

/// Square root of a scalar; a negative argument gives zero.
pub open spec fn fx_sqrt(a: i64) -> i64 {
    if a <= 0 {
        0
    } else {
        isqrt(a * ONE) as i64
    }
}

pub open spec fn fx_min(a: i64, b: i64) -> i64 {
    if a < b {
        a
    } else {
        b
    }
}

/// Bound on the wide numerators that `quot_wide` accepts.
pub const WIDE: i128 = 0x1_0000_0000_0000_0000_0000_0000;

/// Scalars produced by the operations above stay in `[-MAXV, MAXV]`.
pub open spec fn in_range(a: i64) -> bool {
    -MAXV <= a
}

pub proof fn lemma_isqrt_unique(n: int, r: int, s: int)
    requires
        is_isqrt(n, r),
        is_isqrt(n, s),
    ensures
        r == s,
{
    if r < s {
        assert((r + 1) * (r + 1) <= s * s) by (nonlinear_arith)
            requires
                0 <= r < s,
        ;
    } else if s < r {
        assert((s + 1) * (s + 1) <= r * r) by (nonlinear_arith)
            requires
                0 <= s < r,
        ;
    }
}

/// A product of two scalars fits twice over in an `i128`; with both factors
/// in range it is at most `MAXV^2` in magnitude.
pub proof fn lemma_product_bound(a: i64, b: i64)
    ensures
        -0x4000_0000_0000_0000_0000_0000_0000_0000 <= (a as int) * (b as int)
            <= 0x4000_0000_0000_0000_0000_0000_0000_0000,
        in_range(a) && in_range(b) ==> -(MAXV * MAXV) <= (a as int) * (b as int) <= MAXV * MAXV,
{
    let x = a as int;
    let y = b as int;
    let m: int = 0x8000_0000_0000_0000;
    assert(-(m * m) <= x * y <= m * m) by (nonlinear_arith)
        requires
            -m <= x < m,
            -m <= y < m,
    ;
    if in_range(a) && in_range(b) {
        let v = MAXV as int;
        assert(-(v * v) <= x * y <= v * v) by (nonlinear_arith)
            requires
                -v <= x <= v,
                -v <= y <= v,
        ;
    }
}

/// The truncated square root of anything an `i128` holds fits in 64 bits.
pub proof fn lemma_wide_sqrt_bound(n: int, s: int)
    requires
        is_isqrt(n, s),
        n <= 0x8000_0000_0000_0000_0000_0000_0000_0000,
    ensures
        s < 0x1_0000_0000_0000_0000,
{
    if s >= 0x1_0000_0000_0000_0000 {
        assert(s * s >= 0x1_0000_0000_0000_0000_0000_0000_0000_0000) by (nonlinear_arith)
            requires
                s >= 0x1_0000_0000_0000_0000,
        ;
    }
}

proof fn lemma_sqrt_bound(n: int, s: int)
    requires
        is_isqrt(n, s),
        n <= 0x1_0000_0000_0000_0000_0000,
    ensures
        s <= 0x100_0000_0000,
{
    if s > 0x100_0000_0000 {
        assert(s * s > 0x1_0000_0000_0000_0000_0000) by (nonlinear_arith)
            requires
                s > 0x100_0000_0000,
        ;
    }
}

/// Every non-negative integer has a truncated square root.
pub proof fn lemma_isqrt_exists(n: int)
    requires
        n >= 0,
    ensures
        is_isqrt(n, isqrt(n)),
    decreases n,
{
    if n == 0 {
        assert(is_isqrt(0, 0));
    } else {
        lemma_isqrt_exists(n - 1);
        let r = isqrt(n - 1);
        if n < (r + 1) * (r + 1) {
            assert(is_isqrt(n, r));
        } else {
            assert(n < (r + 2) * (r + 2)) by (nonlinear_arith)
                requires
                    n - 1 < (r + 1) * (r + 1),
                    r >= 0,
            ;
            assert((r + 1) * (r + 1) <= n);
            assert(is_isqrt(n, r + 1));
        }
    }
}

/// A square root is no larger than any non-negative bound on it whose
/// square bounds the radicand.
pub proof fn lemma_isqrt_le(n: int, r: int, m: int)
    requires
        is_isqrt(n, r),
        m >= 0,
        n <= m * m,
    ensures
        r <= m,
{
    if r > m {
        assert(r * r > m * m) by (nonlinear_arith)
            requires
                r > m >= 0,
        ;
    }
}

/// The quotient of a non-positive numerator by a non-negative divisor is
/// not positive.
pub proof fn lemma_quot_nonpos(n: int, b: i64)
    requires
        n <= 0,
        b >= 0,
    ensures
        fx_quot(n, b) <= 0,
{
    if b > 0 {
        assert(n * ONE <= 0) by (nonlinear_arith)
            requires
                n <= 0,
        ;
        assert((-(n * ONE) + (b as int) / 2) / (b as int) >= 0) by (nonlinear_arith)
            requires
                n * ONE <= 0,
                b > 0,
        ;
        assert(((b as int) / 2) / (b as int) == 0) by (nonlinear_arith)
            requires
                b > 0,
        ;
    }
}

/// A product of a scalar with itself is not negative.
pub proof fn lemma_square_nonneg(a: i64)
    ensures
        fx_mul(a, a) >= 0,
{
    assert((a as int) * (a as int) >= 0) by (nonlinear_arith);
    assert(((a as int) * (a as int) + ONE / 2) / (ONE as int) >= 0) by (nonlinear_arith)
        requires
            (a as int) * (a as int) >= 0,
    ;
}

/// Negating an in-range factor negates the product.
pub proof fn lemma_mul_neg(a: i64, b: i64)
    requires
        in_range(b),
    ensures
        fx_neg(b) == -b,
        fx_mul(a, fx_neg(b)) == -fx_mul(a, b),
        in_range(fx_mul(a, b)),
{
    let p = (a as int) * (b as int);
    assert((a as int) * (-(b as int)) == -p) by (nonlinear_arith)
        requires
            p == (a as int) * (b as int),
    ;
    let d = ONE as int;
    if p > 0 {
        assert((p + d / 2) / d >= 0) by (nonlinear_arith)
            requires
                p > 0,
                d > 0,
        ;
    }
}

/// Negating both in-range terms negates the sum.
pub proof fn lemma_add_neg(x: i64, y: i64)
    requires
        in_range(x),
        in_range(y),
    ensures
        fx_add(-x as i64, -y as i64) == -fx_add(x, y),
        in_range(fx_add(x, y)),
{
}

/// Rounded division by a positive divisor preserves order.
pub proof fn lemma_round_div_monotone(lo: int, hi: int, d: int)
    requires
        lo <= hi,
        d > 0,
    ensures
        round_div(lo, d) <= round_div(hi, d),
{
    let k = d / 2;
    assert(k >= 0);
    if lo >= 0 {
        vstd::arithmetic::div_mod::lemma_div_is_ordered(lo + k, hi + k, d);
    } else if hi < 0 {
        vstd::arithmetic::div_mod::lemma_div_is_ordered(-hi + k, -lo + k, d);
    } else {
        vstd::arithmetic::div_mod::lemma_div_is_ordered(0, hi + k, d);
        vstd::arithmetic::div_mod::lemma_div_is_ordered(0, -lo + k, d);
        assert(0int / d == 0) by (nonlinear_arith)
            requires
                d > 0,
        ;
    }
}

/// Division by a non-negative scalar preserves the order of numerators.
pub proof fn lemma_quot_monotone(n1: int, n2: int, b: i64)
    requires
        n1 <= n2,
        b >= 0,
    ensures
        fx_quot(n1, b) <= fx_quot(n2, b),
{
    if b > 0 {
        assert(n1 * ONE <= n2 * ONE) by (nonlinear_arith)
            requires
                n1 <= n2,
        ;
        lemma_round_div_monotone(n1 * ONE, n2 * ONE, b as int);
    }
}

/// The product of two scalars of `[0, 1]` stays in `[0, 1]`.
pub proof fn lemma_unit_product(a: i64, b: i64)
    requires
        0 <= a <= ONE,
        0 <= b <= ONE,
    ensures
        0 <= fx_mul(a, b) <= ONE,
{
    let p = (a as int) * (b as int);
    assert(0 <= p <= (ONE as int) * (ONE as int)) by (nonlinear_arith)
        requires
            0 <= a <= ONE,
            0 <= b <= ONE,
            p == (a as int) * (b as int),
    ;
    vstd::arithmetic::div_mod::lemma_div_is_ordered(
        p + HALF,
        (ONE as int) * (ONE as int) + HALF,
        ONE as int,
    );
    vstd::arithmetic::div_mod::lemma_div_is_ordered(0, p + HALF, ONE as int);
    assert(((ONE as int) * (ONE as int) + HALF) / (ONE as int) == ONE) by (nonlinear_arith);
    assert(0int / (ONE as int) == 0) by (nonlinear_arith);
}

/// Scaling a scalar of `[0, 1]` by a factor of `[0, 1]` keeps it between
/// zero and itself.
pub proof fn lemma_scale_down(k: i64, t: i64)
    requires
        0 <= k <= ONE,
        0 <= t <= ONE,
    ensures
        0 <= fx_mul(k, t) <= t,
{
    lemma_unit_product(k, t);
    let p = (k as int) * (t as int);
    assert(p <= (ONE as int) * (t as int)) by (nonlinear_arith)
        requires
            0 <= k <= ONE,
            0 <= t,
            p == (k as int) * (t as int),
    ;
    vstd::arithmetic::div_mod::lemma_div_is_ordered(
        p + HALF,
        (t as int) * (ONE as int) + HALF,
        ONE as int,
    );
    vstd::arithmetic::div_mod::lemma_hoist_over_denominator(HALF as int, t as int, ONE as nat);
    assert((HALF as int) / (ONE as int) == 0) by (nonlinear_arith);
}

/// Relies on num::integer::sqrt (num-integer's `Roots::sqrt`): the truncated
/// principal square root, `r * r <= n < (r + 1) * (r + 1)`; it panics on a
/// negative argument.
#[verifier::external_body]
pub(crate) fn int_sqrt(n: i128) -> (r: i128)
    requires
        n >= 0,
    ensures
        is_isqrt(n as int, r as int),
{
    num::integer::sqrt(n)
}

fn saturate(x: i128) -> (r: i64)
    ensures
        r as int == sat(x as int),
{
    if x > MAXV as i128 {
        MAXV
    } else if x < -(MAXV as i128) {
        -MAXV
    } else {
        x as i64
    }
}

/// Sum of two scalars.
pub fn add_fixed(a: i64, b: i64) -> (r: i64)
    ensures
        r == fx_add(a, b),
{
    saturate(a as i128 + b as i128)
}

/// Difference of two scalars.
pub fn sub_fixed(a: i64, b: i64) -> (r: i64)
    ensures
        r == fx_sub(a, b),
{
    saturate(a as i128 - b as i128)
}

/// Negation of a scalar.
pub fn neg_fixed(a: i64) -> (r: i64)
    ensures
        r == fx_neg(a),
{
    saturate(-(a as i128))
}

/// Product of two scalars, rounded to the nearest representable value.
pub fn mul_fixed(a: i64, b: i64) -> (r: i64)
    ensures
        r == fx_mul(a, b),
{
    proof {
        lemma_product_bound(a, b);
    }
    let p: i128 = (a as i128) * (b as i128);
    let d: i128 = ONE as i128;
    let q: i128 = if p >= 0 {
        (p + d / 2) / d
    } else {
        -((-p + d / 2) / d)
    };
    saturate(q)
}

/// The quotient `n / b` of a wide numerator in raw units by a scalar.
pub fn quot_wide(n: i128, b: i64) -> (r: i64)
    requires
        -WIDE <= n <= WIDE,
    ensures
        r == fx_quot(n as int, b),
{
    if b == 0 {
        if n > 0 {
            MAXV
        } else if n < 0 {
            -MAXV
        } else {
            0
        }
    } else {
        proof {
            assert(-WIDE * ONE <= n * ONE <= WIDE * ONE) by (nonlinear_arith)
                requires
                    -WIDE <= n <= WIDE,
            ;
        }
        let mut p: i128 = n * (ONE as i128);
        let mut d: i128 = b as i128;
        if b < 0 {
            p = -p;
            d = -d;
        }
        let q: i128 = if p >= 0 {
            (p + d / 2) / d
        } else {
            -((-p + d / 2) / d)
        };
        saturate(q)
    }
}

/// Quotient of two scalars, rounded to the nearest representable value.
pub fn div_fixed(a: i64, b: i64) -> (r: i64)
    ensures
        r == fx_div(a, b),
{
    quot_wide(a as i128, b)
}

/// Square root of a scalar, truncated; zero for a negative argument.
pub fn sqrt_fixed(a: i64) -> (r: i64)
    ensures
        r == fx_sqrt(a),
        r >= 0,
{
    if a <= 0 {
        0
    } else {
        proof {
            lemma_product_bound(a, ONE);
        }
        let n: i128 = (a as i128) * (ONE as i128);
        let s = int_sqrt(n);
        proof {
            lemma_isqrt_unique(n as int, s as int, isqrt(n as int));
            lemma_sqrt_bound(n as int, s as int);
        }
        s as i64
    }
}

/// The smaller of two scalars.
pub fn min_fixed(a: i64, b: i64) -> (r: i64)
    ensures
        r == fx_min(a, b),
{
    if a < b {
        a
    } else {
        b
    }
}

} // verus!
