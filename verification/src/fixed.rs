//! Signed fixed-point scalars.
//!
//! A scalar is an `i64` holding `x` and denoting the real number
//! `x / SCALE`.  All operations clamp their result into
//! `[-MAXV, MAXV]`, so the type is closed under the arithmetic used by
//! the renderer and no operation can overflow.  Multiplication and
//! division round toward negative infinity (floor rounding).

use vstd::prelude::*;

verus! {

/// Number of fixed-point steps per unit: scalars denote `x / SCALE`.
pub const SCALE: i64 = 65536;

/// The fixed-point representation of 1.
pub const ONE: i64 = 65536;

/// The fixed-point representation of 1/2.
pub const HALF: i64 = 32768;

/// Largest magnitude a scalar may take; every operation clamps into
/// `[-MAXV, MAXV]` (2^47, about 2 billion in real units).
pub const MAXV: i64 = 140737488355328;

/// Clamp a mathematical integer into the representable range.
pub open spec fn fx_clamp(x: int) -> int {
    if x > MAXV as int {
        MAXV as int
    } else if x < -(MAXV as int) {
        -(MAXV as int)
    } else {
        x
    }
}

/// Saturating fixed-point addition.
pub open spec fn fx_add(a: int, b: int) -> int {
    fx_clamp(a + b)
}

/// Saturating fixed-point subtraction.
pub open spec fn fx_sub(a: int, b: int) -> int {
    fx_clamp(a - b)
}

/// Saturating fixed-point negation.
pub open spec fn fx_neg(a: int) -> int {
    fx_clamp(-a)
}

fn clamp_wide(s: i128) -> (r: i64)
    ensures
        r as int == fx_clamp(s as int),
{
    if s > MAXV as i128 {
        MAXV
    } else if s < -(MAXV as i128) {
        -MAXV
    } else {
        s as i64
    }
}

/// Clamp a scalar into the representable range.
pub fn clamp_fx(a: i64) -> (r: i64)
    ensures
        r as int == fx_clamp(a as int),
{
    if a > MAXV {
        MAXV
    } else if a < -MAXV {
        -MAXV
    } else {
        a
    }
}

/// `a + b`, clamped into the representable range.
pub fn add_fx(a: i64, b: i64) -> (r: i64)
    ensures
        r as int == fx_add(a as int, b as int),
{
    let s: i128 = a as i128 + b as i128;
    clamp_wide(s)
}

/// `a - b`, clamped into the representable range.
pub fn sub_fx(a: i64, b: i64) -> (r: i64)
    ensures
        r as int == fx_sub(a as int, b as int),
{
    let s: i128 = a as i128 - b as i128;
    clamp_wide(s)
}

/// `-a`, clamped into the representable range.
pub fn neg_fx(a: i64) -> (r: i64)
    ensures
        r as int == fx_neg(a as int),
{
    let s: i128 = -(a as i128);
    clamp_wide(s)
}

/// Division rounding toward negative infinity, for any nonzero divisor.
/// (The `/` of `int` already rounds that way when the divisor is
/// positive, so only a negative divisor needs the sign flip.)
pub open spec fn floor_div(a: int, b: int) -> int
    recommends
        b != 0,
{
    if b > 0 {
        a / b
    } else {
        (-a) / (-b)
    }
}

/// Saturating fixed-point multiplication: `a * b / SCALE`, floor-rounded.
pub open spec fn fx_mul(a: int, b: int) -> int {
    fx_clamp((a * b) / (SCALE as int))
}

/// Saturating fixed-point division: `a * SCALE / b`, floor-rounded.
pub open spec fn fx_div(a: int, b: int) -> int
    recommends
        b != 0,
{
    fx_clamp(floor_div(a * (SCALE as int), b))
}

/// Floor division of a wide value by a positive divisor.
fn floor_div_pos(n: i128, d: i128) -> (q: i128)
    requires
        0 < d,
        i128::MIN < n,
    ensures
        q == (n as int) / (d as int),
{
    if n >= 0 {
        n / d
    } else {
        let m: i128 = -n;
        let qt: i128 = m / d;
        let rt: i128 = m % d;
        proof {
            let mi = m as int;
            let di = d as int;
            let qi = qt as int;
            let ri = rt as int;
            vstd::arithmetic::div_mod::lemma_fundamental_div_mod(mi, di);
            vstd::arithmetic::div_mod::lemma_mod_pos_bound(mi, di);
            assert(mi == di * qi + ri);
            if rt == 0 {
                assert(n as int == (-qi) * di + 0) by (nonlinear_arith)
                    requires mi == di * qi + ri, ri == 0, n as int == -mi;
                vstd::arithmetic::div_mod::lemma_fundamental_div_mod_converse(
                    n as int, di, -qi, 0);
            } else {
                assert(n as int == (-qi - 1) * di + (di - ri)) by (nonlinear_arith)
                    requires mi == di * qi + ri, n as int == -mi;
                vstd::arithmetic::div_mod::lemma_fundamental_div_mod_converse(
                    n as int, di, -qi - 1, di - ri);
            }
        }
        if rt == 0 {
            -qt
        } else {
            -qt - 1
        }
    }
}

/// `a * b / SCALE` with floor rounding, clamped into the representable
/// range.
pub fn mul_fx(a: i64, b: i64) -> (r: i64)
    ensures
        r as int == fx_mul(a as int, b as int),
{
    proof {
        assert((a as int) * (b as int) <= i128::MAX as int
            && (a as int) * (b as int) >= i128::MIN as int + 1) by (nonlinear_arith)
            requires
                i64::MIN as int <= a as int <= i64::MAX as int,
                i64::MIN as int <= b as int <= i64::MAX as int;
    }
    let p: i128 = (a as i128) * (b as i128);
    let q: i128 = floor_div_pos(p, SCALE as i128);
    clamp_wide(q)
}

/// `a * SCALE / b` with floor rounding, clamped into the representable
/// range.
pub fn div_fx(a: i64, b: i64) -> (r: i64)
    requires
        b != 0,
    ensures
        r as int == fx_div(a as int, b as int),
{
    proof {
        assert((i128::MIN as int) < (a as int) * (SCALE as int)
            && (a as int) * (SCALE as int) < (i128::MAX as int)) by (nonlinear_arith)
            requires
                i64::MIN as int <= a as int <= i64::MAX as int,
                SCALE as int == 65536;
    }
    let n: i128 = (a as i128) * (SCALE as i128);
    let q: i128 = if b > 0 {
        floor_div_pos(n, b as i128)
    } else {
        floor_div_pos(-n, -(b as i128))
    };
    clamp_wide(q)
}

/// `r` is the integer square root of `n`.
pub open spec fn is_isqrt(n: int, r: int) -> bool {
    0 <= r && r * r <= n && n < (r + 1) * (r + 1)
}

/// The integer square root of a nonnegative integer.
pub open spec fn int_sqrt(n: int) -> int {
    choose|r: int| is_isqrt(n, r)
}

/// Fixed-point square root: the scalar `r` closest from below to the
/// real square root of `x / SCALE`, that is `isqrt(x * SCALE)`.
pub open spec fn fx_sqrt(x: int) -> int
    recommends
        x >= 0,
{
    int_sqrt(x * (SCALE as int))
}

/// A nonnegative integer has an integer square root.
pub proof fn lemma_isqrt_exists(n: int)
    requires
        n >= 0,
    ensures
        exists|r: int| is_isqrt(n, r),
    decreases n,
{
    if n == 0 {
        assert(is_isqrt(0, 0));
    } else {
        let m = n - 1;
        lemma_isqrt_exists(m);
        let r = choose|r: int| is_isqrt(m, r);
        if n < (r + 1) * (r + 1) {
            assert(is_isqrt(n, r));
        } else {
            assert(n == (r + 1) * (r + 1));
            assert((r + 1) * (r + 1) < (r + 2) * (r + 2)) by (nonlinear_arith)
                requires r >= 0;
            assert(is_isqrt(n, r + 1));
        }
    }
}

/// Integer square roots are unique.
pub proof fn lemma_isqrt_unique(n: int, r1: int, r2: int)
    requires
        is_isqrt(n, r1),
        is_isqrt(n, r2),
    ensures
        r1 == r2,
{
    assert(r1 == r2) by (nonlinear_arith)
        requires
            0 <= r1 && r1 * r1 <= n && n < (r1 + 1) * (r1 + 1),
            0 <= r2 && r2 * r2 <= n && n < (r2 + 1) * (r2 + 1);
}

/// `int_sqrt` satisfies its defining property.
pub proof fn lemma_int_sqrt_is(n: int)
    requires
        n >= 0,
    ensures
        is_isqrt(n, int_sqrt(n)),
{
    lemma_isqrt_exists(n);
}

/// Fixed-point square root, by binary search on the wide product.
pub fn sqrt_fx(x: i64) -> (r: i64)
    requires
        x >= 0,
    ensures
        r as int == fx_sqrt(x as int),
        r >= 0,
{
    proof {
        assert((x as int) * (SCALE as int) < i128::MAX as int
            && (x as int) * (SCALE as int)
                < (1099511627776 as int) * (1099511627776 as int)) by (nonlinear_arith)
            requires
                0 <= x as int <= i64::MAX as int,
                SCALE as int == 65536;
    }
    let n: i128 = (x as i128) * (SCALE as i128);
    let mut lo: i128 = 0;
    let mut hi: i128 = 1099511627776;  // 2^40; n < 2^80 == hi * hi
    while lo + 1 < hi
        invariant
            0 <= lo < hi,
            (lo as int) * (lo as int) <= n as int,
            (n as int) < (hi as int) * (hi as int),
            hi <= 1099511627776,
            n == (x as int) * (SCALE as int),
        decreases hi - lo,
    {
        let mid: i128 = lo + (hi - lo) / 2;
        proof {
            assert((mid as int) * (mid as int) <= (1099511627776 as int) * (1099511627776 as int))
                by (nonlinear_arith)
                requires 0 <= mid as int <= 1099511627776;
        }
        if mid * mid <= n {
            lo = mid;
        } else {
            hi = mid;
        }
    }
    proof {
        assert(is_isqrt(n as int, lo as int));
        lemma_int_sqrt_is(n as int);
        lemma_isqrt_unique(n as int, lo as int, int_sqrt(n as int));
        assert((lo as int) * (lo as int) <= n as int);
        assert((n as int) < (1099511627776 as int) * (1099511627776 as int));
        assert(lo <= 1099511627776) by (nonlinear_arith)
            requires
                0 <= lo as int,
                (lo as int) * (lo as int) < (1099511627776 as int) * (1099511627776 as int);
    }
    lo as i64
}

/// Multiplying by the fixed-point one only clamps.
pub proof fn lemma_fx_mul_one(x: int)
    ensures
        fx_mul(x, ONE as int) == fx_clamp(x),
        fx_mul(ONE as int, x) == fx_clamp(x),
        fx_mul(x, -(ONE as int)) == fx_clamp(-x),
        fx_mul(-(ONE as int), x) == fx_clamp(-x),
{
    vstd::arithmetic::div_mod::lemma_div_multiples_vanish(x, SCALE as int);
    vstd::arithmetic::div_mod::lemma_div_multiples_vanish(-x, SCALE as int);
    assert(x * (ONE as int) == (SCALE as int) * x) by (nonlinear_arith)
        requires ONE as int == SCALE as int;
    assert((ONE as int) * x == (SCALE as int) * x) by (nonlinear_arith)
        requires ONE as int == SCALE as int;
    assert(x * (-(ONE as int)) == (SCALE as int) * (-x)) by (nonlinear_arith)
        requires ONE as int == SCALE as int;
    assert((-(ONE as int)) * x == (SCALE as int) * (-x)) by (nonlinear_arith)
        requires ONE as int == SCALE as int;
}

/// Multiplying by zero gives zero.
pub proof fn lemma_fx_mul_zero(x: int)
    ensures
        fx_mul(x, 0) == 0,
        fx_mul(0, x) == 0,
{
    assert(x * 0 == 0) by (nonlinear_arith);
    assert(0 * x == 0) by (nonlinear_arith);
    vstd::arithmetic::div_mod::lemma_div_of0(SCALE as int);
}

/// Dividing a scalar by itself gives exactly one, and its negation
/// gives exactly minus one, for any sign of the scalar.
pub proof fn lemma_fx_div_self(x: int)
    requires
        x != 0,
    ensures
        fx_div(x, x) == ONE as int,
        fx_div(-x, x) == -(ONE as int),
        fx_div(0, x) == 0,
{
    if x > 0 {
        vstd::arithmetic::div_mod::lemma_div_multiples_vanish(SCALE as int, x);
        vstd::arithmetic::div_mod::lemma_div_multiples_vanish(-(SCALE as int), x);
        assert((-x) * (SCALE as int) == x * (-(SCALE as int))) by (nonlinear_arith);
        vstd::arithmetic::div_mod::lemma_div_of0(x);
        assert(0 * (SCALE as int) == 0) by (nonlinear_arith);
    } else {
        let y = -x;
        vstd::arithmetic::div_mod::lemma_div_multiples_vanish(SCALE as int, y);
        vstd::arithmetic::div_mod::lemma_div_multiples_vanish(-(SCALE as int), y);
        assert(-(x * (SCALE as int)) == y * (SCALE as int)) by (nonlinear_arith)
            requires y == -x;
        assert(-((-x) * (SCALE as int)) == y * (-(SCALE as int))) by (nonlinear_arith)
            requires y == -x;
        assert(floor_div(x * (SCALE as int), x) == (y * (SCALE as int)) / y);
        assert(floor_div((-x) * (SCALE as int), x) == (y * (-(SCALE as int))) / y);
        vstd::arithmetic::div_mod::lemma_div_of0(y);
        assert(0 * (SCALE as int) == 0) by (nonlinear_arith);
        assert(floor_div(0, x) == 0int / y);
    }
}

/// The square of a multiple of 256 is exact in fixed point: no floor
/// error and no clamping, since `256^2 == SCALE`.
pub proof fn lemma_fx_square_exact(x: int)
    requires
        x % 256 == 0,
        -0x80000000 <= x <= 0x80000000,
    ensures
        fx_mul(x, x) == (x / 256) * (x / 256),
        fx_mul(x, x) * (SCALE as int) == x * x,
        0 <= fx_mul(x, x) <= MAXV as int,
{
    let q = x / 256;
    vstd::arithmetic::div_mod::lemma_fundamental_div_mod(x, 256);
    assert(x == 256 * q);
    assert(x * x == (SCALE as int) * (q * q)) by (nonlinear_arith)
        requires x == 256 * q, SCALE as int == 65536;
    vstd::arithmetic::div_mod::lemma_div_multiples_vanish(q * q, SCALE as int);
    assert((x * x) / (SCALE as int) == q * q);
    assert(0 <= q * q <= MAXV as int) by (nonlinear_arith)
        requires -0x800000 <= q <= 0x800000, MAXV as int == 140737488355328;
    assert((q * q) * (SCALE as int) == x * x) by (nonlinear_arith)
        requires x == 256 * q, SCALE as int == 65536;
}

/// The fixed-point square root undoes the fixed-point square of a
/// nonnegative multiple of 256, exactly.
pub proof fn lemma_fx_sqrt_square(r: int)
    requires
        0 <= r <= 0x80000000,
        r % 256 == 0,
    ensures
        fx_sqrt(fx_mul(r, r)) == r,
{
    lemma_fx_square_exact(r);
    let sq = fx_mul(r, r);
    assert(sq * (SCALE as int) == r * r);
    assert(is_isqrt(r * r, r)) by (nonlinear_arith)
        requires r >= 0;
    lemma_int_sqrt_is(r * r);
    lemma_isqrt_unique(r * r, r, int_sqrt(r * r));
}

/// Negating one factor can only push a floor-rounded product down:
/// `fx_mul(a, -b) <= -fx_mul(a, b)` (floor rounding makes this an
/// inequality, not an equality).
pub proof fn lemma_fx_mul_neg_arg(a: int, b: int)
    requires
        -(MAXV as int) <= b <= MAXV as int,
    ensures
        fx_mul(a, fx_neg(b)) <= -fx_mul(a, b),
{
    let s = SCALE as int;
    let p = a * b;
    assert(fx_neg(b) == -b);
    assert(a * (-b) == -p) by (nonlinear_arith)
        requires p == a * b;
    let q = p / s;
    vstd::arithmetic::div_mod::lemma_fundamental_div_mod(p, s);
    vstd::arithmetic::div_mod::lemma_mod_division_less_than_divisor(p, s);
    let r = p % s;
    if r == 0 {
        assert(-p == (-q) * s + 0) by (nonlinear_arith)
            requires p == s * q + r, r == 0;
        vstd::arithmetic::div_mod::lemma_fundamental_div_mod_converse(-p, s, -q, 0);
    } else {
        assert(-p == (-q - 1) * s + (s - r)) by (nonlinear_arith)
            requires p == s * q + r;
        vstd::arithmetic::div_mod::lemma_fundamental_div_mod_converse(-p, s, -q - 1, s - r);
    }
    assert((-p) / s <= -q);
}

/// Multiplying a nonnegative scalar by a factor from the unit
/// interval never grows it, and keeps it nonnegative.
pub proof fn lemma_fx_mul_unit_range(a: int, b: int)
    requires
        0 <= a <= ONE as int,
        0 <= b,
    ensures
        0 <= fx_mul(a, b) <= b,
{
    let s = SCALE as int;
    assert(0 <= a * b && a * b <= s * b) by (nonlinear_arith)
        requires 0 <= a <= s, 0 <= b, ONE as int == s;
    vstd::arithmetic::div_mod::lemma_div_is_ordered(a * b, s * b, s);
    vstd::arithmetic::div_mod::lemma_div_multiples_vanish(b, s);
    vstd::arithmetic::div_mod::lemma_div_pos_is_pos(a * b, s);
}

/// A fixed-point square is nonnegative.
pub proof fn lemma_fx_square_nonneg(a: int)
    ensures
        fx_mul(a, a) >= 0,
{
    assert(a * a >= 0) by (nonlinear_arith);
    vstd::arithmetic::div_mod::lemma_div_pos_is_pos(a * a, SCALE as int);
}

} // verus!
