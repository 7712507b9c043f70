//! Fixed-point scalar arithmetic.
//!
//! A scalar is an `i64` holding `value * FX_ONE`, i.e. 16 fractional bits.
//! Every operation saturates into `[-FX_MAX, FX_MAX]`, so all operations are
//! total and the algebraic laws proved here hold without side conditions on
//! overflow. Each executable operation is pinned exactly to a spec twin
//! (`fxs_*`) over mathematical integers.

use vstd::prelude::*;

verus! {

/// One whole unit: scalars carry 16 fractional bits.
pub const FX_ONE: i64 = 65536;

/// Largest magnitude a scalar may take; results are clamped into
/// `[-FX_MAX, FX_MAX]`, so `i64::MIN` is never produced by an operation.
pub const FX_MAX: i64 = i64::MAX;

/// A value inside the saturation range.
pub open spec fn in_range(x: int) -> bool {
    -(FX_MAX as int) <= x <= FX_MAX as int
}

/// Clamp a mathematical integer into the representable range.
pub open spec fn sat(x: int) -> int {
    if x > FX_MAX as int {
        FX_MAX as int
    } else if x < -(FX_MAX as int) {
        -(FX_MAX as int)
    } else {
        x
    }
}

/// Absolute value over int.
pub open spec fn iabs(x: int) -> int {
    if x < 0 {
        -x
    } else {
        x
    }
}

pub open spec fn fxs_neg(a: int) -> int {
    sat(-a)
}

pub open spec fn fxs_add(a: int, b: int) -> int {
    sat(a + b)
}

pub open spec fn fxs_sub(a: int, b: int) -> int {
    sat(a - b)
}

/// Product of two scalars: exact integer product, rescaled by `FX_ONE` with
/// truncation toward zero, then saturated.
pub open spec fn fxs_mul(a: int, b: int) -> int {
    let p = (iabs(a) * iabs(b)) / (FX_ONE as int);
    if (a < 0) != (b < 0) {
        sat(-p)
    } else {
        sat(p)
    }
}

/// Quotient of two scalars: `(a / b) * FX_ONE`, truncated toward zero,
/// then saturated.
pub open spec fn fxs_div(a: int, b: int) -> int
    recommends
        b != 0,
{
    let q = (iabs(a) * (FX_ONE as int)) / iabs(b);
    if (a < 0) != (b < 0) {
        sat(-q)
    } else {
        sat(q)
    }
}

pub open spec fn fxs_abs(a: int) -> int {
    sat(iabs(a))
}

/// A whole number carried into the fixed-point scale.
pub open spec fn fxs_from_int(n: int) -> int {
    sat(n * (FX_ONE as int))
}

/// Floor of the square root of a natural number, defined by recursion.
pub open spec fn sqrt_floor(n: nat) -> nat
    decreases n,
{
    if n == 0 {
        0
    } else {
        let r = sqrt_floor((n - 1) as nat);
        if (r + 1) * (r + 1) <= n {
            r + 1
        } else {
            r
        }
    }
}

/// Square root of a non-negative scalar: since the scalar holds `v * FX_ONE`,
/// the root of the represented value is `sqrt_floor(v * FX_ONE * FX_ONE)`.
pub open spec fn fxs_sqrt(a: int) -> int
    recommends
        a >= 0,
{
    sqrt_floor((a * (FX_ONE as int)) as nat) as int
}

/// Saturation commutes with negation because the range is symmetric.
pub proof fn lemma_sat_neg(x: int)
    ensures
        sat(-x) == -sat(x),
{
}

pub proof fn lemma_sqrt_floor_bounds(n: nat)
    ensures
        sqrt_floor(n) * sqrt_floor(n) <= n,
        n < (sqrt_floor(n) + 1) * (sqrt_floor(n) + 1),
    decreases n,
{
    if n == 0 {
        assert(sqrt_floor(n) == 0);
        assert(sqrt_floor(n) * sqrt_floor(n) <= n);
        assert(n < (sqrt_floor(n) + 1) * (sqrt_floor(n) + 1)) by (nonlinear_arith)
            requires
                n == 0,
                sqrt_floor(n) == 0,
        ;
    } else {
        lemma_sqrt_floor_bounds((n - 1) as nat);
        let r = sqrt_floor((n - 1) as nat);
        let s = sqrt_floor(n);
        assert(s * s <= n && n < (s + 1) * (s + 1) ==> sqrt_floor(n) * sqrt_floor(n) <= n && n < (sqrt_floor(n) + 1) * (sqrt_floor(n) + 1));
        if (r + 1) * (r + 1) <= n {
            assert(s == r + 1);
            assert(s * s <= n && n < (s + 1) * (s + 1)) by (nonlinear_arith)
                requires
                    s == r + 1,
                    (n - 1) < (r + 1) * (r + 1),
                    (r + 1) * (r + 1) <= n,
            ;
        } else {
            assert(s == r);
            assert(s * s <= n && n < (s + 1) * (s + 1)) by (nonlinear_arith)
                requires
                    s == r,
                    r * r <= n - 1,
                    n >= 1,
                    !((r + 1) * (r + 1) <= n),
            ;
        }
    }
}

pub proof fn lemma_sqrt_floor_unique(n: nat, r: nat)
    requires
        r * r <= n,
        n < (r + 1) * (r + 1),
    ensures
        r == sqrt_floor(n),
{
    lemma_sqrt_floor_bounds(n);
    let s = sqrt_floor(n);
    if r < s {
        assert(false) by (nonlinear_arith)
            requires
                r < s,
                s * s <= n,
                n < (r + 1) * (r + 1),
        ;
    }
    if s < r {
        assert(false) by (nonlinear_arith)
            requires
                s < r,
                r * r <= n,
                n < (s + 1) * (s + 1),
        ;
    }
}

/// The scaled product of two non-negative values is non-negative and no
/// larger than their exact product.
pub proof fn lemma_mul_div_nonneg(x: int, y: int)
    requires
        x >= 0,
        y >= 0,
    ensures
        0 <= (x * y) / (FX_ONE as int),
{
    assert(x * y >= 0) by (nonlinear_arith)
        requires
            x >= 0,
            y >= 0,
    ;
    vstd::arithmetic::div_mod::lemma_div_pos_is_pos(x * y, FX_ONE as int);
}

/// Multiplication of scalars is commutative.
pub proof fn lemma_fxs_mul_comm(a: int, b: int)
    ensures
        fxs_mul(a, b) == fxs_mul(b, a),
{
    assert(iabs(a) * iabs(b) == iabs(b) * iabs(a)) by (nonlinear_arith);
}

/// Negating one factor negates the scaled product.
pub proof fn lemma_fxs_mul_neg_right(a: int, b: int)
    requires
        in_range(b),
    ensures
        fxs_mul(a, fxs_neg(b)) == fxs_neg(fxs_mul(a, b)),
{
    assert(fxs_neg(b) == -b);
    assert(iabs(-b) == iabs(b));
    assert(iabs(a) * iabs(-b) == iabs(a) * iabs(b)) by (nonlinear_arith)
        requires
            iabs(-b) == iabs(b),
    ;
    let p = (iabs(a) * iabs(b)) / (FX_ONE as int);
    lemma_mul_div_nonneg(iabs(a), iabs(b));
    if b == 0 {
        assert(iabs(a) * 0 == 0) by (nonlinear_arith);
        assert(p == 0) by {
            vstd::arithmetic::div_mod::lemma_div_of0(FX_ONE as int);
        };
    } else {
        lemma_sat_neg(p);
        lemma_sat_neg(sat(p));
        lemma_sat_neg(sat(-p));
    }
}

/// Negation distributes over saturating addition.
pub proof fn lemma_fxs_add_neg(a: int, b: int)
    requires
        in_range(a),
        in_range(b),
    ensures
        fxs_add(fxs_neg(a), fxs_neg(b)) == fxs_neg(fxs_add(a, b)),
{
    lemma_sat_neg(a + b);
    lemma_sat_neg(sat(a + b));
}

/// Swapping the operands of saturating subtraction negates it.
pub proof fn lemma_fxs_sub_swap(a: int, b: int)
    ensures
        fxs_sub(b, a) == fxs_neg(fxs_sub(a, b)),
{
    lemma_sat_neg(a - b);
    lemma_sat_neg(sat(a - b));
}

/// The scaled product of non-negative values stays non-negative; with a
/// factor below one whole unit it stays below the other factor.
pub proof fn lemma_fxs_mul_bounds(a: int, b: int)
    requires
        a >= 0,
        0 <= b < FX_ONE as int,
    ensures
        0 <= fxs_mul(a, b),
        fxs_mul(a, b) <= a,
        a >= 1 ==> fxs_mul(a, b) < a,
{
    lemma_mul_div_nonneg(a, b);
    if a == 0 {
        assert(0 * b == 0) by (nonlinear_arith);
        vstd::arithmetic::div_mod::lemma_div_of0(FX_ONE as int);
    } else {
        assert(a * b < (FX_ONE as int) * a) by (nonlinear_arith)
            requires
                a >= 1,
                0 <= b < FX_ONE as int,
        ;
        vstd::arithmetic::div_mod::lemma_multiply_divide_lt(a * b, FX_ONE as int, a);
    }
}

/// Dividing by one whole unit is the identity on in-range scalars.
pub proof fn lemma_fxs_div_one(a: int)
    requires
        in_range(a),
    ensures
        fxs_div(a, FX_ONE as int) == a,
{
    vstd::arithmetic::div_mod::lemma_div_multiples_vanish(iabs(a), FX_ONE as int);
    assert((iabs(a) * (FX_ONE as int)) / (FX_ONE as int) == iabs(a));
}

/// Multiplying by zero gives zero.
pub proof fn lemma_fxs_mul_zero_right(a: int)
    ensures
        fxs_mul(a, 0) == 0,
{
    assert(iabs(a) * 0 == 0) by (nonlinear_arith);
    vstd::arithmetic::div_mod::lemma_div_of0(FX_ONE as int);
}

/// The quotient of non-negative by positive is non-negative.
pub proof fn lemma_fxs_div_nonneg(a: int, b: int)
    requires
        a >= 0,
        b > 0,
    ensures
        fxs_div(a, b) >= 0,
{
    assert(iabs(a) * (FX_ONE as int) >= 0) by (nonlinear_arith)
        requires
            iabs(a) >= 0,
            FX_ONE as int > 0,
    ;
    vstd::arithmetic::div_mod::lemma_div_pos_is_pos(iabs(a) * (FX_ONE as int), iabs(b));
}

/// Truncating scaled division is monotone in the numerator.
pub proof fn lemma_fxs_div_mono(x: int, y: int, d: int)
    requires
        x <= y,
        d > 0,
    ensures
        fxs_div(x, d) <= fxs_div(y, d),
{
    let one = FX_ONE as int;
    if x >= 0 {
        assert(x * one <= y * one) by (nonlinear_arith)
            requires
                x <= y,
                one > 0,
        ;
        vstd::arithmetic::div_mod::lemma_div_is_ordered(x * one, y * one, d);
    } else if y < 0 {
        assert(iabs(y) * one <= iabs(x) * one) by (nonlinear_arith)
            requires
                x <= y < 0,
                one > 0,
        ;
        vstd::arithmetic::div_mod::lemma_div_is_ordered(iabs(y) * one, iabs(x) * one, d);
        let qx = (iabs(x) * one) / d;
        let qy = (iabs(y) * one) / d;
        lemma_sat_neg(qx);
        lemma_sat_neg(qy);
    } else {
        // x < 0 <= y: the left quotient is clamped at or below zero, the
        // right one at or above.
        assert(iabs(x) * one >= 0) by (nonlinear_arith)
            requires
                iabs(x) >= 0,
                one > 0,
        ;
        assert(iabs(y) * one >= 0) by (nonlinear_arith)
            requires
                iabs(y) >= 0,
                one > 0,
        ;
        vstd::arithmetic::div_mod::lemma_div_pos_is_pos(iabs(x) * one, d);
        vstd::arithmetic::div_mod::lemma_div_pos_is_pos(iabs(y) * one, d);
        lemma_sat_neg((iabs(x) * one) / d);
    }
}

/// The scaled square of any scalar is non-negative.
pub proof fn lemma_fxs_square_nonneg(a: int)
    ensures
        fxs_mul(a, a) >= 0,
{
    lemma_mul_div_nonneg(iabs(a), iabs(a));
}

/// Clamp an `i64` into the scalar range (only `i64::MIN` moves).
pub fn fx_sat(a: i64) -> (r: i64)
    ensures
        r as int == sat(a as int),
{
    if a == i64::MIN {
        -FX_MAX
    } else {
        a
    }
}

/// Absolute value of an `i64` as a `u128`; total, including `i64::MIN`.
fn abs_u128(a: i64) -> (r: u128)
    ensures
        r as int == iabs(a as int),
{
    let w: i128 = a as i128;
    if w < 0 {
        (-w) as u128
    } else {
        w as u128
    }
}

/// Clamp a non-negative magnitude with a sign into the scalar range.
fn sat_signed(neg: bool, p: u128) -> (r: i64)
    ensures
        r as int == if neg {
            sat(-(p as int))
        } else {
            sat(p as int)
        },
{
    if p > FX_MAX as u128 {
        if neg {
            -FX_MAX
        } else {
            FX_MAX
        }
    } else {
        if neg {
            -(p as i64)
        } else {
            p as i64
        }
    }
}

pub fn fx_add(a: i64, b: i64) -> (r: i64)
    ensures
        r as int == fxs_add(a as int, b as int),
{
    let s: i128 = a as i128 + b as i128;
    if s > FX_MAX as i128 {
        FX_MAX
    } else if s < -(FX_MAX as i128) {
        -FX_MAX
    } else {
        s as i64
    }
}

pub fn fx_sub(a: i64, b: i64) -> (r: i64)
    ensures
        r as int == fxs_sub(a as int, b as int),
{
    let s: i128 = a as i128 - b as i128;
    if s > FX_MAX as i128 {
        FX_MAX
    } else if s < -(FX_MAX as i128) {
        -FX_MAX
    } else {
        s as i64
    }
}

pub fn fx_neg(a: i64) -> (r: i64)
    ensures
        r as int == fxs_neg(a as int),
{
    if a == i64::MIN {
        FX_MAX
    } else {
        -a
    }
}

pub fn fx_abs(a: i64) -> (r: i64)
    ensures
        r as int == fxs_abs(a as int),
{
    if a < 0 {
        fx_neg(a)
    } else {
        a
    }
}

pub fn fx_mul(a: i64, b: i64) -> (r: i64)
    ensures
        r as int == fxs_mul(a as int, b as int),
{
    let neg: bool = (a < 0) != (b < 0);
    let aa: u128 = abs_u128(a);
    let bb: u128 = abs_u128(b);
    assert(aa * bb <= 85070591730234615865843651857942052864u128) by (nonlinear_arith)
        requires
            aa <= 9223372036854775808u128,
            bb <= 9223372036854775808u128,
    ;
    let p: u128 = (aa * bb) / (FX_ONE as u128);
    sat_signed(neg, p)
}

pub fn fx_div(a: i64, b: i64) -> (r: i64)
    requires
        b != 0,
    ensures
        r as int == fxs_div(a as int, b as int),
{
    let neg: bool = (a < 0) != (b < 0);
    let aa: u128 = abs_u128(a);
    let bb: u128 = abs_u128(b);
    assert(aa <= 9223372036854775808u128);
    assert(aa * (FX_ONE as u128) <= 604462909807314587353088u128) by (nonlinear_arith)
        requires
            aa <= 9223372036854775808u128,
            FX_ONE as u128 == 65536,
    ;
    let q: u128 = (aa * (FX_ONE as u128)) / bb;
    sat_signed(neg, q)
}

pub fn fx_from_int(n: i64) -> (r: i64)
    ensures
        r as int == fxs_from_int(n as int),
{
    let s: i128 = (n as i128) * (FX_ONE as i128);
    if s > FX_MAX as i128 {
        FX_MAX
    } else if s < -(FX_MAX as i128) {
        -FX_MAX
    } else {
        s as i64
    }
}

/// Floor square root of an arbitrary `u128`.
fn isqrt_u128(n: u128) -> (r: u128)
    ensures
        (r as int) * (r as int) <= n as int,
        (n as int) < ((r as int) + 1) * ((r as int) + 1),
{
    if n == 0 {
        return 0;
    }
    let mut lo: u128 = 0;
    let mut hi: u128 = 18446744073709551616u128;
    assert(18446744073709551616int * 18446744073709551616int > n as int) by (nonlinear_arith);
    while lo + 1 < hi
        invariant
            lo < hi,
            hi <= 18446744073709551616u128,
            (lo as int) * (lo as int) <= n as int,
            (n as int) < (hi as int) * (hi as int),
        decreases hi - lo,
    {
        let mid: u128 = lo + (hi - lo) / 2;
        assert(lo < mid < hi);
        assert(mid * mid <= 340282366920938463426481119284349108225u128) by (nonlinear_arith)
            requires
                mid <= 18446744073709551615u128,
        ;
        if mid * mid <= n {
            lo = mid;
        } else {
            hi = mid;
        }
    }
    lo
}

pub fn fx_sqrt(a: i64) -> (r: i64)
    requires
        a >= 0,
    ensures
        r as int == fxs_sqrt(a as int),
        r >= 0,
{
    assert((a as u128) <= 9223372036854775807u128);
    assert((a as u128) * (FX_ONE as u128) < 1208925819614629174706176u128) by (nonlinear_arith)
        requires
            (a as u128) <= 9223372036854775807u128,
            FX_ONE as u128 == 65536,
    ;
    let n: u128 = (a as u128) * (FX_ONE as u128);
    let s: u128 = isqrt_u128(n);
    proof {
        lemma_sqrt_floor_unique(n as nat, s as nat);
        assert((s as int) * (s as int) <= n as int);
        assert(s < 1099511627776u128) by (nonlinear_arith)
            requires
                (s as int) * (s as int) <= n as int,
                n < 1208925819614629174706176u128,
        ;
    }
    s as i64
}

} // verus!
