//! Fixed-point scalar arithmetic: bounded raw values, truncating division
//! and the exponential-lag interpolation step used by the smoother.

use vstd::prelude::*;
use vstd::arithmetic::div_mod::{
    lemma_div_is_ordered, lemma_div_pos_is_pos, lemma_fundamental_div_mod,
};
use vstd::arithmetic::mul::lemma_mul_inequality;

verus! {

/// Raw fixed-point steps per unit: every scalar carries three fractional
/// digits, so `1.0` is stored as `1000` and a lag weight of `0.9` as `900`.
pub const SCALE: i64 = 1000;

/// Largest raw coordinate magnitude the library accepts (one million units).
/// Keeping scalars inside this bound lets every product with a weight or a
/// second coordinate fit in `i64`.
pub const MAX_COORD: i64 = 1_000_000_000;

/// A raw scalar the library may hold.
pub open spec fn bounded(x: int) -> bool {
    -(MAX_COORD as int) <= x <= MAX_COORD as int
}

/// Division rounding toward zero, for a positive divisor. This is the
/// rounding the executable code uses on signed raw values.
pub open spec fn div_trunc(a: int, b: int) -> int
    recommends
        b > 0,
{
    if a >= 0 {
        a / b
    } else {
        -((-a) / b)
    }
}

/// Magnitude of the truncated quotient never exceeds the dividend's.
pub proof fn lemma_div_trunc_mag(a: int, b: int)
    requires
        b > 0,
    ensures
        a >= 0 ==> 0 <= div_trunc(a, b) <= a,
        a < 0 ==> a <= div_trunc(a, b) <= 0,
{
    if a >= 0 {
        lemma_div_pos_is_pos(a, b);
        lemma_div_is_ordered_helper(a, b);
    } else {
        lemma_div_pos_is_pos(-a, b);
        lemma_div_is_ordered_helper(-a, b);
    }
}

proof fn lemma_div_is_ordered_helper(a: int, b: int)
    requires
        a >= 0,
        b > 0,
    ensures
        a / b <= a,
{
    lemma_div_pos_is_pos(a, b);
    lemma_fundamental_div_mod(a, b);
    assert(1 * (a / b) <= b * (a / b)) by {
        lemma_mul_inequality(1, b, a / b);
    }
}

/// Truncating division of raw scalars.
pub fn div_trunc_i64(a: i64, b: i64) -> (r: i64)
    requires
        b > 0,
        a > i64::MIN,
    ensures
        r == div_trunc(a as int, b as int),
{
    proof {
        lemma_div_trunc_mag(a as int, b as int);
    }
    if a >= 0 {
        a / b
    } else {
        -((-a) / b)
    }
}

/// One exponential-lag step: how much of the previous value survives is set
/// by `lag` out of `SCALE`. Algebraically this is
/// `(prev * lag + next * (SCALE - lag)) / SCALE`, rearranged so the rounding
/// error vanishes exactly when `prev == next`.
pub open spec fn lerp_spec(prev: int, next: int, lag: int) -> int
    recommends
        0 <= lag < SCALE as int,
{
    next + div_trunc((prev - next) * lag, SCALE as int)
}

/// The interpolation never leaves the closed segment between its endpoints.
pub proof fn lemma_lerp_between(prev: int, next: int, lag: int)
    requires
        0 <= lag < SCALE as int,
    ensures
        prev >= next ==> next <= lerp_spec(prev, next, lag) <= prev,
        prev <= next ==> prev <= lerp_spec(prev, next, lag) <= next,
{
    let s = SCALE as int;
    let d = prev - next;
    if d >= 0 {
        lemma_mul_inequality(lag, s, d);
        assert(d * lag == lag * d && d * s == s * d) by (nonlinear_arith);
        assert(d * lag <= d * s);
        lemma_div_trunc_mag(d * lag, s);
        assert(d * lag >= 0) by (nonlinear_arith)
            requires
                d >= 0,
                lag >= 0,
        ;
        lemma_div_is_ordered(d * lag, d * s, s);
        lemma_div_by_multiple(d, s);
        assert(div_trunc(d * lag, s) <= d);
    } else {
        lemma_mul_inequality(lag, s, -d);
        assert((-d) * lag == lag * (-d) && (-d) * s == s * (-d)) by (nonlinear_arith);
        assert((-d) * lag <= (-d) * s);
        assert((-d) * lag >= 0) by (nonlinear_arith)
            requires
                d < 0,
                lag >= 0,
        ;
        lemma_div_is_ordered((-d) * lag, (-d) * s, s);
        lemma_div_by_multiple(-d, s);
        assert(-(d * lag) == (-d) * lag) by (nonlinear_arith);
        lemma_div_trunc_mag(d * lag, s);
        assert(div_trunc(d * lag, s) >= d);
    }
}

proof fn lemma_div_by_multiple(d: int, s: int)
    requires
        d >= 0,
        s > 0,
    ensures
        (d * s) / s == d,
{
    vstd::arithmetic::div_mod::lemma_div_by_multiple(d, s);
}

/// With a lag weight strictly below `SCALE`, each step strictly shrinks the
/// distance to a steady input, by at least one raw unit; at the input itself
/// the step is exact. Hence feeding the same value repeatedly reaches it
/// exactly after at most the initial raw distance many steps.
pub proof fn lemma_lerp_progress(prev: int, next: int, lag: int)
    requires
        0 <= lag < SCALE as int,
    ensures
        prev == next ==> lerp_spec(prev, next, lag) == next,
        prev > next ==> next <= lerp_spec(prev, next, lag) <= prev - 1,
        prev < next ==> prev + 1 <= lerp_spec(prev, next, lag) <= next,
{
    let s = SCALE as int;
    let d = prev - next;
    lemma_lerp_between(prev, next, lag);
    if d == 0 {
        assert(d * lag == 0) by (nonlinear_arith)
            requires
                d == 0,
        ;
        assert(div_trunc(0, s) == 0);
    } else if d > 0 {
        assert(d * lag <= d * s - d) by (nonlinear_arith)
            requires
                d > 0,
                lag < s,
        ;
        assert(d * lag >= 0) by (nonlinear_arith)
            requires
                d > 0,
                lag >= 0,
        ;
        lemma_div_is_ordered(d * lag, d * s - d, s);
        lemma_sub_one_quotient(d, s);
        assert(div_trunc(d * lag, s) <= d - 1);
    } else {
        let m = -d;
        assert(m * lag <= m * s - m) by (nonlinear_arith)
            requires
                m > 0,
                lag < s,
        ;
        assert(m * lag >= 0) by (nonlinear_arith)
            requires
                m > 0,
                lag >= 0,
        ;
        lemma_div_is_ordered(m * lag, m * s - m, s);
        lemma_sub_one_quotient(m, s);
        assert(-(d * lag) == m * lag) by (nonlinear_arith)
            requires
                m == -d,
        ;
        assert(div_trunc(d * lag, s) >= -(m - 1));
    }
}

proof fn lemma_sub_one_quotient(d: int, s: int)
    requires
        d > 0,
        s > 1,
    ensures
        (d * s - d) / s <= d - 1,
{
    assert(d * s - d < s * d) by (nonlinear_arith)
        requires
            d > 0,
    ;
    vstd::arithmetic::div_mod::lemma_multiply_divide_lt(d * s - d, s, d);
}

/// One executable exponential-lag step on raw scalars.
pub fn lerp(prev: i64, next: i64, lag: i64) -> (r: i64)
    requires
        bounded(prev as int),
        bounded(next as int),
        0 <= lag < SCALE,
    ensures
        r == lerp_spec(prev as int, next as int, lag as int),
        bounded(r as int),
{
    proof {
        lemma_lerp_between(prev as int, next as int, lag as int);
        assert((prev - next) * lag <= 2_000_000_000_000 && (prev - next) * lag
            >= -2_000_000_000_000) by (nonlinear_arith)
            requires
                -2_000_000_000 <= prev - next <= 2_000_000_000,
                0 <= lag < 1000,
        ;
    }
    let diff: i64 = prev - next;
    let d: i64 = div_trunc_i64(diff * lag, SCALE);
    next + d
}

/// Iterated lag steps toward one steady input.
pub open spec fn lerp_iter(n: nat, prev: int, next: int, lag: int) -> int
    decreases n,
{
    if n == 0 {
        prev
    } else {
        lerp_spec(lerp_iter((n - 1) as nat, prev, next, lag), next, lag)
    }
}

/// Feeding the same input for at least as many steps as the initial raw
/// distance converges exactly to that input, and stays there.
pub proof fn lemma_lerp_iter_converges(n: nat, prev: int, next: int, lag: int)
    requires
        0 <= lag < SCALE as int,
        n >= vstd::math::abs(prev - next),
    ensures
        lerp_iter(n, prev, next, lag) == next,
    decreases n,
{
    if n == 0 {
        assert(prev == next);
    } else {
        let before = lerp_iter((n - 1) as nat, prev, next, lag);
        if (n - 1) as nat >= vstd::math::abs(prev - next) {
            lemma_lerp_iter_converges((n - 1) as nat, prev, next, lag);
            lemma_lerp_progress(next, next, lag);
        } else {
            lemma_lerp_iter_bounded_distance((n - 1) as nat, prev, next, lag);
            lemma_lerp_progress(before, next, lag);
            assert(vstd::math::abs(before - next) <= vstd::math::abs(prev - next) - (n - 1));
            assert(vstd::math::abs(before - next) <= 1);
            if before == next {
            } else {
                assert(vstd::math::abs(lerp_spec(before, next, lag) - next) == 0);
            }
        }
    }
}

/// After `n` steps toward a steady input the raw distance has shrunk by at
/// least `n`, until it reaches zero.
pub proof fn lemma_lerp_iter_bounded_distance(n: nat, prev: int, next: int, lag: int)
    requires
        0 <= lag < SCALE as int,
        n <= vstd::math::abs(prev - next),
    ensures
        vstd::math::abs(lerp_iter(n, prev, next, lag) - next) <= vstd::math::abs(prev - next)
            - n,
    decreases n,
{
    if n == 0 {
    } else {
        let before = lerp_iter((n - 1) as nat, prev, next, lag);
        lemma_lerp_iter_bounded_distance((n - 1) as nat, prev, next, lag);
        lemma_lerp_progress(before, next, lag);
    }
}

/// A dividend within `m` multiples of the divisor has its truncated
/// quotient within `m` of zero.
pub proof fn lemma_div_trunc_quotient_bound(a: int, b: int, m: int)
    requires
        b > 0,
        m >= 0,
        -(m * b) <= a <= m * b,
    ensures
        -m <= div_trunc(a, b) <= m,
{
    lemma_div_trunc_mag(a, b);
    if a >= 0 {
        lemma_div_is_ordered(a, m * b, b);
        vstd::arithmetic::div_mod::lemma_div_by_multiple(m, b);
        assert(m * b == b * m) by (nonlinear_arith);
    } else {
        lemma_div_is_ordered(-a, m * b, b);
        vstd::arithmetic::div_mod::lemma_div_by_multiple(m, b);
        assert(m * b == b * m) by (nonlinear_arith);
    }
}

/// Clamp a raw scalar into a closed interval.
pub fn clamp_i64(x: i64, lo: i64, hi: i64) -> (r: i64)
    requires
        lo <= hi,
    ensures
        r == clamp_spec(x as int, lo as int, hi as int),
{
    if x < lo {
        lo
    } else if x > hi {
        hi
    } else {
        x
    }
}

/// The value of a clamp: the nearest point of the interval.
pub open spec fn clamp_spec(x: int, lo: int, hi: int) -> int
    recommends
        lo <= hi,
{
    if x < lo {
        lo
    } else if x > hi {
        hi
    } else {
        x
    }
}

} // verus!
