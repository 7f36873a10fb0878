//! Fixed-point arithmetic.
//!
//! Every real quantity of the simulation (weights, fodder, fitness,
//! probabilities, species parameters) is held as an `i64` counting millionths:
//! the integer `1_000_000` stands for the real number 1. All contracts are
//! stated over mathematical integers in that unit.

use vstd::prelude::*;

verus! {

/// The fixed-point representation of the real number 1.
pub const ONE: i64 = 1_000_000;

/// Internal precision of the exponential: the value that stands for 1 there.
pub const EXP_UNIT: u128 = 0x1000_0000_0000_0000;

/// `EXP_UNIT / 2^24`: one step of the exponential's base.
pub const EXP_STEP: u128 = 0x10_0000_0000;

/// Number of squarings performed by the exponential.
pub const EXP_ROUNDS: u32 = 24;

/// Exponents at or beyond this magnitude (32.0) are treated as infinite.
pub const EXP_CUTOFF: i64 = 32_000_000;

/// The nearest `i64` to `x`.
pub open spec fn saturated(x: int) -> int {
    if x < i64::MIN {
        i64::MIN as int
    } else if x > i64::MAX {
        i64::MAX as int
    } else {
        x
    }
}

/// The product of the fixed-point numbers `a` and `b`, rounded down.
pub open spec fn scaled(a: int, b: int) -> int {
    (a * b) / (ONE as int)
}

/// `t` squared `k` times in the exponential's internal precision, each
/// square rounded down.
pub open spec fn squared_times(t: int, k: nat) -> int
    decreases k,
{
    if k == 0 {
        t
    } else {
        squared_times(t * t / (EXP_UNIT as int), (k - 1) as nat)
    }
}

/// `e^(-a)` for a fixed-point `a` in `[0, EXP_CUTOFF)`, in the internal
/// precision: `(1 - a / 2^24)^(2^24)`, computed by repeated squaring.
pub open spec fn exp_neg(a: int) -> int {
    squared_times(EXP_UNIT - a * EXP_STEP / (ONE as int), EXP_ROUNDS as nat)
}

/// The logistic curve `1 / (1 + e^x)` of a fixed-point `x`, as a fixed-point
/// number in `[0, ONE]`, rounded down for `x >= 0` and mirrored for `x < 0`.
pub open spec fn logistic(x: int) -> int {
    let a = if x < 0 { -x } else { x };
    let q = if a >= EXP_CUTOFF {
        0
    } else {
        ONE * exp_neg(a) / (EXP_UNIT + exp_neg(a))
    };
    if x < 0 {
        ONE - q
    } else {
        q
    }
}

/// Squaring never leaves the unit interval.
pub proof fn lemma_squared_times_bound(t: int, k: nat)
    requires
        0 <= t <= EXP_UNIT,
    ensures
        0 <= squared_times(t, k) <= EXP_UNIT,
    decreases k,
{
    if k > 0 {
        let u = EXP_UNIT as int;
        assert(0 <= t * t / u <= u) by (nonlinear_arith)
            requires
                0 <= t <= u,
                u > 0,
        ;
        lemma_squared_times_bound(t * t / u, (k - 1) as nat);
    }
}

/// The base of the exponential lies in the unit interval.
pub proof fn lemma_exp_base_bound(a: int)
    requires
        0 <= a < EXP_CUTOFF,
    ensures
        0 < EXP_UNIT - a * EXP_STEP / (ONE as int) <= EXP_UNIT,
        0 <= a * EXP_STEP <= 0x1E84_8000_0000_0000,
{
    let s = EXP_STEP as int;
    assert(0 <= a * s <= 32_000_000 * s) by (nonlinear_arith)
        requires
            0 <= a <= 32_000_000,
            s > 0,
    ;
    assert(0 <= a * s / 1_000_000 <= 32_000_000 * s / 1_000_000) by (nonlinear_arith)
        requires
            0 <= a * s <= 32_000_000 * s,
    ;
}

/// The exponential lies in the unit interval.
pub proof fn lemma_exp_neg_bound(a: int)
    requires
        0 <= a < EXP_CUTOFF,
    ensures
        0 <= exp_neg(a) <= EXP_UNIT,
{
    lemma_exp_base_bound(a);
    lemma_squared_times_bound(EXP_UNIT - a * EXP_STEP / (ONE as int), EXP_ROUNDS as nat);
}

/// The logistic curve takes its values in `[0, ONE]`.
pub proof fn lemma_logistic_bounds(x: int)
    ensures
        0 <= logistic(x) <= ONE,
{
    let a = if x < 0 { -x } else { x };
    if a < EXP_CUTOFF {
        lemma_exp_neg_bound(a);
        let t = exp_neg(a);
        let u = EXP_UNIT as int;
        let one = ONE as int;
        assert(0 <= one * t / (u + t) <= one) by (nonlinear_arith)
            requires
                0 <= t <= u,
                u > 0,
                one > 0,
        ;
    }
}

/// The product of two fixed-point numbers of the unit interval lies in it.
pub proof fn lemma_scaled_unit(a: int, b: int)
    requires
        0 <= a <= ONE,
        0 <= b <= ONE,
    ensures
        0 <= scaled(a, b) <= ONE,
{
    let one = ONE as int;
    assert(0 <= (a * b) / one <= one) by (nonlinear_arith)
        requires
            0 <= a <= one,
            0 <= b <= one,
            one > 0,
    ;
}

/// Rounds `x` to the nearest `i64`.
pub fn saturate(x: i128) -> (r: i64)
    ensures
        r == saturated(x as int),
{
    if x < i64::MIN as i128 {
        i64::MIN
    } else if x > i64::MAX as i128 {
        i64::MAX
    } else {
        x as i64
    }
}

/// The quotient `p / d` rounded towards minus infinity.
pub fn floor_div(p: i128, d: i128) -> (q: i128)
    requires
        d > 0,
    ensures
        q == (p as int) / (d as int),
{
    if p >= 0 {
        p / d
    } else {
        // -(p + 1) is non-negative and cannot overflow.
        let n: i128 = -(p + 1);
        let q: i128 = n / d;
        proof {
            let pi = p as int;
            let di = d as int;
            assert(pi / di == -((-(pi + 1)) / di) - 1) by (nonlinear_arith)
                requires
                    pi < 0,
                    di > 0,
            ;
        }
        -q - 1
    }
}

/// The fixed-point product of `a` and `b`, rounded down.
pub fn scale(a: i64, b: i64) -> (r: i128)
    ensures
        r == scaled(a as int, b as int),
{
    assert(-0x4000_0000_0000_0000_0000_0000_0000_0000 <= a * b
        <= 0x4000_0000_0000_0000_0000_0000_0000_0000) by (nonlinear_arith)
        requires
            -0x8000_0000_0000_0000 <= a <= 0x7fff_ffff_ffff_ffff,
            -0x8000_0000_0000_0000 <= b <= 0x7fff_ffff_ffff_ffff,
    ;
    let p: i128 = (a as i128) * (b as i128);
    floor_div(p, ONE as i128)
}

/// Evaluates `e^(-a)` in the internal precision.
fn exp_neg_of(a: u128) -> (t: u128)
    requires
        a < EXP_CUTOFF,
    ensures
        t == exp_neg(a as int),
        t <= EXP_UNIT,
{
    proof {
        lemma_exp_base_bound(a as int);
    }
    let mut t: u128 = EXP_UNIT - a * EXP_STEP / (ONE as u128);
    let mut i: u32 = 0;
    while i < EXP_ROUNDS
        invariant
            i <= EXP_ROUNDS,
            t <= EXP_UNIT,
            squared_times(t as int, (EXP_ROUNDS - i) as nat) == exp_neg(a as int),
        decreases EXP_ROUNDS - i,
    {
        assert(t * t <= EXP_UNIT * EXP_UNIT) by (nonlinear_arith)
            requires
                t <= EXP_UNIT,
        ;
        assert(t * t / (EXP_UNIT as int) <= EXP_UNIT) by (nonlinear_arith)
            requires
                0 <= t <= EXP_UNIT,
                EXP_UNIT > 0,
        ;
        t = t * t / EXP_UNIT;
        i = i + 1;
    }
    t
}

/// Evaluates the logistic curve `1 / (1 + e^x)`.
pub fn logistic_of(x: i128) -> (q: i64)
    ensures
        q == logistic(x as int),
        0 <= q <= ONE,
{
    proof {
        lemma_logistic_bounds(x as int);
    }
    if x >= EXP_CUTOFF as i128 {
        0
    } else if x <= -(EXP_CUTOFF as i128) {
        ONE
    } else {
        let a: u128 = if x < 0 { (-x) as u128 } else { x as u128 };
        let t: u128 = exp_neg_of(a);
        let q: u128 = (ONE as u128) * t / (EXP_UNIT + t);
        if x < 0 {
            ONE - (q as i64)
        } else {
            q as i64
        }
    }
}

} // verus!
