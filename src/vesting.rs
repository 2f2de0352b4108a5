use vstd::prelude::*;
use vstd::arithmetic::div_mod::{
    lemma_div_is_ordered,
    lemma_fundamental_div_mod,
    lemma_fundamental_div_mod_converse_div,
};
use vstd::arithmetic::mul::lemma_mul_inequality;

verus! {

/// Fixed-point scale of the per-second unlock rate.
pub const RATE_SCALE: u128 = 1_000_000_000_000;

/// Units unlocked per second, scaled by `RATE_SCALE` and truncated.
pub open spec fn scaled_rate(purchased: nat, vesting: nat) -> nat {
    ((purchased * RATE_SCALE) / (vesting as int)) as nat
}

/// Units released for `elapsed` seconds of a schedule of `vesting` seconds
/// over `purchased` units: the elapsed time times the scaled rate, descaled
/// and truncated.
pub open spec fn unlocked_over(elapsed: nat, purchased: nat, vesting: nat) -> nat {
    ((elapsed * scaled_rate(purchased, vesting)) / (RATE_SCALE as nat)) as nat
}

/// Computes `unlocked_over(elapsed, purchased, vesting)` without overflow,
/// for any purchase and any elapsed time up to the schedule's length.
pub fn unlocked_amount(elapsed: u64, purchased: u128, vesting: u64) -> (r: u128)
    requires
        0 < vesting,
        elapsed <= vesting,
    ensures
        r == unlocked_over(elapsed as nat, purchased as nat, vesting as nat),
        r <= purchased,
{
    let v = vesting as u128;
    let e = elapsed as u128;
    let whole = purchased / v;
    let rem = purchased % v;
    proof {
        lemma_fundamental_div_mod(purchased as int, v as int);
        assert(rem * RATE_SCALE < 0x1_0000_0000_0000_0000_0000_0000_0000) by (nonlinear_arith)
            requires rem < v, v < 0x1_0000_0000_0000_0000;
        assert(e * whole <= purchased) by (nonlinear_arith)
            requires e <= v, purchased == v * whole + rem, rem >= 0, whole >= 0;
    }
    let frac = rem * RATE_SCALE / v;
    proof {
        assert(frac < RATE_SCALE) by (nonlinear_arith)
            requires frac as int == (rem * RATE_SCALE) as int / (v as int), rem < v, v > 0;
        assert(e * frac < 0x1_0000_0000_0000_0000_0000_0000_0000) by (nonlinear_arith)
            requires e < 0x1_0000_0000_0000_0000, frac < RATE_SCALE;
    }
    let part = e * frac / RATE_SCALE;
    proof {
        lemma_scaled_rate_split(purchased as int, v as int, whole as int, rem as int);
        lemma_unlocked_split(e as int, whole as int, frac as int);
        lemma_unlocked_at_most_purchased(elapsed as nat, purchased as nat, vesting as nat);
    }
    e * whole + part
}

proof fn lemma_scaled_rate_split(p: int, v: int, q: int, rem: int)
    requires
        v > 0,
        p == v * q + rem,
        0 <= rem < v,
        q >= 0,
    ensures
        (p * RATE_SCALE) / v == q * RATE_SCALE + (rem * RATE_SCALE) / v,
{
    let s = RATE_SCALE as int;
    let f = (rem * s) / v;
    let m = (rem * s) % v;
    lemma_fundamental_div_mod(rem * s, v);
    assert(0 <= m < v) by (nonlinear_arith) requires m == (rem * s) % v, v > 0;
    assert(p * s == (q * s + f) * v + m) by (nonlinear_arith)
        requires p == v * q + rem, rem * s == v * f + m;
    lemma_fundamental_div_mod_converse_div(p * s, v, q * s + f, m);
}

proof fn lemma_unlocked_split(e: int, q: int, f: int)
    requires
        e >= 0,
        q >= 0,
        0 <= f,
    ensures
        (e * (q * RATE_SCALE + f)) / (RATE_SCALE as int) == e * q + (e * f) / (RATE_SCALE as int),
{
    let s = RATE_SCALE as int;
    let d = (e * f) / s;
    let m = (e * f) % s;
    lemma_fundamental_div_mod(e * f, s);
    assert(0 <= m < s) by (nonlinear_arith) requires m == (e * f) % s, s > 0;
    assert(e * (q * s + f) == (e * q + d) * s + m) by (nonlinear_arith)
        requires e * f == s * d + m;
    lemma_fundamental_div_mod_converse_div(e * (q * s + f), s, e * q + d, m);
}

/// What is released for a time within the schedule never exceeds the purchase.
pub proof fn lemma_unlocked_at_most_purchased(elapsed: nat, purchased: nat, vesting: nat)
    requires
        0 < vesting,
        elapsed <= vesting,
    ensures
        unlocked_over(elapsed, purchased, vesting) <= purchased,
        elapsed < vesting && purchased > 0 ==> unlocked_over(elapsed, purchased, vesting) < purchased,
{
    let s = RATE_SCALE as int;
    let r = scaled_rate(purchased, vesting) as int;
    let e = elapsed as int;
    let v = vesting as int;
    let p = purchased as int;
    lemma_fundamental_div_mod(p * s, v);
    assert(r * v <= p * s) by (nonlinear_arith)
        requires r == (p * s) / v, v > 0, p * s >= 0, (p * s) % v >= 0, p * s == v * ((p * s) / v) + (p * s) % v;
    assert(e * r <= p * s) by (nonlinear_arith)
        requires r * v <= p * s, e <= v, r >= 0, e >= 0;
    lemma_div_is_ordered(e * r, p * s, s);
    assert((p * s) / s == p) by (nonlinear_arith) requires s > 0;
    if e < v && p > 0 {
        assert(e * r < p * s) by (nonlinear_arith)
            requires r * v <= p * s, e < v, r >= 0, e >= 0, p > 0, s > 0;
        lemma_fundamental_div_mod(e * r, s);
        assert((e * r) / s < p) by (nonlinear_arith)
            requires e * r < p * s, s > 0, e * r == s * ((e * r) / s) + (e * r) % s, (e * r) % s >= 0;
    }
}

/// More elapsed time never releases less.
pub proof fn lemma_unlocked_monotone(e1: nat, e2: nat, purchased: nat, vesting: nat)
    requires
        0 < vesting,
        e1 <= e2,
    ensures
        unlocked_over(e1, purchased, vesting) <= unlocked_over(e2, purchased, vesting),
{
    let r = scaled_rate(purchased, vesting) as int;
    lemma_mul_inequality(e1 as int, e2 as int, r);
    assert(e1 * r == r * e1 && e2 * r == r * e2) by (nonlinear_arith);
    lemma_div_is_ordered(e1 * r, e2 * r, RATE_SCALE as int);
}

proof fn lemma_floor_sum(a: int, b: int, d: int)
    requires
        a >= 0,
        b >= 0,
        d > 0,
    ensures
        a / d + b / d <= (a + b) / d <= a / d + b / d + 1,
{
    lemma_fundamental_div_mod(a, d);
    lemma_fundamental_div_mod(b, d);
    let qa = a / d;
    let qb = b / d;
    let ra = a % d;
    let rb = b % d;
    assert(0 <= ra < d && 0 <= rb < d) by (nonlinear_arith)
        requires ra == a % d, rb == b % d, d > 0;
    assert(a + b == (qa + qb) * d + (ra + rb)) by (nonlinear_arith)
        requires a == d * qa + ra, b == d * qb + rb;
    if ra + rb < d {
        lemma_fundamental_div_mod_converse_div(a + b, d, qa + qb, ra + rb);
    } else {
        assert(a + b == (qa + qb + 1) * d + (ra + rb - d)) by (nonlinear_arith)
            requires a + b == (qa + qb) * d + (ra + rb);
        lemma_fundamental_div_mod_converse_div(a + b, d, qa + qb + 1, ra + rb - d);
    }
}

/// Counting two stretches of time apart releases no more than counting them
/// as one stretch, and at most one unit less.
pub proof fn lemma_unlocked_split_time(e1: nat, e2: nat, purchased: nat, vesting: nat)
    requires
        0 < vesting,
    ensures
        unlocked_over(e1, purchased, vesting) + unlocked_over(e2, purchased, vesting)
            <= unlocked_over(e1 + e2, purchased, vesting),
        unlocked_over(e1 + e2, purchased, vesting)
            <= unlocked_over(e1, purchased, vesting) + unlocked_over(e2, purchased, vesting) + 1,
{
    let r = scaled_rate(purchased, vesting) as int;
    assert((e1 + e2) * r == e1 * r + e2 * r) by (nonlinear_arith);
    assert(e1 * r >= 0 && e2 * r >= 0) by (nonlinear_arith) requires r >= 0;
    lemma_floor_sum(e1 * r, e2 * r, RATE_SCALE as int);
}

} // verus!
