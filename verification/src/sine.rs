//! An integer sine: Bhaskara I's rational approximation, scaled by
//! [`UNIT`], on angles measured in nanoturns.
//!
//! On the first half turn the approximation is
//! `sin(n) ~ 4*u*UNIT / (D - u)` with `u = n*(HALF_TURN - n)` and
//! `D = 5 * (HALF_TURN/2)^2`; the second half turn is its mirror image.
//! The result is exactly zero at every multiple of a half turn, exactly
//! `UNIT` at a quarter turn, and always within `[-UNIT, UNIT]` — which is
//! what keeps every rendered sample finite and bounded.

use vstd::prelude::*;

use crate::units::{HALF_TURN, TURN, UNIT};

verus! {

/// `5 * (HALF_TURN / 2)^2`, the denominator base of the approximation.
pub const SINE_D: u64 = 312_500_000_000_000_000;

/// The approximation on the rising half turn, `0 <= n <= HALF_TURN`.
pub open spec fn sine_half_spec(n: int) -> int {
    4 * (n * (HALF_TURN - n)) * UNIT / (SINE_D - n * (HALF_TURN - n))
}

/// The full sine of an angle in nanoturns, scaled by [`UNIT`].
pub open spec fn sine_spec(nt: int) -> int {
    let ph = nt % (TURN as int);
    if ph < HALF_TURN {
        sine_half_spec(ph)
    } else {
        -sine_half_spec(ph - HALF_TURN)
    }
}

/// The half-turn approximation stays within `[0, UNIT]` and vanishes at
/// both ends of its interval.
pub proof fn lemma_sine_half_bounds(n: int)
    requires
        0 <= n <= HALF_TURN,
    ensures
        0 <= sine_half_spec(n) <= UNIT,
        n == 0 || n == HALF_TURN ==> sine_half_spec(n) == 0,
{
    let u = n * (HALF_TURN - n);
    assert(0 <= u && 4 * u <= (HALF_TURN as int) * (HALF_TURN as int)) by (nonlinear_arith)
        requires
            0 <= n <= HALF_TURN,
            u == n * (HALF_TURN - n),
    ;
    assert(5 * u <= SINE_D);
    let num = 4 * u * UNIT;
    let den = SINE_D - u;
    assert(num >= 0) by (nonlinear_arith)
        requires
            u >= 0,
            num == 4 * u * UNIT,
    ;
    vstd::arithmetic::div_mod::lemma_div_pos_is_pos(num, den);
    assert(num <= den * UNIT) by (nonlinear_arith)
        requires
            5 * u <= SINE_D,
            u >= 0,
            num == 4 * u * UNIT,
            den == SINE_D - u,
    ;
    vstd::arithmetic::div_mod::lemma_div_is_ordered(num, den * UNIT, den);
    vstd::arithmetic::div_mod::lemma_div_multiples_vanish(UNIT as int, den);
    if n == 0 || n == HALF_TURN {
        assert(u == 0) by (nonlinear_arith)
            requires
                n == 0 || n == HALF_TURN,
                u == n * (HALF_TURN - n),
        ;
    }
}

/// The sine of any angle stays within `[-UNIT, UNIT]` and vanishes at every
/// multiple of a half turn.
pub proof fn lemma_sine_bounds(nt: int)
    requires
        nt >= 0,
    ensures
        -UNIT <= sine_spec(nt) <= UNIT,
        nt % (TURN as int) == 0 ==> sine_spec(nt) == 0,
{
    let ph = nt % (TURN as int);
    vstd::arithmetic::div_mod::lemma_mod_division_less_than_divisor(nt, TURN as int);
    vstd::arithmetic::div_mod::lemma_mod_decreases(nt as nat, TURN as nat);
    if ph < HALF_TURN {
        lemma_sine_half_bounds(ph);
    } else {
        lemma_sine_half_bounds(ph - HALF_TURN);
    }
}

/// The rising half of the approximation, as executable code.
fn sine_half_val(n: u64) -> (r: u64)
    requires
        n <= HALF_TURN,
    ensures
        r == sine_half_spec(n as int),
        r <= UNIT,
{
    proof {
        lemma_sine_half_bounds(n as int);
        assert(n * (HALF_TURN - n) <= (HALF_TURN as int) * (HALF_TURN as int)) by (nonlinear_arith)
            requires
                0 <= n <= HALF_TURN,
        ;
    }
    let u: u64 = n * (HALF_TURN - n);
    let den: u64 = SINE_D - u;
    let num: u128 = 4u128 * (u as u128) * (UNIT as u128);
    (num / (den as u128)) as u64
}

/// The sine of an angle in nanoturns, scaled by [`UNIT`].
pub fn sine_fp(nt: u64) -> (r: i64)
    ensures
        r == sine_spec(nt as int),
        -UNIT <= r <= UNIT,
{
    proof {
        lemma_sine_bounds(nt as int);
    }
    let ph: u64 = nt % TURN;
    if ph < HALF_TURN {
        sine_half_val(ph) as i64
    } else {
        -(sine_half_val(ph - HALF_TURN) as i64)
    }
}

} // verus!
