use vstd::prelude::*;
use crate::decimal::{
    lemma_pow10_grows, lemma_pow10_step, lemma_pow10_sum, pow10, round_scaled, scaled, Amount, PLACES,
};
use crate::magnitude::{gap_sign, Sign};

verus! {

/// Smallest units in one unit of the native currency.
pub const LAMPORTS_PER_SOL: u64 = 1_000_000_000;

/// Decimal places of the native currency that its smallest unit stands at.
pub const LAMPORT_PLACES: u16 = 9;

/// Largest amount, in units of the native currency, that may be spent on
/// one purchase.
pub const MAX_SOL_PER_BUY: u64 = 1000;

/// Why an amount was not converted.
#[derive(Debug, Clone, Copy, PartialEq, Eq)]
pub enum AmountError {
    /// The amount is negative or above the largest purchase allowed.
    OutOfSafeRange,
}

/// The amount lies between nothing and the largest purchase allowed, both
/// included. The amount is compared as it stands: nothing is rounded.
pub open spec fn in_safe_range(sol: Amount) -> bool {
    0 <= sol.units() <= MAX_SOL_PER_BUY * pow10(PLACES as nat)
}

/// The amount in smallest units, rounded to the nearest, a half rounding
/// up.
pub open spec fn nearest_lamports(sol: Amount) -> nat {
    scaled(sol.mantissa as nat, sol.shift - PLACES + LAMPORT_PLACES)
}

/// The smallest units that an amount of native currency stands for, where
/// the amount lies in the safe range.
pub open spec fn lamports_of(sol: Amount) -> Result<u64, AmountError> {
    if in_safe_range(sol) {
        Ok(nearest_lamports(sol) as u64)
    } else {
        Err(AmountError::OutOfSafeRange)
    }
}

/// An amount in the safe range comes to no more smallest units than the
/// largest purchase does.
pub proof fn lemma_safe_amount_fits(sol: Amount)
    requires
        in_safe_range(sol),
    ensures
        nearest_lamports(sol) <= MAX_SOL_PER_BUY * LAMPORTS_PER_SOL,
{
    let m = sol.mantissa as int;
    let s = sol.shift as nat;
    let k: int = sol.shift - PLACES + LAMPORT_PLACES;
    let low: nat = (PLACES - LAMPORT_PLACES) as nat;
    let top = 1_000_000_000_000int;
    assert(pow10(9) == 1_000_000_000) by {
        reveal_with_fuel(pow10, 10);
    }
    lemma_pow10_sum(low, 9);
    assert(pow10(PLACES as nat) == pow10(low) * pow10(9));
    let unit = pow10(low) as int;
    lemma_pow10_step(low);
    assert(m * pow10(s) <= top * unit) by (nonlinear_arith)
        requires
            m * pow10(s) <= 1000 * pow10(PLACES as nat),
            pow10(PLACES as nat) == unit * 1_000_000_000,
            top == 1_000_000_000_000int,
    ;
    if k >= 0 {
        lemma_pow10_sum(low, k as nat);
        let v = pow10(k as nat) as int;
        assert(pow10(s) == unit * v);
        assert(m * v <= top) by (nonlinear_arith)
            requires
                m * (unit * v) <= top * unit,
                unit >= 1,
        ;
    } else {
        lemma_pow10_sum(s, (-k) as nat);
        let d = pow10((-k) as nat) as int;
        let w = pow10(s) as int;
        lemma_pow10_step(s);
        lemma_pow10_grows(1, (-k) as nat);
        assert(unit == w * d);
        assert(m <= top * d) by (nonlinear_arith)
            requires
                m * w <= top * (w * d),
                w >= 1,
        ;
        assert((m + d / 2) / d <= top) by (nonlinear_arith)
            requires
                m <= top * d,
                d >= 10,
                m >= 0,
        ;
    }
}

/// Converts an amount of native currency to its smallest units, and
/// refuses an amount outside the safe range.
pub fn sol_to_lamports(sol: Amount) -> (r: Result<u64, AmountError>)
    ensures
        r == lamports_of(sol),
{
    let zero = Amount::zero();
    let limit = Amount::whole(MAX_SOL_PER_BUY);
    let below = match gap_sign(sol, zero, zero, zero) {
        Sign::Negative => true,
        _ => false,
    };
    let above = match gap_sign(limit, sol, zero, zero) {
        Sign::Negative => true,
        _ => false,
    };
    if below || above {
        return Err(AmountError::OutOfSafeRange);
    }
    proof {
        lemma_safe_amount_fits(sol);
    }
    let k: i32 = sol.shift as i32 - (PLACES - LAMPORT_PLACES) as i32;
    match round_scaled(sol.mantissa, k) {
        Some(v) => Ok(v as u64),
        None => Err(AmountError::OutOfSafeRange),
    }
}

} // verus!
