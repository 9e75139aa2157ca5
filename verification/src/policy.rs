//! The reward policy: a pure function from a purchase amount to points.

use vstd::prelude::*;

use crate::errors::Error;

verus! {

/// The global reward configuration: one point per `earn_rate` units of
/// purchase, and no points at all below `min_purchase`.
#[derive(Clone, Copy, Debug, PartialEq, Eq, Structural)]
pub struct RewardRates {
    pub earn_rate: i128,
    pub min_purchase: i128,
}

impl RewardRates {
    /// A valid configuration: a positive divisor and a non-negative floor.
    pub open spec fn wf(self) -> bool {
        &&& self.earn_rate >= 1
        &&& self.min_purchase >= 0
    }
}

/// The points a purchase earns: the purchase amount divided by the rate,
/// rounded toward zero.
pub open spec fn points_for(purchase_amount: int, earn_rate: int) -> int {
    purchase_amount / earn_rate
}

/// What `compute_points` returns for each input.
pub open spec fn compute_points_spec(purchase_amount: i128, rates: RewardRates) -> Result<
    i128,
    Error,
> {
    if purchase_amount <= 0 {
        Err(Error::InvalidAmount)
    } else if purchase_amount < rates.min_purchase {
        Err(Error::BelowMinimum)
    } else if points_for(purchase_amount as int, rates.earn_rate as int) <= 0 {
        Err(Error::NoPointsEarned)
    } else {
        Ok((points_for(purchase_amount as int, rates.earn_rate as int)) as i128)
    }
}

/// Computes the points a purchase earns under the given rates.
///
/// Rejects non-positive purchases, purchases below the configured minimum,
/// and purchases so small that they round down to zero points. Pure: equal
/// inputs give equal results.
pub fn compute_points(purchase_amount: i128, rates: &RewardRates) -> (r: Result<i128, Error>)
    requires
        rates.wf(),
    ensures
        r == compute_points_spec(purchase_amount, *rates),
        r matches Ok(p) ==> 0 < p <= purchase_amount,
{
    if purchase_amount <= 0 {
        return Err(Error::InvalidAmount);
    }
    if purchase_amount < rates.min_purchase {
        return Err(Error::BelowMinimum);
    }
    let points = purchase_amount / rates.earn_rate;
    proof {
        lemma_points_in_range(purchase_amount as int, rates.earn_rate as int);
    }
    if points <= 0 {
        return Err(Error::NoPointsEarned);
    }
    Ok(points)
}

/// Division of a positive amount by a positive rate stays between zero and
/// the amount itself.
proof fn lemma_points_in_range(purchase_amount: int, earn_rate: int)
    requires
        purchase_amount > 0,
        earn_rate >= 1,
    ensures
        0 <= points_for(purchase_amount, earn_rate) <= purchase_amount,
{
    vstd::arithmetic::div_mod::lemma_div_basics_4(purchase_amount, earn_rate);
    vstd::arithmetic::div_mod::lemma_div_basics_5(purchase_amount, earn_rate);
}

} // verus!
