//! The fee engine: how a gross amount splits into the platform fee, the
//! transaction fee and the net amount.

use vstd::prelude::*;

use crate::amount::{checked_mul, checked_sub};
use crate::error::QueryError;
use crate::state::FeeDetails;

verus! {

/// The rate that stands for the whole amount. A rate is a count of
/// hundredths of a percent: 250 takes 2.5% of the amount.
pub const HUNDRED_PERCENT: u128 = 10_000;

/// The fee that `rate` takes from `amount`, rounded down.
pub open spec fn fee_share(amount: u128, rate: u128) -> int {
    (amount * rate) / (HUNDRED_PERCENT as int)
}

/// Whether the fees of `amount` can be computed: neither product leaves the
/// integer range, and the two fees together do not exceed the amount.
pub open spec fn fees_fit(amount: u128, platform_rate: u128, transaction_rate: u128) -> bool {
    &&& amount * platform_rate <= u128::MAX
    &&& amount * transaction_rate <= u128::MAX
    &&& fee_share(amount, platform_rate) + fee_share(amount, transaction_rate) <= amount
}

/// What the fee engine answers for `amount` at the two rates: the split when
/// the fees fit, an overflow when they do not.
pub open spec fn fees_of(amount: u128, platform_rate: u128, transaction_rate: u128) -> Result<
    FeeDetails,
    QueryError,
> {
    if fees_fit(amount, platform_rate, transaction_rate) {
        let platform = fee_share(amount, platform_rate);
        let transaction = fee_share(amount, transaction_rate);
        Ok(
            FeeDetails {
                platform_fee_amount: platform as u128,
                transaction_fee_amount: transaction as u128,
                net_amount: (amount - platform - transaction) as u128,
            },
        )
    } else {
        Err(QueryError::Overflow)
    }
}

/// Splits `amount` into its platform fee, its transaction fee and the rest.
///
/// The three parts always add up to `amount`. The call fails with `Overflow`
/// exactly when `fees_fit` does not hold; fees that exceed the amount are
/// reported and never clamped.
pub fn compute_fees(amount: u128, platform_rate: u128, transaction_rate: u128) -> (r: Result<
    FeeDetails,
    QueryError,
>)
    ensures
        r == fees_of(amount, platform_rate, transaction_rate),
        r matches Ok(fees) ==> fees.platform_fee_amount + fees.transaction_fee_amount
            + fees.net_amount == amount,
{
    let platform_fee_amount: u128 = match checked_mul(amount, platform_rate) {
        Ok(product) => product / HUNDRED_PERCENT,
        Err(e) => {
            return Err(e);
        },
    };
    let transaction_fee_amount: u128 = match checked_mul(amount, transaction_rate) {
        Ok(product) => product / HUNDRED_PERCENT,
        Err(e) => {
            return Err(e);
        },
    };
    match checked_sub(amount, platform_fee_amount + transaction_fee_amount) {
        Ok(net_amount) => Ok(FeeDetails { platform_fee_amount, transaction_fee_amount, net_amount }),
        Err(e) => Err(e),
    }
}

} // verus!
