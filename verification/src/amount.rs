//! Checked arithmetic on token amounts.
//!
//! Amounts are plain `u128` values. The arithmetic itself is done by
//! `cosmwasm_std::Uint128`, the integer type that amounts have on chain, so
//! that an overflow is detected exactly where the chain would detect it.

use cosmwasm_std::{OverflowError, Uint128};
use vstd::prelude::*;

use crate::error::QueryError;

verus! {

/// `cosmwasm_std::OverflowError`, the error of `Uint128`'s checked operations.
/// Nothing is read from it: it is only told apart from success.
#[verifier::external_type_specification]
#[verifier::external_body]
pub struct ExOverflowError(cosmwasm_std::OverflowError);

/// Calls `Uint128::checked_add`, which forwards to `u128::checked_add`: the
/// exact sum when it fits in 128 bits, an overflow error when it does not.
#[verifier::external_body]
fn uint128_checked_add(a: u128, b: u128) -> (r: Result<u128, OverflowError>)
    ensures
        r is Ok <==> a + b <= u128::MAX,
        r matches Ok(sum) ==> sum == a + b,
{
    match Uint128::new(a).checked_add(Uint128::new(b)) {
        Ok(sum) => Ok(sum.u128()),
        Err(e) => Err(e),
    }
}

/// Calls `Uint128::checked_sub`, which forwards to `u128::checked_sub`: the
/// exact difference when it is not negative, an overflow error when it is.
#[verifier::external_body]
fn uint128_checked_sub(a: u128, b: u128) -> (r: Result<u128, OverflowError>)
    ensures
        r is Ok <==> b <= a,
        r matches Ok(difference) ==> difference == a - b,
{
    match Uint128::new(a).checked_sub(Uint128::new(b)) {
        Ok(difference) => Ok(difference.u128()),
        Err(e) => Err(e),
    }
}

/// Calls `Uint128::checked_mul`, which forwards to `u128::checked_mul`: the
/// exact product when it fits in 128 bits, an overflow error when it does not.
#[verifier::external_body]
fn uint128_checked_mul(a: u128, b: u128) -> (r: Result<u128, OverflowError>)
    ensures
        r is Ok <==> a * b <= u128::MAX,
        r matches Ok(product) ==> product == a * b,
{
    match Uint128::new(a).checked_mul(Uint128::new(b)) {
        Ok(product) => Ok(product.u128()),
        Err(e) => Err(e),
    }
}

/// The outcome of an operation whose exact result is `exact`: the result
/// itself when it is a `u128`, an overflow otherwise.
pub open spec fn checked(exact: int) -> Result<u128, QueryError> {
    if 0 <= exact <= u128::MAX {
        Ok(exact as u128)
    } else {
        Err(QueryError::Overflow)
    }
}

/// The sum of two amounts, or `Overflow` when it exceeds 128 bits.
pub fn checked_add(a: u128, b: u128) -> (r: Result<u128, QueryError>)
    ensures
        r == checked(a + b),
{
    match uint128_checked_add(a, b) {
        Ok(sum) => Ok(sum),
        Err(_) => Err(QueryError::Overflow),
    }
}

/// The difference of two amounts, or `Overflow` when it would be negative.
pub fn checked_sub(a: u128, b: u128) -> (r: Result<u128, QueryError>)
    ensures
        r == checked(a - b),
{
    match uint128_checked_sub(a, b) {
        Ok(difference) => Ok(difference),
        Err(_) => Err(QueryError::Overflow),
    }
}

/// The product of two amounts, or `Overflow` when it exceeds 128 bits.
pub fn checked_mul(a: u128, b: u128) -> (r: Result<u128, QueryError>)
    ensures
        r == checked(a * b),
{
    assert(0 <= a * b) by (nonlinear_arith)
        requires
            0 <= a,
            0 <= b,
    ;
    match uint128_checked_mul(a, b) {
        Ok(product) => Ok(product),
        Err(_) => Err(QueryError::Overflow),
    }
}

} // verus!
