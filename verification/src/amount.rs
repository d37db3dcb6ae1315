use cosmwasm_std::Uint128;
use vstd::prelude::*;

verus! {

/// Adds two amounts with `Uint128`'s `+` operator of `cosmwasm_std`.
///
/// Trusted: the operator returns the exact sum. It aborts when the sum does
/// not fit in 128 bits, which the precondition rules out.
#[verifier::external_body]
pub(crate) fn amount_add(a: u128, b: u128) -> (sum: u128)
    requires
        a + b <= u128::MAX,
    ensures
        sum == a + b,
{
    (Uint128::new(a) + Uint128::new(b)).u128()
}

/// Multiplies two amounts with `Uint128`'s `*` operator of `cosmwasm_std`.
///
/// Trusted: the operator returns the exact product. It aborts when the
/// product does not fit in 128 bits, which the precondition rules out.
#[verifier::external_body]
pub(crate) fn amount_mul(a: u128, b: u128) -> (product: u128)
    requires
        a * b <= u128::MAX,
    ensures
        product == a * b,
{
    (Uint128::new(a) * Uint128::new(b)).u128()
}

/// Subtracts with `Uint128::checked_sub` of `cosmwasm_std`.
///
/// Trusted: the call gives the exact difference when `b` is not more than
/// `a`, and its overflow error, handed on here as `None`, otherwise.
#[verifier::external_body]
pub(crate) fn amount_checked_sub(a: u128, b: u128) -> (difference: Option<u128>)
    ensures
        difference == (if b <= a { Some((a - b) as u128) } else { None }),
{
    match Uint128::new(a).checked_sub(Uint128::new(b)) {
        Ok(d) => Some(d.u128()),
        Err(_) => None,
    }
}

/// Subtracts with `Uint128::saturating_sub` of `cosmwasm_std`.
///
/// Trusted: the call gives the exact difference when `b` is not more than
/// `a`, and zero otherwise.
#[verifier::external_body]
pub(crate) fn amount_saturating_sub(a: u128, b: u128) -> (difference: u128)
    ensures
        difference == (if b <= a { (a - b) as u128 } else { 0u128 }),
{
    Uint128::new(a).saturating_sub(Uint128::new(b)).u128()
}

/// What is left of `owed` once `paid` has come in, never below zero.
pub open spec fn remaining_of(owed: u128, paid: u128) -> u128 {
    if paid <= owed {
        (owed - paid) as u128
    } else {
        0
    }
}

} // verus!
