//! The numbers the engine works on, its errors, and the arithmetic it takes
//! from the host's runtime library.

use sp_runtime::traits::{Saturating, Zero};
use sp_runtime::DispatchError;
use vstd::prelude::*;

verus! {

/// Identity of an account, as the host has authenticated it.
pub type AccountId = u64;

/// Units of a fungible currency.
pub type Balance = u128;

/// A tick of the host's logical clock.
pub type BlockNumber = u64;

/// Identifier of an auction.
pub type AuctionId = u64;

/// Class of a non-fungible asset.
pub type ClassId = u64;

/// Instance of a non-fungible asset within its class.
pub type TokenId = u64;

/// Identifier of a fungible currency.
pub type CurrencyId = u32;

/// The most auctions that may expire at one tick.
pub type MaxAuction = u32;

/// `sp_runtime::DispatchError`: the reason a collaborator gives for refusing a
/// call. The engine hands it on and never looks inside.
#[verifier::external_type_specification]
#[verifier::external_body]
pub struct ExDispatchError(DispatchError);

/// What a collaborator answers to a call that may be refused.
pub type DispatchResult = Result<(), DispatchError>;

/// The engine's own reasons for refusing a call.
#[derive(Clone, Copy, Debug, PartialEq, Eq, Structural)]
pub enum Error {
    AuctionExpired,
    AuctionStarted,
    InvalidCreator,
    InvalidDuration,
    InvalidBidAmount,
    ExceedMaxAuction,
}

/// Why a call to the engine failed.
#[derive(Clone, Copy, Debug, PartialEq, Eq)]
pub enum CallError {
    /// One of the engine's own checks refused the call.
    Pallet(Error),
    /// A collaborator refused; its reason is handed on as it came.
    Collaborator(DispatchError),
}

/// The sum of two ticks or identifiers, held at the largest value where it
/// would not fit.
pub open spec fn spec_saturating_add(a: u64, b: u64) -> u64 {
    if a + b > u64::MAX {
        u64::MAX
    } else {
        (a + b) as u64
    }
}

/// `sp_runtime::traits::Saturating::saturating_add` on `u64`: the sum of the
/// two numbers, or `u64::MAX` where the sum is larger than that.
#[verifier::external_body]
pub(crate) fn saturating_add(a: u64, b: u64) -> (sum: u64)
    ensures
        sum == spec_saturating_add(a, b),
{
    Saturating::saturating_add(a, b)
}

/// `sp_runtime::traits::Zero::zero` for `u64`: the number 0.
#[verifier::external_body]
pub(crate) fn zero() -> (z: u64)
    ensures
        z == 0,
{
    Zero::zero()
}

} // verus!
