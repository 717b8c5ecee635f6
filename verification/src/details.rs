//! The terms of one auction.

use crate::primitives::{
    saturating_add, spec_saturating_add, AccountId, Balance, BlockNumber, ClassId, CurrencyId,
    TokenId,
};
use vstd::prelude::*;

verus! {

/// The terms of an auction and, once settled, its winner.
#[derive(Clone, Copy, Debug, PartialEq, Eq)]
pub struct AuctionDetails {
    /// The account that posted the asset.
    pub creator: AccountId,
    /// The settled winner; absent until settlement, and after it where nobody bid.
    pub winner: Option<AccountId>,
    /// The escrowed asset: its class and its instance.
    pub token0: (ClassId, TokenId),
    /// The currency in which bids are made.
    pub token1: CurrencyId,
    /// The least amount a bid may offer.
    pub min1: Balance,
    /// The number of ticks the auction stays open once it is active.
    pub duration: BlockNumber,
    /// The tick at which the auction becomes active.
    pub start_at: BlockNumber,
}

impl AuctionDetails {
    /// The terms read for an identifier under which no auction is stored:
    /// every number 0 and no winner.
    pub open spec fn spec_default() -> AuctionDetails {
        AuctionDetails {
            creator: 0,
            winner: None,
            token0: (0, 0),
            token1: 0,
            min1: 0,
            duration: 0,
            start_at: 0,
        }
    }

    /// The tick at which the auction expires: `start_at + duration`, held at
    /// the largest tick where the sum would pass it.
    pub open spec fn spec_end_at(&self) -> BlockNumber {
        spec_saturating_add(self.start_at, self.duration)
    }

    /// The tick at which the auction expires.
    pub fn end_at(&self) -> (end: BlockNumber)
        ensures
            end == self.spec_end_at(),
    {
        saturating_add(self.start_at, self.duration)
    }
}

impl Default for AuctionDetails {
    fn default() -> (details: AuctionDetails)
        ensures
            details == AuctionDetails::spec_default(),
    {
        AuctionDetails {
            creator: 0,
            winner: None,
            token0: (0, 0),
            token1: 0,
            min1: 0,
            duration: 0,
            start_at: 0,
        }
    }
}

} // verus!
