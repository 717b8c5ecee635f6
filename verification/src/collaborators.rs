//! The two ledgers the engine works against, and the calls it makes on them.
//!
//! Both belong to the host. The engine only ever places a hold on an asset or
//! on an amount, lifts one, or asks for a transfer.

use crate::primitives::{AccountId, Balance, ClassId, CurrencyId, DispatchResult, TokenId};
use vstd::prelude::*;

verus! {

/// A ledger of several fungible currencies in which amounts can be put on hold.
///
/// Each call has a model beside it: a spec function that gives, for the ledger
/// as it stands and the arguments of the call, the ledger afterwards and, where
/// the call can be refused, its answer. An implementation states in that
/// function what its call does. The engine's contracts are written over these
/// models, so they hold of every ledger whose calls keep to their own.
pub trait MultiReservableCurrency: Sized {
    /// The model of [`reserve`](Self::reserve).
    open spec fn reserve_spec(&self, currency_id: CurrencyId, who: AccountId, value: Balance) -> (
        Self,
        DispatchResult,
    ) {
        arbitrary()
    }

    /// The model of [`unreserve`](Self::unreserve).
    open spec fn unreserve_spec(
        &self,
        currency_id: CurrencyId,
        who: AccountId,
        value: Balance,
    ) -> Self {
        arbitrary()
    }

    /// The model of [`transfer`](Self::transfer).
    open spec fn transfer_spec(
        &self,
        currency_id: CurrencyId,
        from: AccountId,
        to: AccountId,
        amount: Balance,
    ) -> (Self, DispatchResult) {
        arbitrary()
    }

    /// Puts `value` of `who`'s free balance on hold, or refuses.
    fn reserve(&mut self, currency_id: CurrencyId, who: AccountId, value: Balance) -> (answer:
        DispatchResult)
        ensures
            (*final(self), answer) == old(self).reserve_spec(currency_id, who, value),
    ;

    /// Lifts the hold on up to `value` of `who`'s balance. It cannot be refused.
    fn unreserve(&mut self, currency_id: CurrencyId, who: AccountId, value: Balance)
        ensures
            *final(self) == old(self).unreserve_spec(currency_id, who, value),
    ;

    /// Moves `amount` from `from` to `to`, or refuses.
    fn transfer(
        &mut self,
        currency_id: CurrencyId,
        from: AccountId,
        to: AccountId,
        amount: Balance,
    ) -> (answer: DispatchResult)
        ensures
            (*final(self), answer) == old(self).transfer_spec(currency_id, from, to, amount),
    ;
}

/// A registry of non-fungible assets in which an asset can be put on hold.
///
/// As in [`MultiReservableCurrency`], each call has its model beside it.
pub trait NFT: Sized {
    /// The model of [`reserve`](Self::reserve).
    open spec fn reserve_spec(&self, who: AccountId, token: (ClassId, TokenId)) -> (
        Self,
        DispatchResult,
    ) {
        arbitrary()
    }

    /// The model of [`unreserve`](Self::unreserve).
    open spec fn unreserve_spec(&self, who: AccountId, token: (ClassId, TokenId)) -> (
        Self,
        DispatchResult,
    ) {
        arbitrary()
    }

    /// The model of [`transfer`](Self::transfer).
    open spec fn transfer_spec(&self, from: AccountId, to: AccountId, token: (ClassId, TokenId)) -> (
        Self,
        DispatchResult,
    ) {
        arbitrary()
    }

    /// Puts `who`'s asset `token` on hold, or refuses.
    fn reserve(&mut self, who: AccountId, token: (ClassId, TokenId)) -> (answer: DispatchResult)
        ensures
            (*final(self), answer) == old(self).reserve_spec(who, token),
    ;

    /// Lifts the hold on `who`'s asset `token`, or refuses.
    fn unreserve(&mut self, who: AccountId, token: (ClassId, TokenId)) -> (answer: DispatchResult)
        ensures
            (*final(self), answer) == old(self).unreserve_spec(who, token),
    ;

    /// Hands the asset `token` from `from` to `to`, or refuses.
    fn transfer(&mut self, from: AccountId, to: AccountId, token: (ClassId, TokenId)) -> (answer:
        DispatchResult)
        ensures
            (*final(self), answer) == old(self).transfer_spec(from, to, token),
    ;
}

/// One call on a collaborator, with its arguments.
#[derive(Clone, Copy, Debug, PartialEq, Eq)]
pub enum Call {
    /// [`NFT::unreserve`]
    AssetUnreserve { who: AccountId, token: (ClassId, TokenId) },
    /// [`NFT::transfer`]
    AssetTransfer { from: AccountId, to: AccountId, token: (ClassId, TokenId) },
    /// [`MultiReservableCurrency::unreserve`]
    CurrencyUnreserve { currency_id: CurrencyId, who: AccountId, value: Balance },
    /// [`MultiReservableCurrency::transfer`]
    CurrencyTransfer { currency_id: CurrencyId, from: AccountId, to: AccountId, amount: Balance },
}

/// The two ledgers after `call`, and its answer.
pub open spec fn perform_spec<C: MultiReservableCurrency, N: NFT>(
    currency: C,
    nft: N,
    call: Call,
) -> (C, N, DispatchResult) {
    match call {
        Call::AssetUnreserve { who, token } => {
            let (after, answer) = nft.unreserve_spec(who, token);
            (currency, after, answer)
        },
        Call::AssetTransfer { from, to, token } => {
            let (after, answer) = nft.transfer_spec(from, to, token);
            (currency, after, answer)
        },
        Call::CurrencyUnreserve { currency_id, who, value } => (
            currency.unreserve_spec(currency_id, who, value),
            nft,
            Ok(()),
        ),
        Call::CurrencyTransfer { currency_id, from, to, amount } => {
            let (after, answer) = currency.transfer_spec(currency_id, from, to, amount);
            (after, nft, answer)
        },
    }
}

/// The two ledgers after the calls of `calls` were made in order up to the
/// first that was refused, and the reason of that one, or `Ok` where none was.
pub open spec fn perform_all_spec<C: MultiReservableCurrency, N: NFT>(
    currency: C,
    nft: N,
    calls: Seq<Call>,
) -> (C, N, DispatchResult)
    decreases calls.len(),
{
    if calls.len() == 0 {
        (currency, nft, Ok(()))
    } else {
        let (c, n, answer) = perform_spec(currency, nft, calls[0]);
        if answer is Err {
            (c, n, answer)
        } else {
            perform_all_spec(c, n, calls.drop_first())
        }
    }
}

/// Makes one call on the ledger it names.
pub fn perform<C: MultiReservableCurrency, N: NFT>(currency: &mut C, nft: &mut N, call: Call) -> (answer:
    DispatchResult)
    ensures
        (*final(currency), *final(nft), answer) == perform_spec(*old(currency), *old(nft), call),
{
    match call {
        Call::AssetUnreserve { who, token } => nft.unreserve(who, token),
        Call::AssetTransfer { from, to, token } => nft.transfer(from, to, token),
        Call::CurrencyUnreserve { currency_id, who, value } => {
            currency.unreserve(currency_id, who, value);
            Ok(())
        },
        Call::CurrencyTransfer { currency_id, from, to, amount } => currency.transfer(
            currency_id,
            from,
            to,
            amount,
        ),
    }
}

/// Makes the calls of `calls` in order and stops at the first that is refused.
pub fn perform_all<C: MultiReservableCurrency, N: NFT>(
    currency: &mut C,
    nft: &mut N,
    calls: &Vec<Call>,
) -> (answer: DispatchResult)
    ensures
        (*final(currency), *final(nft), answer) == perform_all_spec(
            *old(currency),
            *old(nft),
            calls@,
        ),
{
    let mut i: usize = 0;
    assert(calls@.skip(0) == calls@);
    while i < calls.len()
        invariant
            i <= calls.len(),
            perform_all_spec(*old(currency), *old(nft), calls@) == perform_all_spec(
                *currency,
                *nft,
                calls@.skip(i as int),
            ),
        decreases calls.len() - i,
    {
        let ghost rest = calls@.skip(i as int);
        assert(rest[0] == calls@[i as int]);
        assert(rest.drop_first() == calls@.skip(i + 1));
        let answer = perform(currency, nft, calls[i]);
        if answer.is_err() {
            return answer;
        }
        i += 1;
    }
    Ok(())
}

} // verus!
