//! The engine: its tables and its five operations.

use crate::collaborators::{perform_all, perform_all_spec, Call, MultiReservableCurrency, NFT};
use crate::details::AuctionDetails;
use crate::primitives::{
    saturating_add, zero, AccountId, AuctionId, Balance, BlockNumber, CallError, ClassId,
    CurrencyId, Error, MaxAuction, TokenId,
};
use crate::state::{Event, State};
use core::marker::PhantomData;
use std::collections::BTreeMap;
use vstd::prelude::*;

verus! {

/// What the host settles once for an engine: its two ledgers and the cap on
/// the auctions that may expire at one tick.
pub trait Config {
    /// The currency ledger.
    type Currency: MultiReservableCurrency;

    /// The asset registry.
    type NFT: NFT;

    /// The model of [`max_auction`](Self::max_auction).
    open spec fn spec_max_auction() -> MaxAuction {
        arbitrary()
    }

    /// The most auctions that may expire at one tick.
    fn max_auction() -> (cap: MaxAuction)
        ensures
            cap == Self::spec_max_auction(),
    ;
}

/// The auction engine of a host configured by `T`.
pub struct Pallet<T: Config> {
    next_auction_id: AuctionId,
    auction_winner: BTreeMap<AuctionId, (AccountId, Balance)>,
    auction: BTreeMap<AuctionId, AuctionDetails>,
    auction_end_at: BTreeMap<BlockNumber, Vec<AuctionId>>,
    events: Vec<Event>,
    config: PhantomData<T>,
}

impl<T: Config> View for Pallet<T> {
    type V = State;

    closed spec fn view(&self) -> State {
        State {
            next_auction_id: self.next_auction_id,
            auctions: self.auction@,
            winners: self.auction_winner@,
            end_at: Map::new(
                |at: BlockNumber| self.auction_end_at@.contains_key(at),
                |at: BlockNumber| self.auction_end_at@[at]@,
            ),
            events: self.events@,
        }
    }
}

impl<T: Config> Pallet<T> {
    /// Whether the engine's tables are tied together as [`State::wf`] says and
    /// no tick lists more identifiers than the host's cap allows. Every
    /// operation keeps it so.
    pub open spec fn wf(&self) -> bool {
        &&& self@.wf()
        &&& self@.bounded(T::spec_max_auction())
    }

    /// An engine that has done nothing yet.
    pub fn new() -> (pallet: Self)
        ensures
            pallet@ == State::empty(),
            pallet.wf(),
    {
        let pallet = Pallet {
            next_auction_id: 0,
            auction_winner: BTreeMap::new(),
            auction: BTreeMap::new(),
            auction_end_at: BTreeMap::new(),
            events: Vec::new(),
            config: PhantomData,
        };
        assert(pallet@ =~= State::empty());
        pallet
    }

    /// The number of identifiers listed in the expiry index at tick `at`.
    fn count_end_at(&self, at: BlockNumber) -> (count: usize)
        ensures
            count == self@.scheduled(at).len(),
    {
        match self.auction_end_at.get(&at) {
            Some(bucket) => bucket.len(),
            None => 0,
        }
    }

    /// Lists `id` last at tick `at` in the expiry index.
    fn push_end_at(&mut self, at: BlockNumber, id: AuctionId)
        ensures
            final(self)@ == (State {
                end_at: old(self)@.end_at.insert(at, old(self)@.scheduled(at).push(id)),
                ..old(self)@
            }),
    {
        let mut bucket = match self.auction_end_at.remove(&at) {
            Some(bucket) => bucket,
            None => Vec::new(),
        };
        bucket.push(id);
        self.auction_end_at.insert(at, bucket);
        assert(self@.end_at =~= old(self)@.end_at.insert(at, old(self)@.scheduled(at).push(id)));
    }

    /// Creates an auction of `origin`'s asset `token0` for bids in `token1` of
    /// at least `min1`. It becomes active at the tick after `now` and expires
    /// `duration` ticks later.
    ///
    /// The request is refused with `InvalidDuration` where `duration` is 0 and
    /// with `ExceedMaxAuction` where the expiry tick already lists as many
    /// identifiers as the cap allows; the registry is then not asked. Else the
    /// registry is asked to put the asset on hold. Where it refuses, its
    /// reason is returned and nothing is recorded.
    pub fn create_auction(
        &mut self,
        nft: &mut T::NFT,
        now: BlockNumber,
        origin: AccountId,
        token0: (ClassId, TokenId),
        token1: CurrencyId,
        min1: Balance,
        duration: BlockNumber,
    ) -> (result: Result<(), CallError>)
        requires
            old(self).wf(),
            old(self)@.next_auction_id < AuctionId::MAX,
        ensures
            final(self).wf(),
            result is Err ==> final(self)@ == old(self)@,
            result is Ok <==> duration > 0 && old(self)@.scheduled(
                State::end_after(now, duration),
            ).len() < T::spec_max_auction() && old(nft).reserve_spec(origin, token0).1 is Ok,
            match old(self)@.create_check(T::spec_max_auction(), now, duration) {
                Some(error) => {
                    &&& result == Err::<(), CallError>(CallError::Pallet(error))
                    &&& final(self)@ == old(self)@
                    &&& *final(nft) == *old(nft)
                },
                None => {
                    let (registry, answer) = old(nft).reserve_spec(origin, token0);
                    &&& *final(nft) == registry
                    &&& match answer {
                        Err(reason) => {
                            &&& result == Err::<(), CallError>(CallError::Collaborator(reason))
                            &&& final(self)@ == old(self)@
                        },
                        Ok(()) => {
                            &&& result == Ok::<(), CallError>(())
                            &&& final(self)@ == old(self)@.created(
                                now,
                                origin,
                                token0,
                                token1,
                                min1,
                                duration,
                            )
                        },
                    }
                },
            },
    {
        if duration <= zero() {
            return Err(CallError::Pallet(Error::InvalidDuration));
        }
        let auction_id = self.next_auction_id;
        let start_at = saturating_add(now, 1);
        let end_at = saturating_add(start_at, duration);
        if self.count_end_at(end_at) >= T::max_auction() as usize {
            return Err(CallError::Pallet(Error::ExceedMaxAuction));
        }
        match nft.reserve(origin, token0) {
            Err(reason) => {
                return Err(CallError::Collaborator(reason));
            },
            Ok(()) => {},
        }
        self.auction.insert(
            auction_id,
            AuctionDetails { creator: origin, winner: None, token0, token1, min1, duration, start_at },
        );
        self.push_end_at(end_at, auction_id);
        self.next_auction_id = saturating_add(auction_id, 1);
        self.events.push(
            Event::AuctionCreated(
                auction_id,
                origin,
                token0,
                token1,
                min1,
                duration,
                start_at,
                end_at,
            ),
        );
        proof {
            let before = old(self)@;
            let after = before.created(now, origin, token0, token1, min1, duration);
            assert(self@ =~= after);
            crate::state::lemma_created_wf(before, now, origin, token0, token1, min1, duration);
            crate::state::lemma_created_bounded(
                before,
                T::spec_max_auction(),
                now,
                origin,
                token0,
                token1,
                min1,
                duration,
            );
        }
        Ok(())
    }

    /// Places `origin`'s bid of `amount1` on `auction_id` at tick `now`.
    ///
    /// The bid is refused with `InvalidBidAmount` where it is under the
    /// auction's least bid or does not pass the leading bid, and with
    /// `AuctionExpired` where `now` is past the expiry tick; the ledger is then
    /// not asked. Else the hold for the leading bidder, if there is one, is
    /// lifted for exactly the amount recorded, and the ledger is asked to put
    /// `amount1` of `origin`'s balance on hold. Where it refuses, its reason is
    /// returned and the record of the leading bid stays as it was. The ledger
    /// has by then lifted the leader's hold: the host runs the call in a
    /// transaction of its own and undoes that with it.
    pub fn bid_auction(
        &mut self,
        currency: &mut T::Currency,
        now: BlockNumber,
        origin: AccountId,
        auction_id: AuctionId,
        amount1: Balance,
    ) -> (result: Result<(), CallError>)
        requires
            old(self).wf(),
        ensures
            final(self).wf(),
            result is Err ==> final(self)@ == old(self)@,
            result is Ok <==> old(self)@.bid_check(now, auction_id, amount1) is None && old(
                self,
            )@.released(*old(currency), auction_id).reserve_spec(
                old(self)@.details(auction_id).token1,
                origin,
                amount1,
            ).1 is Ok,
            match old(self)@.bid_check(now, auction_id, amount1) {
                Some(error) => {
                    &&& result == Err::<(), CallError>(CallError::Pallet(error))
                    &&& final(self)@ == old(self)@
                    &&& *final(currency) == *old(currency)
                },
                None => {
                    let token1 = old(self)@.details(auction_id).token1;
                    let released = old(self)@.released(*old(currency), auction_id);
                    let (ledger, answer) = released.reserve_spec(token1, origin, amount1);
                    &&& *final(currency) == ledger
                    &&& match answer {
                        Err(reason) => {
                            &&& result == Err::<(), CallError>(CallError::Collaborator(reason))
                            &&& final(self)@ == old(self)@
                        },
                        Ok(()) => {
                            &&& result == Ok::<(), CallError>(())
                            &&& final(self)@ == old(self)@.outbid(auction_id, origin, amount1)
                        },
                    }
                },
            },
    {
        let auction = self.auctions(auction_id);
        if amount1 < auction.min1 {
            return Err(CallError::Pallet(Error::InvalidBidAmount));
        }
        if now > auction.end_at() {
            return Err(CallError::Pallet(Error::AuctionExpired));
        }
        match self.current_winners(auction_id) {
            Some((winner, winner_amount1)) => {
                if amount1 <= winner_amount1 {
                    return Err(CallError::Pallet(Error::InvalidBidAmount));
                }
                currency.unreserve(auction.token1, winner, winner_amount1);
            },
            None => {},
        }
        match currency.reserve(auction.token1, origin, amount1) {
            Err(reason) => {
                return Err(CallError::Collaborator(reason));
            },
            Ok(()) => {},
        }
        self.auction_winner.insert(auction_id, (origin, amount1));
        self.events.push(Event::AuctionBid(auction_id, origin, amount1));
        proof {
            assert(self@ =~= old(self)@.outbid(auction_id, origin, amount1));
            crate::state::lemma_outbid_wf(old(self)@, auction_id, origin, amount1);
            crate::state::lemma_bounded_stays(old(self)@, T::spec_max_auction());
        }
        Ok(())
    }

    /// Cancels `auction_id` for `origin` at tick `now`.
    ///
    /// The request is refused with `InvalidCreator` where `origin` did not
    /// create the auction and with `AuctionStarted` where its first active tick
    /// has come; the registry is then not asked. Else the registry is asked to
    /// lift the hold on the asset. Where it refuses, its reason is returned and
    /// the auction stays.
    pub fn cancel_auction(
        &mut self,
        nft: &mut T::NFT,
        now: BlockNumber,
        origin: AccountId,
        auction_id: AuctionId,
    ) -> (result: Result<(), CallError>)
        requires
            old(self).wf(),
        ensures
            final(self).wf(),
            result is Err ==> final(self)@ == old(self)@,
            result is Ok <==> now < old(self)@.details(auction_id).start_at && origin == old(
                self,
            )@.details(auction_id).creator && old(nft).unreserve_spec(
                origin,
                old(self)@.details(auction_id).token0,
            ).1 is Ok,
            result is Ok ==> !final(self)@.auctions.contains_key(auction_id),
            match old(self)@.cancel_check(now, origin, auction_id) {
                Some(error) => {
                    &&& result == Err::<(), CallError>(CallError::Pallet(error))
                    &&& final(self)@ == old(self)@
                    &&& *final(nft) == *old(nft)
                },
                None => {
                    let auction = old(self)@.details(auction_id);
                    let (registry, answer) = old(nft).unreserve_spec(auction.creator, auction.token0);
                    &&& *final(nft) == registry
                    &&& match answer {
                        Err(reason) => {
                            &&& result == Err::<(), CallError>(CallError::Collaborator(reason))
                            &&& final(self)@ == old(self)@
                        },
                        Ok(()) => {
                            &&& result == Ok::<(), CallError>(())
                            &&& final(self)@ == old(self)@.cancelled(auction_id)
                        },
                    }
                },
            },
    {
        let auction = self.auctions(auction_id);
        if origin != auction.creator {
            return Err(CallError::Pallet(Error::InvalidCreator));
        }
        if auction.start_at <= now {
            return Err(CallError::Pallet(Error::AuctionStarted));
        }
        match nft.unreserve(auction.creator, auction.token0) {
            Err(reason) => {
                return Err(CallError::Collaborator(reason));
            },
            Ok(()) => {},
        }
        self.auction.remove(&auction_id);
        self.events.push(Event::AuctionCancelled(auction_id));
        proof {
            assert(self@ =~= old(self)@.cancelled(auction_id));
            crate::state::lemma_cancelled_wf(old(self)@, auction_id);
            crate::state::lemma_bounded_stays(old(self)@, T::spec_max_auction());
        }
        Ok(())
    }

    /// The identifier the next auction will get.
    pub fn next_auction_id(&self) -> (id: AuctionId)
        ensures
            id == self@.next_auction_id,
    {
        self.next_auction_id
    }

    /// The terms stored under `auction_id`, or the all-zero terms where none
    /// are.
    pub fn auctions(&self, auction_id: AuctionId) -> (details: AuctionDetails)
        ensures
            details == self@.details(auction_id),
    {
        match self.auction.get(&auction_id) {
            Some(details) => *details,
            None => AuctionDetails::default(),
        }
    }

    /// The leading bid on `auction_id`: the bidder and the amount held for
    /// them.
    pub fn current_winners(&self, auction_id: AuctionId) -> (leading: Option<(AccountId, Balance)>)
        ensures
            leading == if self@.winners.contains_key(auction_id) {
                Some(self@.winners[auction_id])
            } else {
                None
            },
    {
        match self.auction_winner.get(&auction_id) {
            Some(leading) => Some(*leading),
            None => None,
        }
    }

    /// Whether the expiry index lists `auction_id` at tick `at`.
    pub fn auction_end_at(&self, at: BlockNumber, auction_id: AuctionId) -> (entry: Option<()>)
        ensures
            entry is Some <==> self@.scheduled(at).contains(auction_id),
    {
        match self.auction_end_at.get(&at) {
            None => None,
            Some(bucket) => {
                let mut i: usize = 0;
                while i < bucket.len()
                    invariant
                        i <= bucket.len(),
                        bucket@ == self@.scheduled(at),
                        forall|j: int| 0 <= j < i ==> bucket@[j] != auction_id,
                    decreases bucket.len() - i,
                {
                    if bucket[i] == auction_id {
                        return Some(());
                    }
                    i += 1;
                }
                None
            },
        }
    }

    /// Hands out the notifications gathered since the last call, oldest first.
    pub fn take_events(&mut self) -> (events: Vec<Event>)
        ensures
            events@ == old(self)@.events,
            final(self)@ == (State { events: Seq::empty(), ..old(self)@ }),
            old(self).wf() ==> final(self).wf(),
    {
        let mut events = Vec::new();
        core::mem::swap(&mut events, &mut self.events);
        proof {
            assert(self@ =~= (State { events: Seq::empty(), ..old(self)@ }));
            if old(self).wf() {
                crate::state::lemma_events_apart(old(self)@, self@, T::spec_max_auction());
            }
        }
        events
    }

    /// Adds to `calls` the calls that settle `auction_id`.
    fn push_settle_calls_of(&self, auction_id: AuctionId, calls: &mut Vec<Call>)
        ensures
            final(calls)@ == old(calls)@ + self@.settle_calls_of(auction_id),
    {
        match self.auction.get(&auction_id) {
            None => {},
            Some(auction) => {
                calls.push(Call::AssetUnreserve { who: auction.creator, token: auction.token0 });
                match self.auction_winner.get(&auction_id) {
                    None => {},
                    Some(leading) => {
                        let (winner, amount) = *leading;
                        calls.push(
                            Call::CurrencyUnreserve {
                                currency_id: auction.token1,
                                who: winner,
                                value: amount,
                            },
                        );
                        calls.push(
                            Call::CurrencyTransfer {
                                currency_id: auction.token1,
                                from: winner,
                                to: auction.creator,
                                amount,
                            },
                        );
                        calls.push(
                            Call::AssetTransfer {
                                from: auction.creator,
                                to: winner,
                                token: auction.token0,
                            },
                        );
                    },
                }
            },
        }
        assert(calls@ =~= old(calls)@ + self@.settle_calls_of(auction_id));
    }

    /// The calls that settlement of tick `now` makes on the two ledgers, in
    /// the order in which it makes them.
    pub fn settlement_calls(&self, now: BlockNumber) -> (calls: Vec<Call>)
        ensures
            calls@ == self@.settlement_calls(now),
    {
        let mut calls: Vec<Call> = Vec::new();
        match self.auction_end_at.get(&now) {
            None => {},
            Some(ids) => {
                let mut i: usize = 0;
                while i < ids.len()
                    invariant
                        i <= ids.len(),
                        ids@ == self@.scheduled(now),
                        calls@ == self@.settle_calls(ids@.take(i as int)),
                    decreases ids.len() - i,
                {
                    proof {
                        assert(ids@.take(i + 1) == ids@.take(i as int).push(ids@[i as int]));
                        crate::state::lemma_settle_calls_push(
                            self@,
                            ids@.take(i as int),
                            ids@[i as int],
                        );
                    }
                    self.push_settle_calls_of(ids[i], &mut calls);
                    i += 1;
                }
                assert(ids@.take(ids.len() as int) == ids@);
            },
        }
        calls
    }

    /// Takes tick `now` out of the expiry index and settles in the tables each
    /// auction that was listed there.
    fn settle(&mut self, now: BlockNumber)
        requires
            old(self).wf(),
        ensures
            final(self)@ == old(self)@.settled(now),
            final(self).wf(),
    {
        let ids = match self.auction_end_at.remove(&now) {
            Some(ids) => ids,
            None => Vec::new(),
        };
        let ghost base = self@;
        assert(base =~= (State { end_at: old(self)@.end_at.remove(now), ..old(self)@ }));
        let mut i: usize = 0;
        while i < ids.len()
            invariant
                i <= ids.len(),
                self@ == base.settle_all(ids@.take(i as int)),
            decreases ids.len() - i,
        {
            assert(ids@.take(i + 1).drop_last() == ids@.take(i as int));
            let ghost before = self@;
            let auction_id = ids[i];
            match self.auction.remove(&auction_id) {
                None => {
                    assert(self@ =~= before.settle_one(auction_id));
                },
                Some(_) => {
                    let event = match self.auction_winner.remove(&auction_id) {
                        Some((winner, amount)) => Event::AuctionEnd(
                            auction_id,
                            Some(winner),
                            Some(amount),
                        ),
                        None => Event::AuctionEnd(auction_id, None, None),
                    };
                    self.events.push(event);
                    assert(self@ =~= before.settle_one(auction_id));
                },
            }
            i += 1;
        }
        proof {
            assert(ids@.take(ids.len() as int) == ids@);
            assert(old(self)@.scheduled(now).no_duplicates());
            crate::state::lemma_settle_all(base, ids@);
            assert(self@ =~= old(self)@.settled(now));
            crate::state::lemma_settled_wf(old(self)@, now);
            crate::state::lemma_bounded_stays(old(self)@, T::spec_max_auction());
        }
    }

    /// Settles tick `now`: every auction listed in the expiry index at that
    /// tick, in the order of the list.
    ///
    /// The calls of [`settlement_calls`](Self::settlement_calls) are made in
    /// order. Where one is refused, its reason is returned and the tables stay
    /// as they were, the entries of the tick included. The calls made before it
    /// stand in the ledgers: the host runs settlement in a transaction of its
    /// own and undoes them with it. Where none is refused, the entries leave
    /// the index, each auction among them leaves the tables with its leading
    /// bid, and its end is notified.
    pub fn on_finalize(
        &mut self,
        currency: &mut T::Currency,
        nft: &mut T::NFT,
        now: BlockNumber,
    ) -> (result: Result<(), CallError>)
        requires
            old(self).wf(),
        ensures
            final(self).wf(),
            result is Err ==> final(self)@ == old(self)@,
            ({
                let (ledger, registry, answer) = perform_all_spec(
                    *old(currency),
                    *old(nft),
                    old(self)@.settlement_calls(now),
                );
                &&& *final(currency) == ledger
                &&& *final(nft) == registry
                &&& match answer {
                    Err(reason) => {
                        &&& result == Err::<(), CallError>(CallError::Collaborator(reason))
                        &&& final(self)@ == old(self)@
                    },
                    Ok(()) => {
                        &&& result == Ok::<(), CallError>(())
                        &&& final(self)@ == old(self)@.settled(now)
                    },
                }
            }),
    {
        let calls = self.settlement_calls(now);
        match perform_all(currency, nft, &calls) {
            Err(reason) => Err(CallError::Collaborator(reason)),
            Ok(()) => {
                self.settle(now);
                Ok(())
            },
        }
    }
}

} // verus!
