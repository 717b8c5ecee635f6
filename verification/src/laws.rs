//! What holds of the engine whatever it is asked, stated over [`State`].

use crate::collaborators::{Call, MultiReservableCurrency};
use crate::primitives::{
    AccountId, AuctionId, Balance, BlockNumber, ClassId, CurrencyId, MaxAuction, TokenId,
};
use crate::state::{lemma_created_wf, lemma_settle_calls_push, lemma_settled_wf, Event, State};
use vstd::prelude::*;

verus! {

/// A new auction expires `duration` ticks after it becomes active, and the
/// expiry index lists it once, at that tick and at no other.
///
/// The auction gets the identifier that was next, which nothing used before,
/// and the next identifier is one higher. It becomes active at the tick after
/// `now`. The difference between expiry and first active tick is `duration`
/// wherever `now + 1 + duration` is a tick; beyond the last tick both are
/// held at it.
pub proof fn law_created_auction_is_listed_once(
    s: State,
    cap: MaxAuction,
    now: BlockNumber,
    creator: AccountId,
    token0: (ClassId, TokenId),
    token1: CurrencyId,
    min1: Balance,
    duration: BlockNumber,
)
    requires
        s.wf(),
        s.next_auction_id < AuctionId::MAX,
        s.create_check(cap, now, duration) is None,
    ensures
        ({
            let t = s.created(now, creator, token0, token1, min1, duration);
            let id = s.next_auction_id;
            let end_at = t.auctions[id].spec_end_at();
            &&& !s.auctions.contains_key(id)
            &&& forall|at: BlockNumber| !s.listed(at, id)
            &&& t.next_auction_id == id + 1
            &&& t.auctions.contains_key(id)
            &&& t.auctions[id].start_at == State::start_after(now)
            &&& now < BlockNumber::MAX ==> t.auctions[id].start_at == now + 1
            &&& now + 1 + duration <= BlockNumber::MAX ==> end_at - t.auctions[id].start_at
                == duration
            &&& forall|at: BlockNumber| t.listed(at, id) <==> at == end_at
            &&& t.scheduled(end_at).no_duplicates()
            &&& t.scheduled(end_at).last() == id
            &&& t.scheduled(end_at).len() == s.scheduled(end_at).len() + 1
            &&& t.scheduled(end_at).len() <= cap
        }),
{
    let t = s.created(now, creator, token0, token1, min1, duration);
    let id = s.next_auction_id;
    let end_at = State::end_after(now, duration);
    lemma_created_wf(s, now, creator, token0, token1, min1, duration);
    assert(t.auctions[id].spec_end_at() == end_at);
    assert forall|at: BlockNumber| !s.listed(at, id) by {
        if s.listed(at, id) {
            assert(id < s.next_auction_id);
        }
    }
    assert(t.scheduled(end_at) == s.scheduled(end_at).push(id));
    assert forall|at: BlockNumber| t.listed(at, id) <==> at == end_at by {
        if at == end_at {
            assert(t.scheduled(end_at)[s.scheduled(end_at).len() as int] == id);
        } else {
            assert(t.scheduled(at) == s.scheduled(at));
            assert(!s.listed(at, id));
        }
    }
}

/// A bid that takes the lead replaces the record of the leading bid: the
/// auction then has one record, which holds the new bidder and the new amount,
/// and the records of all other auctions are as before.
pub proof fn law_leading_bid_is_replaced(
    s: State,
    id: AuctionId,
    bidder: AccountId,
    amount: Balance,
)
    ensures
        ({
            let t = s.outbid(id, bidder, amount);
            &&& t.winners.dom() == s.winners.dom().insert(id)
            &&& t.winners[id] == (bidder, amount)
            &&& forall|other: AuctionId|
                other != id && s.winners.contains_key(other) ==> t.winners[other]
                    == s.winners[other]
            &&& t.auctions == s.auctions
            &&& t.end_at == s.end_at
        }),
{
    let t = s.outbid(id, bidder, amount);
    assert(t.winners.dom() =~= s.winners.dom().insert(id));
}

/// The hold that is lifted for a leading bid is the hold that was placed for
/// it. A bid that takes the lead on a stored auction has `amount` of the
/// bidder's balance put on hold in the auction's currency. As long as it
/// leads, the next bid that passes it lifts a hold of that amount for that
/// bidder in that currency, and so does settlement, which then moves that
/// amount to the creator.
pub proof fn law_hold_lifted_is_hold_placed<C: MultiReservableCurrency>(
    s: State,
    id: AuctionId,
    bidder: AccountId,
    amount: Balance,
    currency: C,
)
    requires
        s.auctions.contains_key(id),
    ensures
        ({
            let t = s.outbid(id, bidder, amount);
            let auction = s.auctions[id];
            &&& t.details(id) == auction
            &&& t.released(currency, id) == currency.unreserve_spec(auction.token1, bidder, amount)
            &&& t.settle_calls_of(id).len() == 4
            &&& t.settle_calls_of(id)[1] == Call::CurrencyUnreserve {
                currency_id: auction.token1,
                who: bidder,
                value: amount,
            }
            &&& t.settle_calls_of(id)[2] == Call::CurrencyTransfer {
                currency_id: auction.token1,
                from: bidder,
                to: auction.creator,
                amount,
            }
        }),
{
}

/// One attempt to bid on an auction: the tick, the bidder, the amount, and
/// whether the currency ledger agreed to put the amount on hold.
pub struct BidAttempt {
    pub now: BlockNumber,
    pub bidder: AccountId,
    pub amount: Balance,
    pub granted: bool,
}

impl State {
    /// Whether `attempt` takes the lead on `id`: the engine's checks pass and
    /// the ledger agrees.
    pub open spec fn accepts(self, id: AuctionId, attempt: BidAttempt) -> bool {
        self.bid_check(attempt.now, id, attempt.amount) is None && attempt.granted
    }

    /// The state after `attempt` on `id`: unchanged where it is not accepted.
    pub open spec fn after_attempt(self, id: AuctionId, attempt: BidAttempt) -> State {
        if self.accepts(id, attempt) {
            self.outbid(id, attempt.bidder, attempt.amount)
        } else {
            self
        }
    }

    /// The state after the attempts of `attempts` on `id`, made in order.
    pub open spec fn after_attempts(self, id: AuctionId, attempts: Seq<BidAttempt>) -> State
        decreases attempts.len(),
    {
        if attempts.len() == 0 {
            self
        } else {
            self.after_attempts(id, attempts.drop_last()).after_attempt(id, attempts.last())
        }
    }
}

/// After attempts of which the one at `i` was accepted, the auction has a
/// leading bid of at least that amount.
proof fn lemma_lead_never_falls(s: State, id: AuctionId, attempts: Seq<BidAttempt>, i: int)
    requires
        0 <= i < attempts.len(),
        s.after_attempts(id, attempts.take(i)).accepts(id, attempts[i]),
    ensures
        s.after_attempts(id, attempts).winners.contains_key(id),
        s.after_attempts(id, attempts).winners[id].1 >= attempts[i].amount,
        s.after_attempts(id, attempts).auctions == s.auctions,
    decreases attempts.len(),
{
    lemma_attempts_keep_auctions(s, id, attempts);
    let front = attempts.drop_last();
    if i == attempts.len() - 1 {
        assert(attempts.take(i) == front);
    } else {
        assert(front.take(i) == attempts.take(i));
        lemma_lead_never_falls(s, id, front, i);
    }
}

/// Bids change neither the auctions nor the expiry index.
proof fn lemma_attempts_keep_auctions(s: State, id: AuctionId, attempts: Seq<BidAttempt>)
    ensures
        s.after_attempts(id, attempts).auctions == s.auctions,
        s.after_attempts(id, attempts).end_at == s.end_at,
        s.after_attempts(id, attempts).next_auction_id == s.next_auction_id,
    decreases attempts.len(),
{
    if attempts.len() > 0 {
        lemma_attempts_keep_auctions(s, id, attempts.drop_last());
    }
}

/// Over any run of bids on one auction, the amounts that are accepted rise
/// strictly: an accepted bid passes every bid accepted before it, and the
/// leading bid from before the run.
pub proof fn law_accepted_bids_rise(s: State, id: AuctionId, attempts: Seq<BidAttempt>)
    ensures
        forall|i: int, j: int|
            0 <= i < j < attempts.len() && s.after_attempts(id, attempts.take(i)).accepts(
                id,
                attempts[i],
            ) && #[trigger] s.after_attempts(id, attempts.take(j)).accepts(id, attempts[j])
                ==> (#[trigger] attempts[i]).amount < attempts[j].amount,
        forall|j: int|
            0 <= j < attempts.len() && s.winners.contains_key(id) && #[trigger] s.after_attempts(
                id,
                attempts.take(j),
            ).accepts(id, attempts[j]) ==> s.winners[id].1 < attempts[j].amount,
{
    assert forall|i: int, j: int|
        0 <= i < j < attempts.len() && s.after_attempts(id, attempts.take(i)).accepts(
            id,
            attempts[i],
        ) && #[trigger] s.after_attempts(id, attempts.take(j)).accepts(
            id,
            attempts[j],
        ) implies (#[trigger] attempts[i]).amount < attempts[j].amount by {
        let before = attempts.take(j);
        assert(before.take(i) == attempts.take(i));
        assert(before[i] == attempts[i]);
        lemma_lead_never_falls(s, id, before, i);
    }
    assert forall|j: int|
        0 <= j < attempts.len() && s.winners.contains_key(id) && #[trigger] s.after_attempts(
            id,
            attempts.take(j),
        ).accepts(id, attempts[j]) implies s.winners[id].1 < attempts[j].amount by {
        lemma_lead_only_rises(s, id, attempts.take(j));
    }
}

/// A leading bid that was there before a run of bids is there after it, with
/// an amount that is not lower.
proof fn lemma_lead_only_rises(s: State, id: AuctionId, attempts: Seq<BidAttempt>)
    requires
        s.winners.contains_key(id),
    ensures
        s.after_attempts(id, attempts).winners.contains_key(id),
        s.after_attempts(id, attempts).winners[id].1 >= s.winners[id].1,
    decreases attempts.len(),
{
    if attempts.len() > 0 {
        lemma_lead_only_rises(s, id, attempts.drop_last());
    }
}

/// A request to cancel passes the engine's checks exactly where the caller
/// created the auction and its first active tick has not come. The auction
/// then leaves the table of auctions, and the registry is asked to lift the
/// hold on its asset for its creator. Nothing else in the tables changes but
/// the notification.
pub proof fn law_cancel(s: State, now: BlockNumber, origin: AccountId, id: AuctionId)
    ensures
        s.cancel_check(now, origin, id) is None <==> now < s.details(id).start_at && origin
            == s.details(id).creator,
        s.cancel_check(now, origin, id) is None ==> s.auctions.contains_key(id),
        !s.cancelled(id).auctions.contains_key(id),
        forall|other: AuctionId|
            other != id ==> s.cancelled(id).auctions.contains_key(other)
                == s.auctions.contains_key(other) && s.cancelled(id).details(other) == s.details(
                other,
            ),
        s.cancelled(id).winners == s.winners,
        s.cancelled(id).end_at == s.end_at,
        s.cancelled(id).events == s.events.push(Event::AuctionCancelled(id)),
{
}

/// Those elements of a list that a filter keeps are the elements of the list
/// that meet it, and none of them comes twice where none came twice before.
proof fn lemma_filter_keeps(ids: Seq<AuctionId>, keep: spec_fn(AuctionId) -> bool)
    ensures
        forall|id: AuctionId| #[trigger]
            ids.filter(keep).contains(id) <==> ids.contains(id) && keep(id),
        ids.no_duplicates() ==> ids.filter(keep).no_duplicates(),
    decreases ids.len(),
{
    reveal(Seq::filter);
    if ids.len() > 0 {
        let front = ids.drop_last();
        let last = ids.last();
        lemma_filter_keeps(front, keep);
        let kept = ids.filter(keep);
        assert forall|id: AuctionId| #[trigger] kept.contains(id) <==> ids.contains(id) && keep(
            id,
        ) by {
            if kept.contains(id) {
                let i = choose|i: int| 0 <= i < kept.len() && kept[i] == id;
                if keep(last) && i == kept.len() - 1 {
                    assert(ids[ids.len() - 1] == id);
                } else {
                    assert(front.filter(keep)[i] == id);
                    assert(front.filter(keep).contains(id));
                    let j = choose|j: int| 0 <= j < front.len() && front[j] == id;
                    assert(ids[j] == id);
                }
            }
            if ids.contains(id) && keep(id) {
                let j = choose|j: int| 0 <= j < ids.len() && ids[j] == id;
                if j == ids.len() - 1 {
                    assert(kept[kept.len() - 1] == id);
                } else {
                    assert(front[j] == id);
                    assert(front.filter(keep).contains(id));
                    let i = choose|i: int|
                        0 <= i < front.filter(keep).len() && front.filter(keep)[i] == id;
                    assert(kept[i] == id);
                }
            }
        }
        if ids.no_duplicates() {
            assert(front.no_duplicates());
            if keep(last) {
                assert(!front.filter(keep).contains(last)) by {
                    if front.contains(last) {
                        let j = choose|j: int| 0 <= j < front.len() && front[j] == last;
                        assert(ids[j] == ids[ids.len() - 1]);
                    }
                }
                assert forall|i: int, j: int|
                    0 <= i < kept.len() && 0 <= j < kept.len() && i != j implies kept[i]
                    != kept[j] by {
                    if i < kept.len() - 1 {
                        assert(front.filter(keep)[i] == kept[i]);
                        assert(front.filter(keep).contains(kept[i]));
                    }
                    if j < kept.len() - 1 {
                        assert(front.filter(keep)[j] == kept[j]);
                        assert(front.filter(keep).contains(kept[j]));
                    }
                }
            }
        }
    }
}

/// Settlement of a tick settles the auctions that expire at that tick, each
/// once, and no other.
///
/// The auctions it settles, [`State::due`], are those stored whose expiry is
/// `now`, none of them twice. Afterwards none of them is in the table of
/// auctions, in the table of bids or anywhere in the expiry index; the tick
/// lists nothing; every other auction, bid and tick is as before; and the
/// notifications added are the ends of the auctions settled, in order. A
/// second settlement of the tick finds nothing to do.
pub proof fn law_settlement_is_exact(s: State, now: BlockNumber)
    requires
        s.wf(),
    ensures
        ({
            let t = s.settled(now);
            &&& t.wf()
            &&& s.due(now).no_duplicates()
            &&& forall|id: AuctionId| #[trigger]
                s.due(now).contains(id) <==> s.auctions.contains_key(id)
                    && s.auctions[id].spec_end_at() == now
            &&& forall|id: AuctionId| #[trigger]
                s.due(now).contains(id) ==> !t.auctions.contains_key(id)
                    && !t.winners.contains_key(id) && forall|at: BlockNumber| !t.listed(at, id)
            &&& forall|id: AuctionId|
                !s.due(now).contains(id) ==> (#[trigger] t.auctions.contains_key(id))
                    == s.auctions.contains_key(id) && t.details(id) == s.details(id)
            &&& forall|id: AuctionId|
                !s.due(now).contains(id) ==> (#[trigger] t.winners.contains_key(id))
                    == s.winners.contains_key(id) && (s.winners.contains_key(id) ==> t.winners[id]
                    == s.winners[id])
            &&& t.scheduled(now) == Seq::<AuctionId>::empty()
            &&& forall|at: BlockNumber| at != now ==> #[trigger] t.scheduled(at) == s.scheduled(at)
            &&& t.next_auction_id == s.next_auction_id
            &&& t.events == s.events + s.due(now).map_values(|id: AuctionId| s.end_event(id))
            &&& t.settlement_calls(now) == Seq::<Call>::empty()
            &&& t.settled(now) == t
        }),
{
    let t = s.settled(now);
    let ids = s.scheduled(now);
    let stored = |id: AuctionId| s.auctions.contains_key(id);
    lemma_settled_wf(s, now);
    lemma_filter_keeps(ids, stored);
    assert(ids.no_duplicates());
    assert forall|id: AuctionId| #[trigger]
        s.due(now).contains(id) <==> s.auctions.contains_key(id) && s.auctions[id].spec_end_at()
            == now by {
        if s.auctions.contains_key(id) && s.auctions[id].spec_end_at() == now {
            assert(s.listed(now, id));
        }
        if s.due(now).contains(id) {
            assert(s.listed(now, id));
        }
    }
    assert forall|at: BlockNumber| #[trigger] t.scheduled(at) == if at == now {
        Seq::<AuctionId>::empty()
    } else {
        s.scheduled(at)
    } by {}
    assert forall|id: AuctionId| #[trigger] s.due(now).contains(id) implies !t.auctions.contains_key(
        id,
    ) && !t.winners.contains_key(id) && forall|at: BlockNumber| !t.listed(at, id) by {
        assert(s.listed(now, id));
        assert forall|at: BlockNumber| !t.listed(at, id) by {
            if t.listed(at, id) {
                assert(s.listed(at, id));
                assert(s.auctions[id].spec_end_at() == at);
            }
        }
    }
    assert forall|id: AuctionId| !s.due(now).contains(id) implies (#[trigger] t.auctions.contains_key(
        id,
    )) == s.auctions.contains_key(id) && t.details(id) == s.details(id) by {
        if s.auctions.contains_key(id) && ids.contains(id) {
            assert(s.due(now).contains(id));
        }
    }
    assert forall|id: AuctionId| !s.due(now).contains(id) implies (#[trigger] t.winners.contains_key(
        id,
    )) == s.winners.contains_key(id) && (s.winners.contains_key(id) ==> t.winners[id]
        == s.winners[id]) by {
        if s.auctions.contains_key(id) && ids.contains(id) {
            assert(s.due(now).contains(id));
        }
    }
    assert(t.scheduled(now).map_values(|id: AuctionId| t.settle_calls_of(id))
        =~= Seq::<Seq<Call>>::empty());
    assert(t.settlement_calls(now) == Seq::<Call>::empty());
    assert(t.scheduled(now).to_set() =~= Set::<AuctionId>::empty());
    assert(t.end_events(t.scheduled(now)) =~= Seq::<Event>::empty()) by {
        reveal(Seq::filter);
    }
    assert(t.settled(now) =~= t);
}

/// Settling a list of identifiers takes at most four calls for each.
proof fn lemma_settle_calls_len(s: State, ids: Seq<AuctionId>)
    ensures
        s.settle_calls(ids).len() <= 4 * ids.len(),
    decreases ids.len(),
{
    if ids.len() == 0 {
        assert(ids.map_values(|id: AuctionId| s.settle_calls_of(id)) =~= Seq::<Seq<Call>>::empty());
    } else {
        let front = ids.drop_last();
        lemma_settle_calls_len(s, front);
        assert(ids == front.push(ids.last()));
        lemma_settle_calls_push(s, front, ids.last());
    }
}

/// The work of one settlement is bounded: a tick lists at most `cap`
/// identifiers, so at most `cap` auctions are settled, with at most four
/// calls on the ledgers for each.
pub proof fn law_settlement_is_bounded(s: State, cap: MaxAuction, now: BlockNumber)
    requires
        s.bounded(cap),
    ensures
        s.scheduled(now).len() <= cap,
        s.due(now).len() <= cap,
        s.settlement_calls(now).len() <= 4 * cap,
{
    assert(s.scheduled(now).len() <= cap);
    s.scheduled(now).lemma_filter_len(|id: AuctionId| s.auctions.contains_key(id));
    lemma_settle_calls_len(s, s.scheduled(now));
}

/// Settling identifiers under none of which an auction is stored takes no
/// call.
proof fn lemma_no_calls_without_auctions(s: State, ids: Seq<AuctionId>)
    requires
        forall|i: int| 0 <= i < ids.len() ==> !s.auctions.contains_key(#[trigger] ids[i]),
    ensures
        s.settle_calls(ids) == Seq::<Call>::empty(),
    decreases ids.len(),
{
    if ids.len() == 0 {
        assert(ids.map_values(|id: AuctionId| s.settle_calls_of(id)) =~= Seq::<Seq<Call>>::empty());
    } else {
        let front = ids.drop_last();
        assert forall|i: int| 0 <= i < front.len() implies !s.auctions.contains_key(
            #[trigger] front[i],
        ) by {
            assert(front[i] == ids[i]);
        }
        lemma_no_calls_without_auctions(s, front);
        assert(ids == front.push(ids.last()));
        lemma_settle_calls_push(s, front, ids.last());
        assert(!s.auctions.contains_key(ids[ids.len() - 1]));
    }
}

/// An entry of the expiry index that a cancelled auction left behind is
/// passed over: for an identifier under which no auction is stored,
/// settlement asks nothing of the ledgers, notifies nothing and changes no
/// table. A tick that lists only such entries is settled by taking it out of
/// the index.
pub proof fn law_entries_without_auction_are_passed_over(s: State, now: BlockNumber)
    requires
        s.wf(),
    ensures
        forall|id: AuctionId|
            !s.auctions.contains_key(id) ==> #[trigger] s.settle_calls_of(id)
                == Seq::<Call>::empty(),
        forall|id: AuctionId| s.cancelled(id).settle_calls_of(id) == Seq::<Call>::empty(),
        forall|id: AuctionId, at: BlockNumber|
            s.listed(at, id) ==> #[trigger] s.cancelled(id).listed(at, id),
        s.due(now).len() == 0 ==> s.settlement_calls(now) == Seq::<Call>::empty() && s.settled(now)
            == (State { end_at: s.end_at.remove(now), ..s }),
{
    if s.due(now).len() == 0 {
        let ids = s.scheduled(now);
        let stored = |id: AuctionId| s.auctions.contains_key(id);
        lemma_filter_keeps(ids, stored);
        assert forall|i: int| 0 <= i < ids.len() implies !s.auctions.contains_key(
            #[trigger] ids[i],
        ) by {
            if s.auctions.contains_key(ids[i]) {
                assert(ids.contains(ids[i]));
                assert(ids.filter(stored).contains(ids[i]));
            }
        }
        lemma_no_calls_without_auctions(s, ids);
        assert(s.auctions.remove_keys(ids.to_set()) =~= s.auctions) by {
            assert forall|id: AuctionId| s.auctions.contains_key(id) implies !ids.to_set().contains(
                id,
            ) by {
                if ids.contains(id) {
                    let i = choose|i: int| 0 <= i < ids.len() && ids[i] == id;
                    assert(!s.auctions.contains_key(ids[i]));
                }
            }
        }
        assert(ids.to_set().intersect(s.auctions.dom()) =~= Set::<AuctionId>::empty()) by {
            assert forall|id: AuctionId| !(ids.to_set().contains(id) && s.auctions.dom().contains(
                id,
            )) by {
                if ids.contains(id) {
                    let i = choose|i: int| 0 <= i < ids.len() && ids[i] == id;
                    assert(!s.auctions.contains_key(ids[i]));
                }
            }
        }
        assert(s.winners.remove_keys(Set::<AuctionId>::empty()) =~= s.winners);
        assert(s.events + s.end_events(ids) =~= s.events);
        assert(s.settled(now) =~= (State { end_at: s.end_at.remove(now), ..s }));
    }
}

/// An auction that is settled without a bid ends with no winner and no
/// amount, and all that is asked of the ledgers is that the hold on the asset
/// be lifted for its creator.
pub proof fn law_settlement_without_bid(s: State, id: AuctionId)
    requires
        s.auctions.contains_key(id),
        !s.winners.contains_key(id),
    ensures
        s.end_event(id) == Event::AuctionEnd(id, None, None),
        s.settle_calls_of(id) == seq![
            Call::AssetUnreserve { who: s.auctions[id].creator, token: s.auctions[id].token0 },
        ],
{
}

/// An auction that is settled with a leading bid ends with that bidder as
/// winner and the amount recorded. The hold on the asset is lifted for the
/// creator, the hold on the bidder's balance is lifted for exactly the amount
/// recorded, that amount goes from the bidder to the creator, and the asset
/// from the creator to the bidder, in this order.
pub proof fn law_settlement_with_bid(s: State, id: AuctionId)
    requires
        s.auctions.contains_key(id),
        s.winners.contains_key(id),
    ensures
        ({
            let auction = s.auctions[id];
            let (winner, amount) = s.winners[id];
            &&& s.end_event(id) == Event::AuctionEnd(id, Some(winner), Some(amount))
            &&& s.settle_calls_of(id) == seq![
                Call::AssetUnreserve { who: auction.creator, token: auction.token0 },
                Call::CurrencyUnreserve { currency_id: auction.token1, who: winner, value: amount },
                Call::CurrencyTransfer {
                    currency_id: auction.token1,
                    from: winner,
                    to: auction.creator,
                    amount,
                },
                Call::AssetTransfer { from: auction.creator, to: winner, token: auction.token0 },
            ]
        }),
{
}

} // verus!
