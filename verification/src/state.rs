//! The engine's three tables as mathematics, and what each operation makes of
//! them.

use crate::collaborators::{Call, MultiReservableCurrency};
use crate::details::AuctionDetails;
use crate::primitives::{
    spec_saturating_add, AccountId, AuctionId, Balance, BlockNumber, ClassId, CurrencyId, Error,
    MaxAuction, TokenId,
};
use vstd::prelude::*;

verus! {

/// A notification of something the engine has done.
#[derive(Clone, Copy, Debug, PartialEq, Eq)]
pub enum Event {
    /// An auction was created: its identifier, creator, asset, currency, least
    /// bid, duration, first active tick and expiry tick.
    AuctionCreated(
        AuctionId,
        AccountId,
        (ClassId, TokenId),
        CurrencyId,
        Balance,
        BlockNumber,
        BlockNumber,
        BlockNumber,
    ),
    /// An auction was settled: its identifier, and the winner and the amount
    /// paid, both absent where nobody bid.
    AuctionEnd(AuctionId, Option<AccountId>, Option<Balance>),
    /// An auction was cancelled before it became active.
    AuctionCancelled(AuctionId),
    /// A bid took the lead: the auction, the bidder and the amount.
    AuctionBid(AuctionId, AccountId, Balance),
}

/// Everything the engine remembers.
#[verifier::ext_equal]
pub struct State {
    /// The identifier the next auction will get.
    pub next_auction_id: AuctionId,
    /// The open auctions by identifier.
    pub auctions: Map<AuctionId, AuctionDetails>,
    /// The leading bid of each auction that has one: the bidder and the amount
    /// held for them.
    pub winners: Map<AuctionId, (AccountId, Balance)>,
    /// The expiry index: for each tick at which something is due, the
    /// identifiers due then, in the order in which they were entered.
    pub end_at: Map<BlockNumber, Seq<AuctionId>>,
    /// The notifications not yet collected, oldest first.
    pub events: Seq<Event>,
}

impl State {
    /// The state of an engine that has done nothing yet.
    pub open spec fn empty() -> State {
        State {
            next_auction_id: 0,
            auctions: Map::empty(),
            winners: Map::empty(),
            end_at: Map::empty(),
            events: Seq::empty(),
        }
    }

    /// The identifiers entered in the expiry index at tick `at`, in the order
    /// in which they were entered.
    pub open spec fn scheduled(self, at: BlockNumber) -> Seq<AuctionId> {
        if self.end_at.contains_key(at) {
            self.end_at[at]
        } else {
            Seq::empty()
        }
    }

    /// The terms stored under `id`, or the all-zero terms where none are.
    pub open spec fn details(self, id: AuctionId) -> AuctionDetails {
        if self.auctions.contains_key(id) {
            self.auctions[id]
        } else {
            AuctionDetails::spec_default()
        }
    }

    /// Whether the expiry index holds the entry (`at`, `id`).
    pub open spec fn listed(self, at: BlockNumber, id: AuctionId) -> bool {
        self.scheduled(at).contains(id)
    }

    /// What ties the tables together:
    /// no identifier in use has reached `next_auction_id`;
    /// no tick lists an identifier twice;
    /// every open auction is listed at its expiry tick;
    /// and an open auction is listed at no other tick.
    pub open spec fn wf(self) -> bool {
        &&& self.auctions.dom().finite()
        &&& self.winners.dom().finite()
        &&& self.end_at.dom().finite()
        &&& forall|id: AuctionId| #[trigger]
            self.auctions.contains_key(id) ==> id < self.next_auction_id
        &&& forall|at: BlockNumber, id: AuctionId| #[trigger]
            self.listed(at, id) ==> id < self.next_auction_id
        &&& forall|at: BlockNumber| #[trigger] self.scheduled(at).no_duplicates()
        &&& forall|id: AuctionId| #[trigger]
            self.auctions.contains_key(id) ==> self.listed(self.auctions[id].spec_end_at(), id)
        &&& forall|at: BlockNumber, id: AuctionId| #[trigger]
            self.listed(at, id) && self.auctions.contains_key(id) ==> self.auctions[id].spec_end_at()
                == at
    }

    /// Whether no tick lists more than `cap` identifiers, so that no
    /// settlement has more than `cap` auctions to settle.
    pub open spec fn bounded(self, cap: MaxAuction) -> bool {
        forall|at: BlockNumber| #[trigger] self.scheduled(at).len() <= cap
    }

    /// The tick at which an auction created at tick `now` becomes active.
    pub open spec fn start_after(now: BlockNumber) -> BlockNumber {
        spec_saturating_add(now, 1)
    }

    /// The tick at which an auction created at tick `now` for `duration` ticks
    /// expires.
    pub open spec fn end_after(now: BlockNumber, duration: BlockNumber) -> BlockNumber {
        spec_saturating_add(Self::start_after(now), duration)
    }

    /// Why a request to create an auction at tick `now` is refused before any
    /// collaborator is asked, if it is: a duration of 0, or `cap` identifiers
    /// already listed at the tick at which it would expire.
    pub open spec fn create_check(
        self,
        cap: MaxAuction,
        now: BlockNumber,
        duration: BlockNumber,
    ) -> Option<Error> {
        if duration == 0 {
            Some(Error::InvalidDuration)
        } else if self.scheduled(Self::end_after(now, duration)).len() >= cap {
            Some(Error::ExceedMaxAuction)
        } else {
            None
        }
    }

    /// The state once an auction with these terms has been created at tick
    /// `now`.
    pub open spec fn created(
        self,
        now: BlockNumber,
        creator: AccountId,
        token0: (ClassId, TokenId),
        token1: CurrencyId,
        min1: Balance,
        duration: BlockNumber,
    ) -> State {
        let id = self.next_auction_id;
        let start_at = Self::start_after(now);
        let end_at = Self::end_after(now, duration);
        State {
            next_auction_id: spec_saturating_add(id, 1),
            auctions: self.auctions.insert(
                id,
                AuctionDetails { creator, winner: None, token0, token1, min1, duration, start_at },
            ),
            winners: self.winners,
            end_at: self.end_at.insert(end_at, self.scheduled(end_at).push(id)),
            events: self.events.push(
                Event::AuctionCreated(id, creator, token0, token1, min1, duration, start_at, end_at),
            ),
        }
    }

    /// Why a bid of `amount` on `id` at tick `now` is refused before any
    /// collaborator is asked, if it is: an amount under the least bid, a tick
    /// past the auction's expiry, or an amount that does not pass the leading
    /// bid.
    pub open spec fn bid_check(self, now: BlockNumber, id: AuctionId, amount: Balance) -> Option<
        Error,
    > {
        let auction = self.details(id);
        if amount < auction.min1 {
            Some(Error::InvalidBidAmount)
        } else if now > auction.spec_end_at() {
            Some(Error::AuctionExpired)
        } else if self.winners.contains_key(id) && amount <= self.winners[id].1 {
            Some(Error::InvalidBidAmount)
        } else {
            None
        }
    }

    /// The currency ledger once the hold for the leading bidder of `id` has
    /// been lifted, for exactly the amount recorded; the ledger as it is where
    /// `id` has no leading bid.
    pub open spec fn released<C: MultiReservableCurrency>(self, currency: C, id: AuctionId) -> C {
        if self.winners.contains_key(id) {
            currency.unreserve_spec(
                self.details(id).token1,
                self.winners[id].0,
                self.winners[id].1,
            )
        } else {
            currency
        }
    }

    /// The state once `bidder` has taken the lead on `id` with `amount`.
    pub open spec fn outbid(self, id: AuctionId, bidder: AccountId, amount: Balance) -> State {
        State {
            winners: self.winners.insert(id, (bidder, amount)),
            events: self.events.push(Event::AuctionBid(id, bidder, amount)),
            ..self
        }
    }

    /// Why `origin`'s request at tick `now` to cancel `id` is refused before
    /// any collaborator is asked, if it is: `origin` is not the creator, or the
    /// auction's first active tick has come.
    pub open spec fn cancel_check(self, now: BlockNumber, origin: AccountId, id: AuctionId) -> Option<
        Error,
    > {
        let auction = self.details(id);
        if origin != auction.creator {
            Some(Error::InvalidCreator)
        } else if auction.start_at <= now {
            Some(Error::AuctionStarted)
        } else {
            None
        }
    }

    /// The state once `id` has been cancelled. Its entry in the expiry index
    /// stays behind, and so does a leading bid if there is one.
    pub open spec fn cancelled(self, id: AuctionId) -> State {
        State {
            auctions: self.auctions.remove(id),
            events: self.events.push(Event::AuctionCancelled(id)),
            ..self
        }
    }

    /// The notification that ends `id`: with the leading bidder and amount
    /// where there is a leading bid, with neither where there is none.
    pub open spec fn end_event(self, id: AuctionId) -> Event {
        if self.winners.contains_key(id) {
            Event::AuctionEnd(id, Some(self.winners[id].0), Some(self.winners[id].1))
        } else {
            Event::AuctionEnd(id, None, None)
        }
    }

    /// The calls that settle `id`. Where no auction is stored under it, none.
    /// Else the asset's hold is lifted, and where there is a leading bid its
    /// hold is lifted, the amount goes to the creator and the asset to the
    /// bidder.
    pub open spec fn settle_calls_of(self, id: AuctionId) -> Seq<Call> {
        if !self.auctions.contains_key(id) {
            Seq::empty()
        } else {
            let auction = self.auctions[id];
            let release = seq![Call::AssetUnreserve { who: auction.creator, token: auction.token0 }];
            if self.winners.contains_key(id) {
                let (winner, amount) = self.winners[id];
                release + seq![
                    Call::CurrencyUnreserve {
                        currency_id: auction.token1,
                        who: winner,
                        value: amount,
                    },
                    Call::CurrencyTransfer {
                        currency_id: auction.token1,
                        from: winner,
                        to: auction.creator,
                        amount,
                    },
                    Call::AssetTransfer { from: auction.creator, to: winner, token: auction.token0 },
                ]
            } else {
                release
            }
        }
    }

    /// The calls that settle the identifiers of `ids`: those of the first,
    /// then those of the second, and so on.
    pub open spec fn settle_calls(self, ids: Seq<AuctionId>) -> Seq<Call> {
        ids.map_values(|id: AuctionId| self.settle_calls_of(id)).flatten()
    }

    /// The calls that settlement of tick `now` makes, in order.
    pub open spec fn settlement_calls(self, now: BlockNumber) -> Seq<Call> {
        self.settle_calls(self.scheduled(now))
    }

    /// Those of `ids` under which an auction is stored, in the order of `ids`.
    pub open spec fn stored(self, ids: Seq<AuctionId>) -> Seq<AuctionId> {
        ids.filter(|id: AuctionId| self.auctions.contains_key(id))
    }

    /// The auctions that settlement of tick `now` settles, in order.
    pub open spec fn due(self, now: BlockNumber) -> Seq<AuctionId> {
        self.stored(self.scheduled(now))
    }

    /// The notifications that settling the identifiers of `ids` gives: the end
    /// of each under which an auction is stored, in the order of `ids`.
    pub open spec fn end_events(self, ids: Seq<AuctionId>) -> Seq<Event> {
        self.stored(ids).map_values(|id: AuctionId| self.end_event(id))
    }

    /// The state once tick `now` has been settled. The tick has left the expiry
    /// index. Every auction that was listed there has left the table of
    /// auctions, and its leading bid the table of bids. The end of each has
    /// been notified, in the order of the list. An entry of the tick under
    /// which no auction is stored changes nothing else.
    pub open spec fn settled(self, now: BlockNumber) -> State {
        let ids = self.scheduled(now);
        State {
            next_auction_id: self.next_auction_id,
            auctions: self.auctions.remove_keys(ids.to_set()),
            winners: self.winners.remove_keys(ids.to_set().intersect(self.auctions.dom())),
            end_at: self.end_at.remove(now),
            events: self.events + self.end_events(ids),
        }
    }

    /// The state once `id` has been settled in the tables: its terms and its
    /// leading bid are gone and its end is notified. Where no auction is stored
    /// under `id`, nothing changes.
    pub open spec fn settle_one(self, id: AuctionId) -> State {
        if self.auctions.contains_key(id) {
            State {
                auctions: self.auctions.remove(id),
                winners: self.winners.remove(id),
                events: self.events.push(self.end_event(id)),
                ..self
            }
        } else {
            self
        }
    }

    /// The state once the identifiers of `ids` have been settled in the
    /// tables, one after the other.
    pub open spec fn settle_all(self, ids: Seq<AuctionId>) -> State
        decreases ids.len(),
    {
        if ids.len() == 0 {
            self
        } else {
            self.settle_all(ids.drop_last()).settle_one(ids.last())
        }
    }
}

} // verus!

verus! {

/// Creating an auction keeps the tables tied together, as long as an
/// identifier is left to give.
pub proof fn lemma_created_wf(
    s: State,
    now: BlockNumber,
    creator: AccountId,
    token0: (ClassId, TokenId),
    token1: CurrencyId,
    min1: Balance,
    duration: BlockNumber,
)
    requires
        s.wf(),
        s.next_auction_id < AuctionId::MAX,
    ensures
        s.created(now, creator, token0, token1, min1, duration).wf(),
{
    let t = s.created(now, creator, token0, token1, min1, duration);
    let id = s.next_auction_id;
    let end_at = State::end_after(now, duration);
    assert(!s.listed(end_at, id));
    assert forall|at: BlockNumber, a: AuctionId| #[trigger] t.listed(at, a) <==> (s.listed(at, a) || (at
        == end_at && a == id)) by {
        if at == end_at {
            let old_ids = s.scheduled(at);
            let new_ids = t.scheduled(at);
            assert(new_ids == old_ids.push(id));
            if old_ids.contains(a) {
                let i = choose|i: int| 0 <= i < old_ids.len() && old_ids[i] == a;
                assert(new_ids[i] == a);
            }
            if a == id {
                assert(new_ids[old_ids.len() as int] == id);
            }
        } else {
            assert(t.scheduled(at) == s.scheduled(at));
        }
    }
    assert forall|at: BlockNumber| #[trigger] t.scheduled(at).no_duplicates() by {
        assert(s.scheduled(at).no_duplicates());
        if at == end_at {
            let old_ids = s.scheduled(at);
            assert forall|i: int, j: int|
                0 <= i < old_ids.len() + 1 && 0 <= j < old_ids.len() + 1 && i != j implies old_ids.push(
                id,
            )[i] != old_ids.push(id)[j] by {
                if i < old_ids.len() {
                    assert(s.listed(at, old_ids[i]));
                }
                if j < old_ids.len() {
                    assert(s.listed(at, old_ids[j]));
                }
            }
        }
    }
    assert forall|at: BlockNumber, a: AuctionId| #[trigger]
        t.listed(at, a) && t.auctions.contains_key(a) implies t.auctions[a].spec_end_at() == at by {
        if s.listed(at, a) {
            assert(a != id);
            assert(s.auctions.contains_key(a));
        }
    }
}

/// Creating an auction that passes the engine's checks leaves no tick with
/// more than `cap` identifiers.
pub proof fn lemma_created_bounded(
    s: State,
    cap: MaxAuction,
    now: BlockNumber,
    creator: AccountId,
    token0: (ClassId, TokenId),
    token1: CurrencyId,
    min1: Balance,
    duration: BlockNumber,
)
    requires
        s.bounded(cap),
        s.create_check(cap, now, duration) is None,
    ensures
        s.created(now, creator, token0, token1, min1, duration).bounded(cap),
{
    let t = s.created(now, creator, token0, token1, min1, duration);
    assert forall|at: BlockNumber| #[trigger] t.scheduled(at).len() <= cap by {
        assert(s.scheduled(at).len() <= cap);
    }
}

/// Bids, cancellations and settlements add nothing to any tick.
pub proof fn lemma_bounded_stays(s: State, cap: MaxAuction)
    requires
        s.bounded(cap),
    ensures
        forall|id: AuctionId, bidder: AccountId, amount: Balance| #[trigger]
            s.outbid(id, bidder, amount).bounded(cap),
        forall|id: AuctionId| #[trigger] s.cancelled(id).bounded(cap),
        forall|now: BlockNumber| #[trigger] s.settled(now).bounded(cap),
{
    assert forall|id: AuctionId, bidder: AccountId, amount: Balance| #[trigger]
        s.outbid(id, bidder, amount).bounded(cap) by {
        let t = s.outbid(id, bidder, amount);
        assert forall|at: BlockNumber| #[trigger] t.scheduled(at).len() <= cap by {
            assert(s.scheduled(at).len() <= cap);
        }
    }
    assert forall|id: AuctionId| #[trigger] s.cancelled(id).bounded(cap) by {
        let t = s.cancelled(id);
        assert forall|at: BlockNumber| #[trigger] t.scheduled(at).len() <= cap by {
            assert(s.scheduled(at).len() <= cap);
        }
    }
    assert forall|now: BlockNumber| #[trigger] s.settled(now).bounded(cap) by {
        let t = s.settled(now);
        assert forall|at: BlockNumber| #[trigger] t.scheduled(at).len() <= cap by {
            assert(s.scheduled(at).len() <= cap);
        }
    }
}

/// What ties the tables together does not look at the notifications.
pub proof fn lemma_events_apart(s: State, t: State, cap: MaxAuction)
    requires
        s.wf(),
        s.bounded(cap),
        t == (State { events: t.events, ..s }),
    ensures
        t.wf(),
        t.bounded(cap),
{
    assert forall|at: BlockNumber, a: AuctionId| #[trigger] t.listed(at, a) == s.listed(at, a) by {}
    assert forall|at: BlockNumber| #[trigger] t.scheduled(at).no_duplicates() by {
        assert(s.scheduled(at).no_duplicates());
    }
    assert forall|at: BlockNumber| #[trigger] t.scheduled(at).len() <= cap by {
        assert(s.scheduled(at).len() <= cap);
    }
}

/// Taking the lead keeps the tables tied together.
pub proof fn lemma_outbid_wf(s: State, id: AuctionId, bidder: AccountId, amount: Balance)
    requires
        s.wf(),
    ensures
        s.outbid(id, bidder, amount).wf(),
{
    let t = s.outbid(id, bidder, amount);
    assert forall|at: BlockNumber, a: AuctionId| #[trigger] t.listed(at, a) == s.listed(at, a) by {}
    assert forall|at: BlockNumber| #[trigger] t.scheduled(at).no_duplicates() by {
        assert(s.scheduled(at).no_duplicates());
    }
}

/// Cancelling an auction keeps the tables tied together.
pub proof fn lemma_cancelled_wf(s: State, id: AuctionId)
    requires
        s.wf(),
    ensures
        s.cancelled(id).wf(),
{
    let t = s.cancelled(id);
    assert forall|at: BlockNumber, a: AuctionId| #[trigger] t.listed(at, a) == s.listed(at, a) by {}
    assert forall|at: BlockNumber| #[trigger] t.scheduled(at).no_duplicates() by {
        assert(s.scheduled(at).no_duplicates());
    }
}

/// The calls that settle a list of identifiers with one more at its end are
/// those of the list, then those of the one.
pub proof fn lemma_settle_calls_push(s: State, ids: Seq<AuctionId>, id: AuctionId)
    ensures
        s.settle_calls(ids.push(id)) == s.settle_calls(ids) + s.settle_calls_of(id),
{
    let calls_of = |id: AuctionId| s.settle_calls_of(id);
    assert(ids.push(id).map_values(calls_of) == ids.map_values(calls_of).push(calls_of(id)));
    ids.map_values(calls_of).lemma_flatten_push(calls_of(id));
}

/// Settling identifiers one after the other, none of them twice, leaves what
/// [`State::settled`] says.
pub proof fn lemma_settle_all(s: State, ids: Seq<AuctionId>)
    requires
        ids.no_duplicates(),
    ensures
        s.settle_all(ids).next_auction_id == s.next_auction_id,
        s.settle_all(ids).end_at == s.end_at,
        s.settle_all(ids).auctions == s.auctions.remove_keys(ids.to_set()),
        s.settle_all(ids).winners == s.winners.remove_keys(
            ids.to_set().intersect(s.auctions.dom()),
        ),
        s.settle_all(ids).events == s.events + s.end_events(ids),
        s.auctions.dom().finite() ==> s.settle_all(ids).auctions.dom().finite(),
        s.winners.dom().finite() ==> s.settle_all(ids).winners.dom().finite(),
    decreases ids.len(),
{
    let stored = |id: AuctionId| s.auctions.contains_key(id);
    let event_of = |id: AuctionId| s.end_event(id);
    if ids.len() == 0 {
        assert(s.auctions.remove_keys(ids.to_set()) =~= s.auctions);
        assert(s.winners.remove_keys(ids.to_set().intersect(s.auctions.dom())) =~= s.winners);
        reveal(Seq::filter);
        assert(s.events + s.end_events(ids) =~= s.events);
    } else {
        let front = ids.drop_last();
        let id = ids.last();
        lemma_settle_all(s, front);
        let mid = s.settle_all(front);
        assert forall|a: AuctionId| ids.to_set().contains(a) <==> (front.to_set().contains(a) || a
            == id) by {
            if ids.contains(a) {
                let i = choose|i: int| 0 <= i < ids.len() && ids[i] == a;
                if i < front.len() {
                    assert(front[i] == a);
                }
            }
            if front.contains(a) {
                let i = choose|i: int| 0 <= i < front.len() && front[i] == a;
                assert(ids[i] == a);
            }
            if a == id {
                assert(ids[ids.len() - 1] == a);
            }
        }
        assert(!front.contains(id)) by {
            if front.contains(id) {
                let i = choose|i: int| 0 <= i < front.len() && front[i] == id;
                assert(ids[i] == ids[ids.len() - 1]);
            }
        }
        assert(mid.settle_one(id).auctions =~= s.auctions.remove_keys(ids.to_set()));
        assert(mid.settle_one(id).winners =~= s.winners.remove_keys(
            ids.to_set().intersect(s.auctions.dom()),
        ));
        assert(ids == front.push(id));
        front.lemma_filter_push(id, stored);
        assert(mid.end_event(id) == s.end_event(id));
        if stored(id) {
            assert(front.filter(stored).push(id).map_values(event_of) == front.filter(
                stored,
            ).map_values(event_of).push(event_of(id)));
        }
        assert(mid.settle_one(id).events =~= s.events + s.end_events(ids));
    }
}

/// Settling a tick keeps the tables tied together.
pub proof fn lemma_settled_wf(s: State, now: BlockNumber)
    requires
        s.wf(),
    ensures
        s.settled(now).wf(),
{
    let base = State { end_at: s.end_at.remove(now), ..s };
    let ids = s.scheduled(now);
    let t = s.settled(now);
    assert(ids.no_duplicates());
    lemma_settle_all(base, ids);
    assert forall|at: BlockNumber| #[trigger] t.scheduled(at) == if at == now {
        Seq::<AuctionId>::empty()
    } else {
        s.scheduled(at)
    } by {}
    assert forall|at: BlockNumber, a: AuctionId| #[trigger] t.listed(at, a) == (at != now && s.listed(
        at,
        a,
    )) by {}
    assert forall|at: BlockNumber| #[trigger] t.scheduled(at).no_duplicates() by {
        assert(s.scheduled(at).no_duplicates());
    }
    assert forall|a: AuctionId| #[trigger] t.auctions.contains_key(a) implies t.listed(
        t.auctions[a].spec_end_at(),
        a,
    ) by {
        assert(s.auctions.contains_key(a));
        assert(!s.listed(now, a));
        assert(s.listed(s.auctions[a].spec_end_at(), a));
    }
}

} // verus!
