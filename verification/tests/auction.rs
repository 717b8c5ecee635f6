use auction::{
    perform, perform_all, AccountId, AuctionDetails, Balance, BlockNumber, Call, CallError,
    ClassId, Config, CurrencyId, Error, Event, MultiReservableCurrency, Pallet, TokenId, NFT,
};
use sp_runtime::{DispatchError, TokenError};
use std::collections::BTreeMap;

const ALICE: AccountId = 1;
const BOB: AccountId = 2;
const CAROL: AccountId = 3;
const DOT: CurrencyId = 7;
const LAND: (ClassId, TokenId) = (4, 9);
const HOUSE: (ClassId, TokenId) = (4, 10);
const BOAT: (ClassId, TokenId) = (5, 1);

/// A currency ledger in memory that records every call made on it.
#[derive(Clone, Debug, PartialEq)]
struct Ledger {
    free: BTreeMap<(CurrencyId, AccountId), Balance>,
    reserved: BTreeMap<(CurrencyId, AccountId), Balance>,
    journal: Vec<String>,
}

impl Ledger {
    fn new(accounts: &[(AccountId, Balance)]) -> Ledger {
        let mut free = BTreeMap::new();
        for (who, amount) in accounts {
            free.insert((DOT, *who), *amount);
        }
        Ledger { free, reserved: BTreeMap::new(), journal: Vec::new() }
    }

    fn free(&self, who: AccountId) -> Balance {
        self.free.get(&(DOT, who)).copied().unwrap_or(0)
    }

    fn reserved(&self, who: AccountId) -> Balance {
        self.reserved.get(&(DOT, who)).copied().unwrap_or(0)
    }
}

impl MultiReservableCurrency for Ledger {
    fn reserve(
        &mut self,
        currency_id: CurrencyId,
        who: AccountId,
        value: Balance,
    ) -> Result<(), DispatchError> {
        self.journal.push(format!("reserve {} {} {}", currency_id, who, value));
        let free = self.free.get(&(currency_id, who)).copied().unwrap_or(0);
        if free < value {
            return Err(DispatchError::Token(TokenError::FundsUnavailable));
        }
        self.free.insert((currency_id, who), free - value);
        *self.reserved.entry((currency_id, who)).or_insert(0) += value;
        Ok(())
    }

    fn unreserve(&mut self, currency_id: CurrencyId, who: AccountId, value: Balance) {
        self.journal.push(format!("unreserve {} {} {}", currency_id, who, value));
        let held = self.reserved.get(&(currency_id, who)).copied().unwrap_or(0);
        let moved = if held < value { held } else { value };
        self.reserved.insert((currency_id, who), held - moved);
        *self.free.entry((currency_id, who)).or_insert(0) += moved;
    }

    fn transfer(
        &mut self,
        currency_id: CurrencyId,
        from: AccountId,
        to: AccountId,
        amount: Balance,
    ) -> Result<(), DispatchError> {
        self.journal.push(format!("transfer {} {} {} {}", currency_id, from, to, amount));
        let free = self.free.get(&(currency_id, from)).copied().unwrap_or(0);
        if free < amount {
            return Err(DispatchError::Token(TokenError::FundsUnavailable));
        }
        self.free.insert((currency_id, from), free - amount);
        *self.free.entry((currency_id, to)).or_insert(0) += amount;
        Ok(())
    }
}

/// An asset registry in memory that records every call made on it.
#[derive(Clone, Debug, PartialEq)]
struct Registry {
    owner: BTreeMap<(ClassId, TokenId), AccountId>,
    held: BTreeMap<(ClassId, TokenId), bool>,
    journal: Vec<String>,
}

impl Registry {
    fn new(assets: &[((ClassId, TokenId), AccountId)]) -> Registry {
        let mut owner = BTreeMap::new();
        for (token, who) in assets {
            owner.insert(*token, *who);
        }
        Registry { owner, held: BTreeMap::new(), journal: Vec::new() }
    }

    fn owner(&self, token: (ClassId, TokenId)) -> Option<AccountId> {
        self.owner.get(&token).copied()
    }

    fn held(&self, token: (ClassId, TokenId)) -> bool {
        self.held.get(&token).copied().unwrap_or(false)
    }
}

impl NFT for Registry {
    fn reserve(&mut self, who: AccountId, token: (ClassId, TokenId)) -> Result<(), DispatchError> {
        self.journal.push(format!("reserve {} {:?}", who, token));
        if self.owner(token) != Some(who) {
            return Err(DispatchError::Other("NoPermission"));
        }
        if self.held(token) {
            return Err(DispatchError::Other("AlreadyReserved"));
        }
        self.held.insert(token, true);
        Ok(())
    }

    fn unreserve(&mut self, who: AccountId, token: (ClassId, TokenId)) -> Result<(), DispatchError> {
        self.journal.push(format!("unreserve {} {:?}", who, token));
        if self.owner(token) != Some(who) {
            return Err(DispatchError::Other("NoPermission"));
        }
        if !self.held(token) {
            return Err(DispatchError::Other("NotReserved"));
        }
        self.held.insert(token, false);
        Ok(())
    }

    fn transfer(
        &mut self,
        from: AccountId,
        to: AccountId,
        token: (ClassId, TokenId),
    ) -> Result<(), DispatchError> {
        self.journal.push(format!("transfer {} {} {:?}", from, to, token));
        if self.owner(token) != Some(from) {
            return Err(DispatchError::Other("NoPermission"));
        }
        if self.held(token) {
            return Err(DispatchError::Other("AlreadyReserved"));
        }
        self.owner.insert(token, to);
        Ok(())
    }
}

/// A host that lets two auctions expire at one tick.
struct Test;

impl Config for Test {
    type Currency = Ledger;
    type NFT = Registry;

    fn max_auction() -> u32 {
        2
    }
}

/// A host that lets no auction expire at any tick.
struct Closed;

impl Config for Closed {
    type Currency = Ledger;
    type NFT = Registry;

    fn max_auction() -> u32 {
        0
    }
}

fn world() -> (Pallet<Test>, Ledger, Registry) {
    (
        Pallet::new(),
        Ledger::new(&[(ALICE, 100), (BOB, 100), (CAROL, 12)]),
        Registry::new(&[(LAND, ALICE), (HOUSE, ALICE), (BOAT, BOB)]),
    )
}

fn pallet_error<T>(error: Error) -> Result<T, CallError> {
    Err(CallError::Pallet(error))
}

#[test]
fn new_pallet_is_empty() {
    let mut pallet = Pallet::<Test>::new();
    assert_eq!(pallet.next_auction_id(), 0);
    assert_eq!(pallet.auctions(0), AuctionDetails::default());
    assert_eq!(pallet.current_winners(0), None);
    assert_eq!(pallet.auction_end_at(0, 0), None);
    assert_eq!(pallet.settlement_calls(0), Vec::<Call>::new());
    assert_eq!(pallet.take_events(), Vec::<Event>::new());
}

#[test]
fn default_details_are_all_zero() {
    let details = AuctionDetails::default();
    assert_eq!(
        details,
        AuctionDetails {
            creator: 0,
            winner: None,
            token0: (0, 0),
            token1: 0,
            min1: 0,
            duration: 0,
            start_at: 0,
        }
    );
    assert_eq!(details.end_at(), 0);
}

#[test]
fn end_at_is_start_plus_duration() {
    let mut details = AuctionDetails::default();
    details.start_at = 8;
    details.duration = 34;
    assert_eq!(details.end_at(), 42);
}

#[test]
fn end_at_stops_at_the_last_tick() {
    let mut details = AuctionDetails::default();
    details.start_at = BlockNumber::MAX - 1;
    details.duration = 5;
    assert_eq!(details.end_at(), BlockNumber::MAX);
}

#[test]
fn create_records_terms_and_schedules_expiry() {
    let (mut pallet, _, mut nft) = world();
    assert_eq!(pallet.create_auction(&mut nft, 0, ALICE, LAND, DOT, 10, 5), Ok(()));
    assert_eq!(
        pallet.auctions(0),
        AuctionDetails {
            creator: ALICE,
            winner: None,
            token0: LAND,
            token1: DOT,
            min1: 10,
            duration: 5,
            start_at: 1,
        }
    );
    assert_eq!(pallet.auctions(0).end_at() - pallet.auctions(0).start_at, 5);
    assert_eq!(pallet.next_auction_id(), 1);
    assert_eq!(pallet.auction_end_at(6, 0), Some(()));
    for at in 0..20 {
        if at != 6 {
            assert_eq!(pallet.auction_end_at(at, 0), None);
        }
    }
    assert_eq!(pallet.current_winners(0), None);
    assert!(nft.held(LAND));
    assert_eq!(nft.journal, vec![format!("reserve {} {:?}", ALICE, LAND)]);
    assert_eq!(
        pallet.take_events(),
        vec![Event::AuctionCreated(0, ALICE, LAND, DOT, 10, 5, 1, 6)]
    );
}

#[test]
fn create_gives_rising_identifiers() {
    let (mut pallet, _, mut nft) = world();
    assert_eq!(pallet.create_auction(&mut nft, 0, ALICE, LAND, DOT, 1, 5), Ok(()));
    assert_eq!(pallet.create_auction(&mut nft, 0, ALICE, HOUSE, DOT, 1, 6), Ok(()));
    assert_eq!(pallet.create_auction(&mut nft, 3, BOB, BOAT, DOT, 1, 2), Ok(()));
    assert_eq!(pallet.next_auction_id(), 3);
    assert_eq!(pallet.auctions(0).token0, LAND);
    assert_eq!(pallet.auctions(1).token0, HOUSE);
    assert_eq!(pallet.auctions(2).token0, BOAT);
    assert_eq!(pallet.auction_end_at(6, 0), Some(()));
    assert_eq!(pallet.auction_end_at(7, 1), Some(()));
    assert_eq!(pallet.auction_end_at(6, 2), Some(()));
    assert_eq!(pallet.auction_end_at(6, 1), None);
}

#[test]
fn create_with_zero_duration_is_refused() {
    let (mut pallet, _, mut nft) = world();
    let before = nft.clone();
    assert_eq!(
        pallet.create_auction(&mut nft, 0, ALICE, LAND, DOT, 10, 0),
        pallet_error(Error::InvalidDuration)
    );
    assert_eq!(nft, before);
    assert_eq!(pallet.next_auction_id(), 0);
    assert_eq!(pallet.auctions(0), AuctionDetails::default());
    assert_eq!(pallet.take_events(), Vec::<Event>::new());
}

#[test]
fn create_checks_duration_before_the_cap() {
    let mut pallet = Pallet::<Closed>::new();
    let mut nft = Registry::new(&[(LAND, ALICE)]);
    assert_eq!(
        pallet.create_auction(&mut nft, 0, ALICE, LAND, DOT, 10, 0),
        pallet_error(Error::InvalidDuration)
    );
    assert_eq!(
        pallet.create_auction(&mut nft, 0, ALICE, LAND, DOT, 10, 1),
        pallet_error(Error::ExceedMaxAuction)
    );
    assert_eq!(nft.journal, Vec::<String>::new());
}

#[test]
fn create_hands_on_the_refusal_of_the_registry() {
    let (mut pallet, _, mut nft) = world();
    assert_eq!(
        pallet.create_auction(&mut nft, 0, BOB, LAND, DOT, 10, 5),
        Err(CallError::Collaborator(DispatchError::Other("NoPermission")))
    );
    assert_eq!(pallet.next_auction_id(), 0);
    assert_eq!(pallet.auctions(0), AuctionDetails::default());
    assert_eq!(pallet.auction_end_at(6, 0), None);
    assert_eq!(pallet.take_events(), Vec::<Event>::new());
    assert!(!nft.held(LAND));
}

#[test]
fn create_at_the_last_tick_expires_at_the_last_tick() {
    let (mut pallet, _, mut nft) = world();
    assert_eq!(pallet.create_auction(&mut nft, BlockNumber::MAX, ALICE, LAND, DOT, 10, 5), Ok(()));
    assert_eq!(pallet.auctions(0).start_at, BlockNumber::MAX);
    assert_eq!(pallet.auctions(0).duration, 5);
    assert_eq!(pallet.auctions(0).end_at(), BlockNumber::MAX);
    assert_eq!(pallet.auction_end_at(BlockNumber::MAX, 0), Some(()));
}

#[test]
fn cap_is_enforced_per_expiry_tick() {
    let (mut pallet, _, mut nft) = world();
    assert_eq!(pallet.create_auction(&mut nft, 0, ALICE, LAND, DOT, 10, 5), Ok(()));
    assert_eq!(pallet.create_auction(&mut nft, 2, ALICE, HOUSE, DOT, 10, 3), Ok(()));
    pallet.take_events();
    let before = nft.clone();
    assert_eq!(
        pallet.create_auction(&mut nft, 1, BOB, BOAT, DOT, 10, 4),
        pallet_error(Error::ExceedMaxAuction)
    );
    assert_eq!(nft, before);
    assert!(!nft.held(BOAT));
    assert_eq!(pallet.next_auction_id(), 2);
    assert_eq!(pallet.auctions(2), AuctionDetails::default());
    assert_eq!(pallet.auction_end_at(6, 2), None);
    assert_eq!(pallet.take_events(), Vec::<Event>::new());
    assert_eq!(pallet.create_auction(&mut nft, 1, BOB, BOAT, DOT, 10, 5), Ok(()));
    assert_eq!(pallet.auction_end_at(7, 2), Some(()));
}

#[test]
fn bids_rotate_the_escrow_and_settlement_pays_out() {
    let (mut pallet, mut currency, mut nft) = world();
    assert_eq!(pallet.create_auction(&mut nft, 0, ALICE, LAND, DOT, 10, 5), Ok(()));
    assert_eq!(pallet.auctions(0).start_at, 1);
    assert_eq!(pallet.auctions(0).end_at(), 6);

    assert_eq!(pallet.bid_auction(&mut currency, 2, BOB, 0, 10), Ok(()));
    assert_eq!(pallet.current_winners(0), Some((BOB, 10)));
    assert_eq!(currency.reserved(BOB), 10);
    assert_eq!(currency.free(BOB), 90);

    let before = currency.clone();
    assert_eq!(
        pallet.bid_auction(&mut currency, 3, CAROL, 0, 8),
        pallet_error(Error::InvalidBidAmount)
    );
    assert_eq!(currency, before);
    assert_eq!(pallet.current_winners(0), Some((BOB, 10)));

    currency.journal.clear();
    assert_eq!(pallet.bid_auction(&mut currency, 3, ALICE, 0, 15), Ok(()));
    assert_eq!(pallet.current_winners(0), Some((ALICE, 15)));
    assert_eq!(
        currency.journal,
        vec![format!("unreserve {} {} 10", DOT, BOB), format!("reserve {} {} 15", DOT, ALICE)]
    );
    assert_eq!(currency.reserved(BOB), 0);
    assert_eq!(currency.free(BOB), 100);
    assert_eq!(currency.reserved(ALICE), 15);

    // A bidder other than the creator takes the lead before the end.
    assert_eq!(pallet.bid_auction(&mut currency, 6, BOB, 0, 16), Ok(()));
    assert_eq!(currency.reserved(ALICE), 0);
    assert_eq!(currency.reserved(BOB), 16);
    pallet.take_events();

    for tick in 3..6 {
        assert_eq!(pallet.on_finalize(&mut currency, &mut nft, tick), Ok(()));
        assert_eq!(pallet.auctions(0).creator, ALICE);
    }
    currency.journal.clear();
    nft.journal.clear();
    assert_eq!(
        pallet.settlement_calls(6),
        vec![
            Call::AssetUnreserve { who: ALICE, token: LAND },
            Call::CurrencyUnreserve { currency_id: DOT, who: BOB, value: 16 },
            Call::CurrencyTransfer { currency_id: DOT, from: BOB, to: ALICE, amount: 16 },
            Call::AssetTransfer { from: ALICE, to: BOB, token: LAND },
        ]
    );
    assert_eq!(pallet.on_finalize(&mut currency, &mut nft, 6), Ok(()));
    assert_eq!(
        currency.journal,
        vec![format!("unreserve {} {} 16", DOT, BOB), format!("transfer {} {} {} 16", DOT, BOB, ALICE)]
    );
    assert_eq!(
        nft.journal,
        vec![format!("unreserve {} {:?}", ALICE, LAND), format!("transfer {} {} {:?}", ALICE, BOB, LAND)]
    );
    assert_eq!(currency.free(ALICE), 116);
    assert_eq!(currency.free(BOB), 84);
    assert_eq!(currency.reserved(BOB), 0);
    assert_eq!(nft.owner(LAND), Some(BOB));
    assert!(!nft.held(LAND));
    assert_eq!(pallet.take_events(), vec![Event::AuctionEnd(0, Some(BOB), Some(16))]);
    assert_eq!(pallet.auctions(0), AuctionDetails::default());
    assert_eq!(pallet.current_winners(0), None);
    assert_eq!(pallet.auction_end_at(6, 0), None);
}

#[test]
fn settlement_transfers_the_leading_bid() {
    let (mut pallet, mut currency, mut nft) = world();
    assert_eq!(pallet.create_auction(&mut nft, 0, ALICE, LAND, DOT, 10, 5), Ok(()));
    assert_eq!(pallet.bid_auction(&mut currency, 2, BOB, 0, 10), Ok(()));
    assert_eq!(
        pallet.bid_auction(&mut currency, 3, BOB, 0, 8),
        pallet_error(Error::InvalidBidAmount)
    );
    assert_eq!(pallet.bid_auction(&mut currency, 3, BOB, 0, 15), Ok(()));
    assert_eq!(currency.reserved(BOB), 15);
    assert_eq!(currency.free(BOB), 85);
    assert_eq!(pallet.on_finalize(&mut currency, &mut nft, 6), Ok(()));
    assert_eq!(currency.free(ALICE), 115);
    assert_eq!(currency.free(BOB), 85);
    assert_eq!(currency.reserved(BOB), 0);
    assert_eq!(nft.owner(LAND), Some(BOB));
    assert_eq!(
        pallet.take_events(),
        vec![
            Event::AuctionCreated(0, ALICE, LAND, DOT, 10, 5, 1, 6),
            Event::AuctionBid(0, BOB, 10),
            Event::AuctionBid(0, BOB, 15),
            Event::AuctionEnd(0, Some(BOB), Some(15)),
        ]
    );
}

#[test]
fn cancel_before_start_returns_the_asset() {
    let (mut pallet, mut currency, mut nft) = world();
    assert_eq!(pallet.create_auction(&mut nft, 0, ALICE, LAND, DOT, 10, 3), Ok(()));
    assert_eq!(pallet.auctions(0).start_at, 1);
    assert_eq!(pallet.auctions(0).end_at(), 4);
    assert!(nft.held(LAND));
    assert_eq!(pallet.cancel_auction(&mut nft, 0, ALICE, 0), Ok(()));
    assert!(!nft.held(LAND));
    assert_eq!(nft.owner(LAND), Some(ALICE));
    assert_eq!(pallet.auctions(0), AuctionDetails::default());
    assert_eq!(
        pallet.take_events(),
        vec![Event::AuctionCreated(0, ALICE, LAND, DOT, 10, 3, 1, 4), Event::AuctionCancelled(0)]
    );
    // The entry in the expiry index stays behind and settlement passes over it.
    assert_eq!(pallet.auction_end_at(4, 0), Some(()));
    nft.journal.clear();
    assert_eq!(pallet.settlement_calls(4), Vec::<Call>::new());
    assert_eq!(pallet.on_finalize(&mut currency, &mut nft, 4), Ok(()));
    assert_eq!(nft.journal, Vec::<String>::new());
    assert_eq!(currency.journal, Vec::<String>::new());
    assert_eq!(pallet.take_events(), Vec::<Event>::new());
    assert_eq!(pallet.auction_end_at(4, 0), None);
    assert_eq!(nft.owner(LAND), Some(ALICE));
}

#[test]
fn cancelled_auction_still_counts_toward_the_cap() {
    let (mut pallet, _, mut nft) = world();
    assert_eq!(pallet.create_auction(&mut nft, 0, ALICE, LAND, DOT, 10, 3), Ok(()));
    assert_eq!(pallet.create_auction(&mut nft, 0, ALICE, HOUSE, DOT, 10, 3), Ok(()));
    assert_eq!(pallet.cancel_auction(&mut nft, 0, ALICE, 0), Ok(()));
    assert_eq!(
        pallet.create_auction(&mut nft, 0, BOB, BOAT, DOT, 10, 3),
        pallet_error(Error::ExceedMaxAuction)
    );
}

#[test]
fn cancel_by_another_account_is_refused() {
    let (mut pallet, _, mut nft) = world();
    assert_eq!(pallet.create_auction(&mut nft, 0, ALICE, LAND, DOT, 10, 3), Ok(()));
    let before = nft.clone();
    assert_eq!(pallet.cancel_auction(&mut nft, 0, BOB, 0), pallet_error(Error::InvalidCreator));
    assert_eq!(nft, before);
    assert_eq!(pallet.auctions(0).creator, ALICE);
}

#[test]
fn cancel_from_the_first_active_tick_on_is_refused() {
    let (mut pallet, _, mut nft) = world();
    assert_eq!(pallet.create_auction(&mut nft, 4, ALICE, LAND, DOT, 10, 3), Ok(()));
    let before = nft.clone();
    assert_eq!(pallet.cancel_auction(&mut nft, 5, ALICE, 0), pallet_error(Error::AuctionStarted));
    assert_eq!(pallet.cancel_auction(&mut nft, 6, ALICE, 0), pallet_error(Error::AuctionStarted));
    assert_eq!(nft, before);
    assert_eq!(pallet.auctions(0).creator, ALICE);
    assert_eq!(pallet.cancel_auction(&mut nft, 4, ALICE, 0), Ok(()));
}

#[test]
fn cancel_checks_the_creator_before_the_tick() {
    let (mut pallet, _, mut nft) = world();
    assert_eq!(pallet.create_auction(&mut nft, 4, ALICE, LAND, DOT, 10, 3), Ok(()));
    assert_eq!(pallet.cancel_auction(&mut nft, 9, BOB, 0), pallet_error(Error::InvalidCreator));
}

#[test]
fn cancel_of_an_unknown_auction_is_refused() {
    let (mut pallet, _, mut nft) = world();
    assert_eq!(pallet.cancel_auction(&mut nft, 0, ALICE, 5), pallet_error(Error::InvalidCreator));
    assert_eq!(pallet.cancel_auction(&mut nft, 0, 0, 5), pallet_error(Error::AuctionStarted));
    assert_eq!(nft.journal, Vec::<String>::new());
}

#[test]
fn cancel_hands_on_the_refusal_of_the_registry() {
    let (mut pallet, _, mut nft) = world();
    assert_eq!(pallet.create_auction(&mut nft, 0, ALICE, LAND, DOT, 10, 3), Ok(()));
    nft.held.insert(LAND, false);
    pallet.take_events();
    assert_eq!(
        pallet.cancel_auction(&mut nft, 0, ALICE, 0),
        Err(CallError::Collaborator(DispatchError::Other("NotReserved")))
    );
    assert_eq!(pallet.auctions(0).creator, ALICE);
    assert_eq!(pallet.take_events(), Vec::<Event>::new());
}

#[test]
fn bid_under_the_least_bid_is_refused() {
    let (mut pallet, mut currency, mut nft) = world();
    assert_eq!(pallet.create_auction(&mut nft, 0, ALICE, LAND, DOT, 10, 5), Ok(()));
    assert_eq!(
        pallet.bid_auction(&mut currency, 2, BOB, 0, 9),
        pallet_error(Error::InvalidBidAmount)
    );
    assert_eq!(currency.journal, Vec::<String>::new());
    assert_eq!(pallet.current_winners(0), None);
    assert_eq!(pallet.bid_auction(&mut currency, 2, BOB, 0, 10), Ok(()));
}

#[test]
fn bid_equal_to_the_lead_is_refused() {
    let (mut pallet, mut currency, mut nft) = world();
    assert_eq!(pallet.create_auction(&mut nft, 0, ALICE, LAND, DOT, 10, 5), Ok(()));
    assert_eq!(pallet.bid_auction(&mut currency, 2, BOB, 0, 11), Ok(()));
    let before = currency.clone();
    assert_eq!(
        pallet.bid_auction(&mut currency, 2, ALICE, 0, 11),
        pallet_error(Error::InvalidBidAmount)
    );
    assert_eq!(currency, before);
    assert_eq!(pallet.bid_auction(&mut currency, 2, ALICE, 0, 12), Ok(()));
}

#[test]
fn bid_is_open_through_the_expiry_tick() {
    let (mut pallet, mut currency, mut nft) = world();
    assert_eq!(pallet.create_auction(&mut nft, 0, ALICE, LAND, DOT, 10, 5), Ok(()));
    assert_eq!(pallet.bid_auction(&mut currency, 6, BOB, 0, 10), Ok(()));
    assert_eq!(
        pallet.bid_auction(&mut currency, 7, BOB, 0, 20),
        pallet_error(Error::AuctionExpired)
    );
    assert_eq!(pallet.current_winners(0), Some((BOB, 10)));
}

#[test]
fn bid_checks_the_least_bid_before_the_tick() {
    let (mut pallet, mut currency, mut nft) = world();
    assert_eq!(pallet.create_auction(&mut nft, 0, ALICE, LAND, DOT, 10, 5), Ok(()));
    assert_eq!(
        pallet.bid_auction(&mut currency, 7, BOB, 0, 9),
        pallet_error(Error::InvalidBidAmount)
    );
}

#[test]
fn bid_before_the_first_active_tick_is_accepted() {
    let (mut pallet, mut currency, mut nft) = world();
    assert_eq!(pallet.create_auction(&mut nft, 3, ALICE, LAND, DOT, 10, 5), Ok(()));
    assert_eq!(pallet.bid_auction(&mut currency, 3, BOB, 0, 10), Ok(()));
    assert_eq!(pallet.current_winners(0), Some((BOB, 10)));
}

#[test]
fn bid_on_an_unknown_auction_reads_all_zero_terms() {
    let (mut pallet, mut currency, _) = world();
    assert_eq!(
        pallet.bid_auction(&mut currency, 1, BOB, 5, 10),
        pallet_error(Error::AuctionExpired)
    );
    assert_eq!(currency.journal, Vec::<String>::new());
    currency.free.insert((0, BOB), 50);
    assert_eq!(pallet.bid_auction(&mut currency, 0, BOB, 5, 10), Ok(()));
    assert_eq!(currency.journal, vec![format!("reserve 0 {} 10", BOB)]);
    assert_eq!(pallet.current_winners(5), Some((BOB, 10)));
}

#[test]
fn bid_hands_on_the_refusal_of_the_ledger() {
    let (mut pallet, mut currency, mut nft) = world();
    assert_eq!(pallet.create_auction(&mut nft, 0, ALICE, LAND, DOT, 10, 5), Ok(()));
    assert_eq!(
        pallet.bid_auction(&mut currency, 2, CAROL, 0, 13),
        Err(CallError::Collaborator(DispatchError::Token(TokenError::FundsUnavailable)))
    );
    assert_eq!(pallet.current_winners(0), None);
    assert_eq!(pallet.bid_auction(&mut currency, 2, BOB, 0, 20), Ok(()));
    pallet.take_events();
    currency.journal.clear();
    // The hold for the leader is lifted before the ledger is asked for the new one.
    assert_eq!(
        pallet.bid_auction(&mut currency, 2, CAROL, 0, 21),
        Err(CallError::Collaborator(DispatchError::Token(TokenError::FundsUnavailable)))
    );
    assert_eq!(
        currency.journal,
        vec![format!("unreserve {} {} 20", DOT, BOB), format!("reserve {} {} 21", DOT, CAROL)]
    );
    assert_eq!(pallet.current_winners(0), Some((BOB, 20)));
    assert_eq!(pallet.take_events(), Vec::<Event>::new());
}

#[test]
fn leader_can_raise_with_the_funds_on_hold() {
    let (mut pallet, mut currency, mut nft) = world();
    assert_eq!(pallet.create_auction(&mut nft, 0, ALICE, LAND, DOT, 10, 5), Ok(()));
    assert_eq!(pallet.bid_auction(&mut currency, 2, CAROL, 0, 10), Ok(()));
    assert_eq!(currency.free(CAROL), 2);
    assert_eq!(pallet.bid_auction(&mut currency, 2, CAROL, 0, 12), Ok(()));
    assert_eq!(currency.free(CAROL), 0);
    assert_eq!(currency.reserved(CAROL), 12);
    assert_eq!(pallet.current_winners(0), Some((CAROL, 12)));
}

#[test]
fn bids_on_two_auctions_keep_one_record_each() {
    let (mut pallet, mut currency, mut nft) = world();
    assert_eq!(pallet.create_auction(&mut nft, 0, ALICE, LAND, DOT, 10, 5), Ok(()));
    assert_eq!(pallet.create_auction(&mut nft, 0, ALICE, HOUSE, DOT, 20, 5), Ok(()));
    assert_eq!(pallet.bid_auction(&mut currency, 1, BOB, 0, 10), Ok(()));
    assert_eq!(pallet.bid_auction(&mut currency, 1, BOB, 1, 20), Ok(()));
    assert_eq!(pallet.bid_auction(&mut currency, 1, ALICE, 1, 30), Ok(()));
    assert_eq!(pallet.current_winners(0), Some((BOB, 10)));
    assert_eq!(pallet.current_winners(1), Some((ALICE, 30)));
    assert_eq!(currency.reserved(BOB), 10);
    assert_eq!(currency.reserved(ALICE), 30);
}

#[test]
fn settlement_without_bid_returns_the_asset() {
    let (mut pallet, mut currency, mut nft) = world();
    assert_eq!(pallet.create_auction(&mut nft, 0, ALICE, LAND, DOT, 10, 5), Ok(()));
    pallet.take_events();
    nft.journal.clear();
    assert_eq!(pallet.settlement_calls(6), vec![Call::AssetUnreserve { who: ALICE, token: LAND }]);
    assert_eq!(pallet.on_finalize(&mut currency, &mut nft, 6), Ok(()));
    assert_eq!(nft.journal, vec![format!("unreserve {} {:?}", ALICE, LAND)]);
    assert_eq!(currency.journal, Vec::<String>::new());
    assert_eq!(nft.owner(LAND), Some(ALICE));
    assert!(!nft.held(LAND));
    assert_eq!(pallet.take_events(), vec![Event::AuctionEnd(0, None, None)]);
    assert_eq!(pallet.auctions(0), AuctionDetails::default());
    assert_eq!(pallet.auction_end_at(6, 0), None);
}

#[test]
fn settlement_takes_the_auctions_of_its_tick_in_order() {
    let (mut pallet, mut currency, mut nft) = world();
    assert_eq!(pallet.create_auction(&mut nft, 0, ALICE, LAND, DOT, 10, 5), Ok(()));
    assert_eq!(pallet.create_auction(&mut nft, 0, BOB, BOAT, DOT, 10, 6), Ok(()));
    assert_eq!(pallet.create_auction(&mut nft, 1, ALICE, HOUSE, DOT, 10, 4), Ok(()));
    assert_eq!(pallet.bid_auction(&mut currency, 2, BOB, 2, 30), Ok(()));
    assert_eq!(pallet.bid_auction(&mut currency, 2, ALICE, 1, 40), Ok(()));
    pallet.take_events();
    assert_eq!(
        pallet.settlement_calls(6),
        vec![
            Call::AssetUnreserve { who: ALICE, token: LAND },
            Call::AssetUnreserve { who: ALICE, token: HOUSE },
            Call::CurrencyUnreserve { currency_id: DOT, who: BOB, value: 30 },
            Call::CurrencyTransfer { currency_id: DOT, from: BOB, to: ALICE, amount: 30 },
            Call::AssetTransfer { from: ALICE, to: BOB, token: HOUSE },
        ]
    );
    assert_eq!(pallet.on_finalize(&mut currency, &mut nft, 6), Ok(()));
    assert_eq!(
        pallet.take_events(),
        vec![Event::AuctionEnd(0, None, None), Event::AuctionEnd(2, Some(BOB), Some(30))]
    );
    assert_eq!(pallet.auctions(0), AuctionDetails::default());
    assert_eq!(pallet.auctions(2), AuctionDetails::default());
    assert_eq!(pallet.current_winners(2), None);
    assert_eq!(pallet.auction_end_at(6, 0), None);
    assert_eq!(pallet.auction_end_at(6, 2), None);
    // The auction of the next tick is untouched.
    assert_eq!(pallet.auctions(1).creator, BOB);
    assert_eq!(pallet.current_winners(1), Some((ALICE, 40)));
    assert_eq!(pallet.auction_end_at(7, 1), Some(()));
    assert!(nft.held(BOAT));
    assert_eq!(currency.reserved(ALICE), 40);
    // A second settlement of the tick finds nothing.
    currency.journal.clear();
    nft.journal.clear();
    assert_eq!(pallet.settlement_calls(6), Vec::<Call>::new());
    assert_eq!(pallet.on_finalize(&mut currency, &mut nft, 6), Ok(()));
    assert_eq!(currency.journal, Vec::<String>::new());
    assert_eq!(nft.journal, Vec::<String>::new());
    assert_eq!(pallet.take_events(), Vec::<Event>::new());
    assert_eq!(pallet.on_finalize(&mut currency, &mut nft, 7), Ok(()));
    assert_eq!(pallet.take_events(), vec![Event::AuctionEnd(1, Some(ALICE), Some(40))]);
    assert_eq!(nft.owner(BOAT), Some(ALICE));
}

#[test]
fn settlement_that_is_refused_changes_no_table() {
    let (mut pallet, mut currency, mut nft) = world();
    assert_eq!(pallet.create_auction(&mut nft, 0, ALICE, LAND, DOT, 10, 5), Ok(()));
    assert_eq!(pallet.create_auction(&mut nft, 0, ALICE, HOUSE, DOT, 10, 5), Ok(()));
    assert_eq!(pallet.bid_auction(&mut currency, 2, BOB, 0, 30), Ok(()));
    pallet.take_events();
    // The registry will refuse to lift the hold on the second asset.
    nft.held.insert(HOUSE, false);
    nft.journal.clear();
    currency.journal.clear();
    assert_eq!(
        pallet.on_finalize(&mut currency, &mut nft, 6),
        Err(CallError::Collaborator(DispatchError::Other("NotReserved")))
    );
    // The calls up to the one refused were made.
    assert_eq!(
        nft.journal,
        vec![
            format!("unreserve {} {:?}", ALICE, LAND),
            format!("transfer {} {} {:?}", ALICE, BOB, LAND),
            format!("unreserve {} {:?}", ALICE, HOUSE),
        ]
    );
    assert_eq!(pallet.auctions(0).creator, ALICE);
    assert_eq!(pallet.auctions(1).creator, ALICE);
    assert_eq!(pallet.current_winners(0), Some((BOB, 30)));
    assert_eq!(pallet.auction_end_at(6, 0), Some(()));
    assert_eq!(pallet.auction_end_at(6, 1), Some(()));
    assert_eq!(pallet.take_events(), Vec::<Event>::new());
}

#[test]
fn settlement_stops_at_a_refused_transfer() {
    let (mut pallet, mut currency, mut nft) = world();
    assert_eq!(pallet.create_auction(&mut nft, 0, ALICE, LAND, DOT, 10, 5), Ok(()));
    assert_eq!(pallet.bid_auction(&mut currency, 2, BOB, 0, 30), Ok(()));
    // Most of the bidder's funds have gone, on hold or not.
    currency.reserved.insert((DOT, BOB), 10);
    currency.free.insert((DOT, BOB), 0);
    currency.journal.clear();
    nft.journal.clear();
    assert_eq!(
        pallet.on_finalize(&mut currency, &mut nft, 6),
        Err(CallError::Collaborator(DispatchError::Token(TokenError::FundsUnavailable)))
    );
    assert_eq!(
        currency.journal,
        vec![format!("unreserve {} {} 30", DOT, BOB), format!("transfer {} {} {} 30", DOT, BOB, ALICE)]
    );
    assert_eq!(nft.journal, vec![format!("unreserve {} {:?}", ALICE, LAND)]);
    assert_eq!(nft.owner(LAND), Some(ALICE));
    assert_eq!(pallet.current_winners(0), Some((BOB, 30)));
    assert_eq!(pallet.auction_end_at(6, 0), Some(()));
}

#[test]
fn settlement_asks_at_most_four_calls_of_each_of_two_auctions() {
    let (mut pallet, mut currency, mut nft) = world();
    assert_eq!(pallet.create_auction(&mut nft, 0, ALICE, LAND, DOT, 10, 5), Ok(()));
    assert_eq!(pallet.create_auction(&mut nft, 0, ALICE, HOUSE, DOT, 10, 5), Ok(()));
    assert_eq!(pallet.bid_auction(&mut currency, 1, BOB, 0, 10), Ok(()));
    assert_eq!(pallet.bid_auction(&mut currency, 1, BOB, 1, 10), Ok(()));
    assert_eq!(pallet.settlement_calls(6).len(), 8);
    assert_eq!(pallet.on_finalize(&mut currency, &mut nft, 6), Ok(()));
    assert_eq!(nft.owner(LAND), Some(BOB));
    assert_eq!(nft.owner(HOUSE), Some(BOB));
    assert_eq!(currency.free(ALICE), 120);
    assert_eq!(currency.free(BOB), 80);
    assert_eq!(currency.reserved(BOB), 0);
}

#[test]
fn settlement_of_an_empty_tick_does_nothing() {
    let (mut pallet, mut currency, mut nft) = world();
    assert_eq!(pallet.create_auction(&mut nft, 0, ALICE, LAND, DOT, 10, 5), Ok(()));
    pallet.take_events();
    nft.journal.clear();
    for tick in 0..6 {
        assert_eq!(pallet.on_finalize(&mut currency, &mut nft, tick), Ok(()));
    }
    assert_eq!(nft.journal, Vec::<String>::new());
    assert_eq!(pallet.take_events(), Vec::<Event>::new());
    assert_eq!(pallet.auctions(0).creator, ALICE);
    assert_eq!(pallet.auction_end_at(6, 0), Some(()));
}

#[test]
fn bid_left_by_a_cancelled_auction_stays() {
    let (mut pallet, mut currency, mut nft) = world();
    assert_eq!(pallet.create_auction(&mut nft, 0, ALICE, LAND, DOT, 10, 5), Ok(()));
    assert_eq!(pallet.bid_auction(&mut currency, 0, BOB, 0, 10), Ok(()));
    assert_eq!(pallet.cancel_auction(&mut nft, 0, ALICE, 0), Ok(()));
    assert_eq!(pallet.current_winners(0), Some((BOB, 10)));
    assert_eq!(pallet.on_finalize(&mut currency, &mut nft, 6), Ok(()));
    assert_eq!(pallet.current_winners(0), Some((BOB, 10)));
    assert_eq!(currency.reserved(BOB), 10);
}

#[test]
fn take_events_empties_the_queue() {
    let (mut pallet, mut currency, mut nft) = world();
    assert_eq!(pallet.create_auction(&mut nft, 0, ALICE, LAND, DOT, 10, 5), Ok(()));
    assert_eq!(pallet.bid_auction(&mut currency, 1, BOB, 0, 10), Ok(()));
    assert_eq!(
        pallet.take_events(),
        vec![Event::AuctionCreated(0, ALICE, LAND, DOT, 10, 5, 1, 6), Event::AuctionBid(0, BOB, 10)]
    );
    assert_eq!(pallet.take_events(), Vec::<Event>::new());
    assert_eq!(pallet.auctions(0).creator, ALICE);
    assert_eq!(pallet.current_winners(0), Some((BOB, 10)));
}

#[test]
fn perform_makes_the_call_it_names() {
    let (_, mut currency, mut nft) = world();
    nft.held.insert(LAND, true);
    currency.reserved.insert((DOT, BOB), 20);
    assert_eq!(perform(&mut currency, &mut nft, Call::AssetUnreserve { who: ALICE, token: LAND }), Ok(()));
    assert!(!nft.held(LAND));
    assert_eq!(
        perform(&mut currency, &mut nft, Call::AssetTransfer { from: ALICE, to: BOB, token: LAND }),
        Ok(())
    );
    assert_eq!(nft.owner(LAND), Some(BOB));
    assert_eq!(
        perform(
            &mut currency,
            &mut nft,
            Call::CurrencyUnreserve { currency_id: DOT, who: BOB, value: 5 }
        ),
        Ok(())
    );
    assert_eq!(currency.reserved(BOB), 15);
    assert_eq!(currency.free(BOB), 105);
    assert_eq!(
        perform(
            &mut currency,
            &mut nft,
            Call::CurrencyTransfer { currency_id: DOT, from: BOB, to: ALICE, amount: 105 }
        ),
        Ok(())
    );
    assert_eq!(currency.free(ALICE), 205);
    assert_eq!(
        perform(
            &mut currency,
            &mut nft,
            Call::CurrencyTransfer { currency_id: DOT, from: BOB, to: ALICE, amount: 1 }
        ),
        Err(DispatchError::Token(TokenError::FundsUnavailable))
    );
}

#[test]
fn perform_all_stops_at_the_first_refusal() {
    let (_, mut currency, mut nft) = world();
    nft.held.insert(LAND, true);
    let calls = vec![
        Call::AssetUnreserve { who: ALICE, token: LAND },
        Call::AssetUnreserve { who: ALICE, token: HOUSE },
        Call::AssetTransfer { from: ALICE, to: BOB, token: LAND },
    ];
    assert_eq!(
        perform_all(&mut currency, &mut nft, &calls),
        Err(DispatchError::Other("NotReserved"))
    );
    assert_eq!(
        nft.journal,
        vec![format!("unreserve {} {:?}", ALICE, LAND), format!("unreserve {} {:?}", ALICE, HOUSE)]
    );
    assert_eq!(nft.owner(LAND), Some(ALICE));
    assert_eq!(perform_all(&mut currency, &mut nft, &Vec::new()), Ok(()));
}
