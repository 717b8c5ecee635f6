//! A time-bounded auction engine.
//!
//! A creator escrows a non-fungible asset, bidders escrow currency against it,
//! and the engine settles every auction at the tick fixed when it was created.
//! The currency ledger and the asset registry belong to the host; the engine
//! reaches them through [`MultiReservableCurrency`] and [`NFT`].

pub mod cli;
pub mod collaborators;
pub mod details;
pub mod laws;
pub mod pallet;
pub mod primitives;
pub mod state;

pub use collaborators::{perform, perform_all, Call, MultiReservableCurrency, NFT};
pub use details::AuctionDetails;
pub use pallet::{Config, Pallet};
pub use primitives::{
    AccountId, AuctionId, Balance, BlockNumber, CallError, ClassId, CurrencyId, DispatchResult,
    Error, MaxAuction, TokenId,
};
pub use state::{Event, State};
