//! A fee-bearing token ledger, a registry of unique 9 × 9 pixel assets and a
//! marketplace for them, kept as one state machine: [`SimpleTokenNft`].
//!
//! Every operation either succeeds and moves the state as its contract
//! says, or returns an [`Error`] and leaves the state as it was. The
//! contracts are stated over [`Ledger`], the mathematical view of the state
//! (`model`); what holds of every well-formed ledger is proved in `laws`
//! and `conservation`.
//!
//! The ledger does not authenticate anybody. Whoever runs it says, with an
//! [`Auth`], which actors consented to the call at hand.

pub mod address;
pub mod amount;
pub mod conservation;
pub mod error;
pub mod holders;
pub mod laws;
pub mod list;
pub mod market;
pub mod model;
pub mod palette;
pub mod registry;
pub mod snapshot;
pub mod state;
pub mod token;

pub use address::{Address, Auth};
pub use amount::mul_pow10_i128;
pub use error::Error;
pub use list::vec_remove_once;
pub use model::{Asset, Holder, Ledger, Listing};
pub use snapshot::Snapshot;
pub use state::{Account, NftData, SimpleTokenNft};
pub use palette::default_palette;
