//! A ledger of uniquely identified collectibles ("kitties").
//!
//! The ledger mints kitties, records who owns each of them, lets an owner put
//! a price on one, and moves ownership by transfer or by purchase. Besides the
//! record of each kitty it keeps two enumerations, one of every kitty and one
//! per owner, and every operation leaves all of them in agreement.
//!
//! Identity of the caller, generation of identifiers, the movement of funds
//! and the delivery of events belong to the host: the operations here take
//! plain values and hand back the event to deliver.

pub mod types;
pub mod enumeration;
pub mod store;
pub mod model;
pub mod laws;
pub mod ledger;
pub mod identifier;

pub use crate::types::{AccountId, Balance, Error, Event, Kitty, KittyId, Purchase};
pub use crate::model::LedgerView;
pub use crate::ledger::Ledger;
pub use crate::identifier::kitty_id_preimage;
pub use crate::enumeration::EnumerationIndex;
pub use crate::store::{AssetStore, OwnershipIndex};
