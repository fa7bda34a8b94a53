//! Two ledgers kept as explicit state: a registry of non-fungible tokens and a
//! ledger of transfers between participants.
//!
//! Each ledger is a value that its owner loads, changes through the
//! operations here, and commits or discards as a whole. Every operation is
//! specified by the state it leaves and the answer it gives, over a
//! mathematical view of the ledger; what follows for whole sequences of
//! operations is proved in the two `history` modules.

pub mod address;
pub mod address_map;
pub mod nft;
pub mod nft_history;
pub mod transactions;
pub mod transactions_history;

pub use address::Address;
pub use address_map::AddressMap;
pub use nft::{Error, NFTContract, Notification, NFT};
pub use transactions::{TransactionDetail, Transactions};
