//! Tip accounting and collectible minting for content items.
//!
//! The crate holds the accounting and eligibility state machine of a tipping
//! platform. Every tip is split between a creator and the platform, an item's
//! total grows with each of its tips, and an item whose tips have crossed a
//! threshold can be minted once as a collectible, whose ownership can then be
//! transferred.
//!
//! The state machine does no input or output. A call is handed who authorized
//! it and what time it is, works on the records that were brought in with the
//! `restore` functions, or on a state that never left memory, and leaves the
//! new records to be read back. A refused call changes nothing. Of the host
//! environment it uses the vectors in which the owners' lists are kept.
//!
//! - [`tipping`]: the tipping contract, with the fee split and the two ways
//!   of moving a tip's value.
//! - [`article_nft`]: the collectible contract, with minting and transfer.
//! - [`governance`]: administrator, fee, threshold and pause flag.
//! - [`auth`]: the authorization guard.
//! - [`registry`]: an owner's list of token ids, a vector of the host.
//! - [`table`]: the keyed store that the contracts keep their records in.
//! - [`identity`]: accounts and items.
//! - [`error`]: why a call is refused.

pub mod article_nft;
pub mod auth;
pub mod error;
pub mod governance;
pub mod identity;
pub mod registry;
pub mod table;
pub mod tipping;
