//! A private auction engine for single non-fungible tokens.
//!
//! The crate models the deterministic core of an on-chain auction contract:
//! the auction state machine (English, Dutch and Swap formats), the ordered
//! bid ledger with bidder-cap eviction, the settlement engine that splits a
//! winning bid between the marketplace fee, royalty commissions and the
//! seller's beneficiary, the append-only event log, and a detached
//! gift/escrow flow. External collaborators (the host ledger's storage and
//! transfer primitives, the KYC and synthetic-bid permission services, the
//! NFT contract) appear only at their interface boundary: their verdicts are
//! inputs, and the fund movements each transition demands are returned as
//! explicit instructions for the host to execute.

pub mod account;
pub mod auction;
pub mod bids;
pub mod commission;
pub mod constructors;
pub mod data;
pub mod dutch;
pub mod english;
pub mod entry_dutch;
pub mod entry_english;
pub mod entry_gift;
pub mod entry_swap;
pub mod error;
pub mod events;
pub mod gift;
pub mod swap;
pub mod utils;
