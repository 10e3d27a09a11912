//! A verified administrator-controlled fungible-asset ledger: per-holder
//! balances, per-holder authorization flags, a single administrator identity,
//! token metadata, and an append-only audit log of events.
//!
//! The ledger is a pure state machine. The host concerns around it — how an
//! authorization proof is verified, where the store is persisted, where events
//! are shipped — stay with the caller: an operation takes the identity the
//! host has already proven and returns an explicit error kind instead of
//! aborting. Every operation either applies all of its writes and appends its
//! event, or fails and changes nothing.

pub mod errors;
pub mod events;
pub mod hello;
pub mod laws;
pub mod ledger;
pub mod store;

pub use errors::TokenError;
pub use events::TokenEvent;
pub use hello::HelloContract;
pub use ledger::SimpleToken;
pub use ledger::TokenMetadata;
