//! A peg-reconciliation engine that keeps one side of a two-party payment
//! channel at a fixed fiat value while the price of the channel's native
//! asset moves.
//!
//! All amounts are integers: native amounts in satoshis (and millisatoshis
//! for payments), fiat amounts in cents, exchange rates in cents per bitcoin.
pub mod error;
pub mod money;
pub mod channel;
pub mod reconcile;
pub mod policy;
pub mod payment;
pub mod engine;
pub mod registry;
