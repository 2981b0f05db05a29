//! Cross-venue price aggregation and spread detection for decentralized
//! exchanges: exact price models per venue family, a last-write-wins price
//! cache, per-pool listener state machines, and the per-pair decision to
//! trade.
pub mod bignum;
pub mod types;
pub mod pricing;
pub mod tracker;
pub mod listener;
pub mod arb;
pub mod resolver;
pub mod config;
