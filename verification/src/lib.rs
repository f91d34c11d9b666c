//! Decision logic of a bot that watches a chain for arbitrage, liquidation and
//! sandwich opportunities: what is worth doing, in which order, and with
//! which nonces. Reading the chain and sending transactions is the caller's
//! part; everything here works on plain values.

pub mod amount;
pub mod bot;
pub mod calldata;
pub mod estimator;
pub mod executor;
pub mod finder;
pub mod inflight;
pub mod opportunity;
pub mod primitives;
pub mod ranker;
pub mod sandwich;
pub mod supervisor;
