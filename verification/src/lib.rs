//! A verified instruction-indexing and transaction-context engine for Solana
//! blocks: it rebuilds the call tree of every transaction's instructions,
//! replays per-account balance state in execution order, dispatches each
//! instruction to a program decoder, and emits keyed output rows.

pub mod context;
pub mod events;
pub mod indexer;
pub mod laws;
pub mod model;
pub mod pipeline;
pub mod rows;
