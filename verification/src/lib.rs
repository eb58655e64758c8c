//! Off-chain adjudication agent for the memory-match dispute game.
//!
//! Given the decoded on-chain state of one dispute instance and a read-only
//! archive of execution traces, the reconciliation engine decides the single
//! next action that advances the dispute: stay idle, request more trace
//! computation, or submit one on-chain transaction.

pub mod words;
pub mod data;
pub mod mm;
pub mod laws;
