//! Core of a sandwich-attack indexer for streamed blockchain transactions.
//!
//! Raw transactions arrive either pushed by a webhook or pulled from an RPC
//! collaborator. The library reconstructs per-block batches, resolves
//! compiled instructions against a transaction's account-key table, parses
//! swap instruction payloads for a fixed registry of monitored exchange
//! pools, and evaluates sliding windows of three consecutive swaps for the
//! sandwich pattern: the same attacker wallet trading immediately before and
//! after a victim, closing the round trip and pocketing the difference.
//!
//! All I/O (HTTP front door, RPC fetching, persistence) lives outside this
//! crate; the library works on plain values and is verified.

pub mod config;
pub mod error;
pub mod indexer;
pub mod types;
