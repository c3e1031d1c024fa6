//! A verified core for a cross-chain ECDSA signature indexer.
//!
//! The library decodes hex-encoded signature material from JSON-RPC block
//! responses, filters out known synthetic signatures, records signature
//! tuples with collision detection, and drives a durable-cursor ingestion
//! loop for each chain.

pub mod codec;
pub mod cursor;
pub mod engine;
pub mod fetch;
pub mod filter;
pub mod store;
pub mod types;
