//! Read-only, cryptographically verifiable queries over a versioned
//! registry of machine-learning models whose canonical state lives in an
//! authenticated key-value/list store.
//!
//! The library is the proof-composition and indexing core: deriving
//! stable addresses from version numbers, projecting one committed
//! snapshot into typed views, and assembling the nested proof envelope
//! (block, table, entry, history range) that lets a client verify a
//! model, its absence, its history and the score ledger against one
//! trusted block header. Transport, consensus and the Merkle primitives
//! themselves are external collaborators and stay outside.

pub mod address;
pub mod api;
pub mod envelope;
pub mod hex;
pub mod laws;
pub mod schema;
pub mod scores;
pub mod types;
