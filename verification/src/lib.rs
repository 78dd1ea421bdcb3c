//! A permissioned, name-addressed data-feed registry ("oracle").
//!
//! A feed is a record with a single owner, an optional unsigned 128-bit
//! value, and a last-update timestamp, addressed by a short lowercase name.
//! The crate verifies the pieces with real invariants: name validation and
//! padding, the deterministic name-to-address derivation, the
//! create/update/delete/read state machine with its ownership gate, the
//! byte-exact storage and instruction encodings, and the dispatch tables
//! that pick a platform and network from their textual slugs.

pub mod address;
pub mod bytes_util;
pub mod calendar;
pub mod client;
pub mod codec;
pub mod decimal;
pub mod errors;
pub mod name;
pub mod near;
pub mod processor;
pub mod registry;
pub mod sdk;
pub mod solana;
pub mod state;
