//! A small verified ecosystem: crabs hunt prey that live in shared reefs.
//!
//! Reefs live in an arena (a `Vec<Reef>` owned by the ocean, or by any
//! caller); crabs remember the reefs they discovered as indices into it.

pub mod beach;
pub mod color;
pub mod cookbook;
pub mod crab;
pub mod diet;
pub mod hunting;
pub mod ocean;
pub mod prey;
pub mod rand;
pub mod reef;
