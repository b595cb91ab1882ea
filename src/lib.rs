//! Settlement of peer contribution credit into token rewards.
//!
//! Two strategies live side by side: commit-and-claim settlement (`claims`),
//! where participants prove their per-cycle point deltas against a committed
//! Merkle root, and on-chain proportional settlement (`sentinel`), where
//! live karma counters are turned into capped pro-rata mints at the end of
//! each cycle. Token movements themselves are left to the caller: the
//! functions here decide, check and update records, and report the mints
//! and transfers that must accompany them.

pub mod bytes;
pub mod error;
pub mod merkle;
pub mod bitmap;
pub mod claims;
pub mod sentinel;
