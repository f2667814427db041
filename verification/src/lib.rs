//! A verified ledger of uniquely identified tokens ("kitties"), their
//! ownership, and their breeding lineage.
//!
//! The ledger is a single state holder ([`ledger::Ledger`]) offering three
//! state-mutating operations: `create`, `transfer` and `breed`.  New token
//! identities are minted densely from a monotone counter with overflow
//! detection, token payloads (16-byte DNA vectors) are derived from an
//! externally supplied randomness seed, and breeding combines two parent
//! DNA vectors bit by bit under a pseudorandom selector mask.

pub mod dna;
pub mod ledger;
pub mod store;

pub use dna::combine_dna;
pub use dna::random_value;
pub use ledger::Error;
pub use ledger::Event;
pub use ledger::Kitty;
pub use ledger::Ledger;
