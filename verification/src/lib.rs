//! Persistent-state layer of a shielded wallet, modelled as an in-memory
//! store with verified consistency rules.
//!
//! The store tracks which notes the wallet controls, whether they are spent,
//! the witnesses that prove their membership in the global note-commitment
//! tree, and the chain height at which each fact became true.  Balance
//! computation, anchor policy, spendable-note selection and the
//! chain-reorganisation rewind are verified against contracts phrased over
//! the store's tables.

pub mod types;
pub mod store;
pub mod wallet;
pub mod select;
pub mod memo;
pub mod laws;
pub mod data_api;
