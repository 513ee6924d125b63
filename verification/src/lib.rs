//! Deterministic application core of a coin-flip settlement chain.
//!
//! The library has three parts: a verifiable-randomness engine that derives
//! a committed outcome per bet from an ECVRF proof, a block-execution
//! pipeline that validates and applies ordered transactions and commits to
//! the result with a state digest, and a persistent keyed store with atomic
//! batch writes.

pub mod app;
pub mod codec;
pub mod errors;
pub mod hashes;
pub mod storage;
pub mod types;
pub mod vrf;

pub use crate::app::{FlipEvent, MyChainApp};
pub use crate::errors::{AppError, StoreError, TxError, VrfError};
pub use crate::storage::{Storage, StorageBatch};
pub use crate::types::{compute_app_hash, BetRecord, TxFlip};
pub use crate::vrf::{compute_block_random, VrfEngine};
