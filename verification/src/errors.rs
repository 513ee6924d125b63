//! Error taxonomy of the library.
//!
//! Malformed input is rejected per transaction and never aborts a block;
//! storage failures are fatal for the current call and propagate upward;
//! cryptographic failures are fatal for the affected transaction, or for
//! startup when they strike key provisioning.

use vstd::prelude::*;

verus! {

/// Rejection reasons for a submitted transaction, surfaced to the mempool
/// check as non-zero result codes.
#[derive(Clone, Copy, Debug, PartialEq, Eq, Structural)]
pub enum TxError {
    /// The wager amount is zero.
    Amount,
    /// The wallet address is all-zero.
    Wallet,
    /// The bytes are not a well-formed transaction encoding.
    Decode,
    /// The protocol version is not supported.
    Version,
}

impl TxError {
    /// The non-zero result code of this rejection; zero is reserved for
    /// acceptance.
    pub fn code(&self) -> (r: u32)
        ensures
            r == self.spec_code(),
            r != 0,
    {
        match self {
            TxError::Amount => 1,
            TxError::Wallet => 2,
            TxError::Decode => 3,
            TxError::Version => 4,
        }
    }

    /// The result code, as a spec-level function.
    pub open spec fn spec_code(self) -> u32 {
        match self {
            TxError::Amount => 1,
            TxError::Wallet => 2,
            TxError::Decode => 3,
            TxError::Version => 4,
        }
    }

    /// A human-readable reason for the rejection.
    pub fn message(&self) -> (r: &'static str)
        ensures
            *self == TxError::Amount ==> r@ == "invalid amount: must be greater than 0"@,
            *self == TxError::Wallet ==> r@ == "invalid wallet: cannot be zero"@,
            *self == TxError::Decode ==> r@ == "failed to decode transaction"@,
            *self == TxError::Version ==> r@ == "unsupported transaction version"@,
    {
        match self {
            TxError::Amount => "invalid amount: must be greater than 0",
            TxError::Wallet => "invalid wallet: cannot be zero",
            TxError::Decode => "failed to decode transaction",
            TxError::Version => "unsupported transaction version",
        }
    }
}

/// Failures of the persistent store.
#[derive(Clone, Copy, Debug, PartialEq, Eq, Structural)]
pub enum StoreError {
    /// The backing database reported an error; the current call must not
    /// proceed with a partially applied write.
    Backend,
    /// A stored value does not have the shape the keyspace promises.
    Corrupt,
}

/// Failures of the randomness engine.
#[derive(Clone, Copy, Debug, PartialEq, Eq, Structural)]
pub enum VrfError {
    /// The private key bytes do not decode to a usable key.
    Key,
    /// A proof did not verify against the public key and message.
    Verify,
}

/// Failures of the block executor.
#[derive(Clone, Copy, Debug, PartialEq, Eq, Structural)]
pub enum AppError {
    /// The persistent store failed or holds malformed state.
    Store(StoreError),
    /// Key material could not be provisioned or loaded at startup.
    Key(VrfError),
    /// No block seed is recorded for the requested height.
    MissingSeed,
    /// The height counter is exhausted.
    HeightOverflow,
}

} // verus!
