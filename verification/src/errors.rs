//! Typed error values for every failure the bridge core can report.

use vstd::prelude::*;

verus! {

/// Why a public key was rejected before address derivation.
#[derive(Debug, PartialEq, Eq, Structural, Clone, Copy)]
pub enum AddressError {
    /// The input is not a well-formed uncompressed curve point.
    InvalidPublicKey,
}

/// Why a recovery indicator could not be produced.
#[derive(Debug, PartialEq, Eq, Structural, Clone, Copy)]
pub enum RecoveryError {
    /// The 64 signature bytes do not hold two nonzero in-range scalars.
    InvalidSignatureEncoding,
    /// Neither candidate indicator recovers the expected public key.
    SignatureRecoveryFailed,
}

/// Why an intent could not be turned into a transaction.
#[derive(Debug, PartialEq, Eq, Structural, Clone, Copy)]
pub enum IntentError {
    /// The recipient is not a well-formed hex-encoded address.
    InvalidAddress,
}

/// Why a nonce query did not yield a usable sequence number.  Each
/// variant carries the provider detail verbatim, for the operator.
#[derive(Debug, PartialEq, Eq, Clone)]
pub enum NonceError {
    /// The aggregation layer reported an explicit error; the cause as
    /// the provider stated it.
    NonceFetchFailed(String),
    /// Providers disagreed; the details of the differing answers.  No
    /// value may be silently picked.
    NonceInconsistent(String),
}

/// How a broadcast attempt ended when it did not yield a hash.
#[derive(Debug, PartialEq, Eq, Clone)]
pub enum SubmitError {
    /// The node accepted the transaction but returned no hash.
    AcknowledgedWithoutHash,
    /// The node rejected the transaction: stale sequence number.
    NonceTooLow,
    /// The node rejected the transaction: sequence number from the future.
    NonceTooHigh,
    /// The node rejected the transaction: balance cannot cover it.
    InsufficientFunds,
    /// The RPC layer itself failed; the detail verbatim, for the
    /// operator.
    RpcError(String),
    /// Providers disagreed about the outcome.
    InconsistentSubmissionResult,
}

} // verus!
