//! Classifying the outcome of broadcasting a signed transaction.
//! Each of the node-response shapes maps to exactly one success or
//! error variant; nothing falls through to success by accident, and a
//! missing hash is an error, never a guess.

use vstd::prelude::*;
use crate::errors::SubmitError;

verus! {

/// What an accepting node reported.
pub enum BroadcastStatus {
    /// Accepted, with the transaction hash when the node returned one.
    Accepted(Option<String>),
    /// Rejected: the sequence number was already used.
    NonceTooLow,
    /// Rejected: the sequence number is from the future.
    NonceTooHigh,
    /// Rejected: the account cannot cover value plus fees.
    InsufficientFunds,
}

/// One consistent answer from the broadcast call.
pub enum BroadcastResult {
    /// The node answered with a status.
    Status(BroadcastStatus),
    /// The RPC layer itself failed, with detail.
    RpcFailure(String),
}

/// What the aggregation layer reported for the broadcast.
pub enum SubmissionResult {
    /// All providers agreed on one answer.
    Consistent(BroadcastResult),
    /// Providers disagreed on the outcome.
    Inconsistent,
}

/// The classification of one submission result.
pub open spec fn spec_classify_submission(r: SubmissionResult) -> Result<Seq<char>, SubmitError> {
    match r {
        SubmissionResult::Consistent(
            BroadcastResult::Status(BroadcastStatus::Accepted(Some(h))),
        ) => Ok(h@),
        SubmissionResult::Consistent(
            BroadcastResult::Status(BroadcastStatus::Accepted(None)),
        ) => Err(SubmitError::AcknowledgedWithoutHash),
        SubmissionResult::Consistent(BroadcastResult::Status(BroadcastStatus::NonceTooLow)) => Err(
            SubmitError::NonceTooLow,
        ),
        SubmissionResult::Consistent(
            BroadcastResult::Status(BroadcastStatus::NonceTooHigh),
        ) => Err(SubmitError::NonceTooHigh),
        SubmissionResult::Consistent(
            BroadcastResult::Status(BroadcastStatus::InsufficientFunds),
        ) => Err(SubmitError::InsufficientFunds),
        SubmissionResult::Consistent(BroadcastResult::RpcFailure(detail)) => Err(
            SubmitError::RpcError(detail),
        ),
        SubmissionResult::Inconsistent => Err(SubmitError::InconsistentSubmissionResult),
    }
}

/// The transaction hash of a successful broadcast, or the one error
/// variant the response shape maps to; an RPC-layer failure keeps its
/// provider detail verbatim.
pub fn classify_submission(r: SubmissionResult) -> (out: Result<String, SubmitError>)
    ensures
        match out {
            Ok(h) => spec_classify_submission(r) == Ok::<Seq<char>, SubmitError>(h@),
            Err(e) => spec_classify_submission(r) == Err::<Seq<char>, SubmitError>(e),
        },
{
    match r {
        SubmissionResult::Consistent(
            BroadcastResult::Status(BroadcastStatus::Accepted(opt)),
        ) => match opt {
            Some(h) => Ok(h),
            None => Err(SubmitError::AcknowledgedWithoutHash),
        },
        SubmissionResult::Consistent(BroadcastResult::Status(BroadcastStatus::NonceTooLow)) => Err(
            SubmitError::NonceTooLow,
        ),
        SubmissionResult::Consistent(
            BroadcastResult::Status(BroadcastStatus::NonceTooHigh),
        ) => Err(SubmitError::NonceTooHigh),
        SubmissionResult::Consistent(
            BroadcastResult::Status(BroadcastStatus::InsufficientFunds),
        ) => Err(SubmitError::InsufficientFunds),
        SubmissionResult::Consistent(BroadcastResult::RpcFailure(detail)) => Err(
            SubmitError::RpcError(detail),
        ),
        SubmissionResult::Inconsistent => Err(SubmitError::InconsistentSubmissionResult),
    }
}

} // verus!
