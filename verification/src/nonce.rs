//! Reconciling a transaction-count query answered by one or more
//! providers.  A single consistent value is returned; an explicit
//! provider error and mutually inconsistent answers each surface as
//! their own error carrying the provider detail verbatim, and no
//! value is ever silently picked.

use vstd::prelude::*;
use crate::errors::NonceError;

verus! {

/// What the count query reported for one consistent answer.
pub enum CountOutcome {
    /// The transaction count.
    Counted(u64),
    /// An explicit error, with provider detail.
    Failed(String),
}

/// What the aggregation layer reported.
pub enum NonceQueryResult {
    /// All providers agreed on one outcome.
    Consistent(CountOutcome),
    /// Providers disagreed; detail describes the answers.
    Inconsistent(String),
}

/// The classification of one query result: the count, or the error
/// carrying the provider's own text.
pub open spec fn spec_classify_nonce(r: NonceQueryResult) -> Result<u64, NonceError> {
    match r {
        NonceQueryResult::Consistent(CountOutcome::Counted(n)) => Ok(n),
        NonceQueryResult::Consistent(CountOutcome::Failed(cause)) => Err(
            NonceError::NonceFetchFailed(cause),
        ),
        NonceQueryResult::Inconsistent(details) => Err(NonceError::NonceInconsistent(details)),
    }
}

/// The next usable sequence number, from a query result: the count if
/// and only if the providers consistently reported one; otherwise the
/// error naming what went wrong, with the provider detail passed
/// through unchanged.
pub fn classify_nonce(r: NonceQueryResult) -> (out: Result<u64, NonceError>)
    ensures
        out == spec_classify_nonce(r),
{
    match r {
        NonceQueryResult::Consistent(CountOutcome::Counted(n)) => Ok(n),
        NonceQueryResult::Consistent(CountOutcome::Failed(cause)) => Err(
            NonceError::NonceFetchFailed(cause),
        ),
        NonceQueryResult::Inconsistent(details) => Err(NonceError::NonceInconsistent(details)),
    }
}

} // verus!

