use kosh_bridge::errors::NonceError;
use kosh_bridge::errors::SubmitError;
use kosh_bridge::nonce::CountOutcome;
use kosh_bridge::nonce::NonceQueryResult;
use kosh_bridge::nonce::classify_nonce;
use kosh_bridge::submit::BroadcastResult;
use kosh_bridge::submit::BroadcastStatus;
use kosh_bridge::submit::SubmissionResult;
use kosh_bridge::submit::classify_submission;

#[test]
fn consistent_count_is_returned() {
    let r = NonceQueryResult::Consistent(CountOutcome::Counted(42));
    assert_eq!(classify_nonce(r), Ok(42));
}

#[test]
fn explicit_count_error_surfaces_with_its_cause() {
    let r = NonceQueryResult::Consistent(CountOutcome::Failed(String::from("node down")));
    assert_eq!(
        classify_nonce(r),
        Err(NonceError::NonceFetchFailed(String::from("node down")))
    );
}

#[test]
fn inconsistent_counts_surface_details_and_never_pick_a_value() {
    let r = NonceQueryResult::Inconsistent(String::from("3 vs 4"));
    assert_eq!(
        classify_nonce(r),
        Err(NonceError::NonceInconsistent(String::from("3 vs 4")))
    );
}

#[test]
fn accepted_with_hash_is_success() {
    let r = SubmissionResult::Consistent(BroadcastResult::Status(BroadcastStatus::Accepted(
        Some(String::from("0xabc123")),
    )));
    assert_eq!(classify_submission(r), Ok(String::from("0xabc123")));
}

#[test]
fn accepted_without_hash_is_an_error() {
    let r = SubmissionResult::Consistent(BroadcastResult::Status(BroadcastStatus::Accepted(None)));
    assert_eq!(classify_submission(r), Err(SubmitError::AcknowledgedWithoutHash));
}

#[test]
fn nonce_too_low_is_its_own_variant() {
    let r = SubmissionResult::Consistent(BroadcastResult::Status(BroadcastStatus::NonceTooLow));
    assert_eq!(classify_submission(r), Err(SubmitError::NonceTooLow));
}

#[test]
fn nonce_too_high_is_its_own_variant() {
    let r = SubmissionResult::Consistent(BroadcastResult::Status(BroadcastStatus::NonceTooHigh));
    assert_eq!(classify_submission(r), Err(SubmitError::NonceTooHigh));
}

#[test]
fn insufficient_funds_is_its_own_variant() {
    let r = SubmissionResult::Consistent(BroadcastResult::Status(
        BroadcastStatus::InsufficientFunds,
    ));
    assert_eq!(classify_submission(r), Err(SubmitError::InsufficientFunds));
}

#[test]
fn rpc_layer_failure_keeps_its_detail() {
    let r = SubmissionResult::Consistent(BroadcastResult::RpcFailure(String::from("timeout")));
    assert_eq!(
        classify_submission(r),
        Err(SubmitError::RpcError(String::from("timeout")))
    );
}

#[test]
fn inconsistent_submission_is_its_own_variant() {
    assert_eq!(
        classify_submission(SubmissionResult::Inconsistent),
        Err(SubmitError::InconsistentSubmissionResult)
    );
}
