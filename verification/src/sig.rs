//! Recovering the one-bit indicator that completes a raw (r, s)
//! signature: try both candidate indicators and keep the one whose
//! recovered key equals the expected public key.

use vstd::prelude::*;
use crate::crypto::recover_pubkey;
use crate::crypto::recovered_key_of;
use crate::crypto::sig_scalars_accepted;
use crate::crypto::sig_scalars_valid;
use crate::errors::RecoveryError;
use crate::strutil::bytes_eq;

verus! {

/// The recovery indicator for a signature over `prehash` made by the
/// key whose uncompressed encoding is `pubkey`.
///
/// Exactly one of three things happens: malformed signature bytes are
/// rejected before recovery is attempted; the first indicator whose
/// recovered key equals `pubkey` is returned; or, when neither
/// indicator recovers `pubkey` (as for a signature over a different
/// digest), a recoverable error is returned rather than a wrong
/// indicator.
pub fn y_parity(prehash: &Vec<u8>, sig: &Vec<u8>, pubkey: &Vec<u8>) -> (r: Result<
    u64,
    RecoveryError,
>)
    ensures
        match r {
            Ok(p) => {
                &&& sig_scalars_valid(sig@)
                &&& sig@.len() == 64
                &&& p <= 1
                &&& recovered_key_of(prehash@, sig@, p as u8) == Some(pubkey@)
                &&& (p == 1 ==> recovered_key_of(prehash@, sig@, 0) != Some(pubkey@))
            },
            Err(RecoveryError::InvalidSignatureEncoding) => !sig_scalars_valid(sig@),
            Err(RecoveryError::SignatureRecoveryFailed) => {
                &&& sig_scalars_valid(sig@)
                &&& sig@.len() == 64
                &&& recovered_key_of(prehash@, sig@, 0) != Some(pubkey@)
                &&& recovered_key_of(prehash@, sig@, 1) != Some(pubkey@)
            },
        },
{
    if !sig_scalars_accepted(sig) {
        return Err(RecoveryError::InvalidSignatureEncoding);
    }
    match recover_pubkey(prehash, sig, 0) {
        Some(k) => {
            if bytes_eq(&k, pubkey) {
                return Ok(0);
            }
        },
        None => {},
    }
    match recover_pubkey(prehash, sig, 1) {
        Some(k) => {
            if bytes_eq(&k, pubkey) {
                return Ok(1);
            }
        },
        None => {},
    }
    Err(RecoveryError::SignatureRecoveryFailed)
}

} // verus!
