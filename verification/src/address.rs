//! Deriving a destination-chain account address from an uncompressed
//! public key: the low 20 bytes of the Keccak-256 digest of the 64
//! payload bytes, with a checksum-cased textual rendering.

use vstd::prelude::*;
use crate::crypto::checksum_address;
use crate::crypto::checksum_text_of;
use crate::crypto::keccak256;
use crate::crypto::keccak256_of;
use crate::crypto::sec1_point_accepted;
use crate::crypto::sec1_point_valid;
use crate::errors::AddressError;
use crate::strutil::subvec;

verus! {

/// Marker byte of an uncompressed curve point.
pub const UNCOMPRESSED_POINT_MARKER: u8 = 4;

/// A well-formed public key: the uncompressed marker, 64 payload
/// bytes, and a point the curve library accepts.
pub open spec fn pubkey_wf(pk: Seq<u8>) -> bool {
    pk.len() == 65 && pk[0] == UNCOMPRESSED_POINT_MARKER && sec1_point_valid(pk)
}

/// The address a public key derives to: the low 20 bytes of the
/// digest of its 64 payload bytes.
pub open spec fn spec_address_of(pk: Seq<u8>) -> Seq<u8> {
    keccak256_of(pk.subrange(1, 65)).subrange(12, 32)
}

/// The 20 address bytes for a public key.  Deterministic and pure:
/// the result is a function of the input alone, so identical inputs
/// always yield identical addresses.  Exactly the malformed inputs
/// are rejected.
pub fn derive_address(pubkey: &Vec<u8>) -> (r: Result<Vec<u8>, AddressError>)
    ensures
        match r {
            Ok(a) => pubkey_wf(pubkey@) && a@ == spec_address_of(pubkey@) && a@.len() == 20,
            Err(e) => e == AddressError::InvalidPublicKey && !pubkey_wf(pubkey@),
        },
{
    if pubkey.len() != 65 {
        return Err(AddressError::InvalidPublicKey);
    }
    if pubkey[0] != UNCOMPRESSED_POINT_MARKER {
        return Err(AddressError::InvalidPublicKey);
    }
    if !sec1_point_accepted(pubkey) {
        return Err(AddressError::InvalidPublicKey);
    }
    let payload = subvec(pubkey, 1, 65);
    let digest = keccak256(&payload);
    let addr = subvec(&digest, 12, 32);
    Ok(addr)
}

/// The checksum-cased text of the address a public key derives to.
/// This is the derived rendering of `derive_address`'s value; it does
/// not affect address equality.
pub fn pubkey_bytes_to_address(pubkey: &Vec<u8>) -> (r: Result<String, AddressError>)
    ensures
        match r {
            Ok(s) => pubkey_wf(pubkey@) && s@ == checksum_text_of(spec_address_of(pubkey@))
                && s@.len() == 42,
            Err(e) => e == AddressError::InvalidPublicKey && !pubkey_wf(pubkey@),
        },
{
    let addr = match derive_address(pubkey) {
        Ok(a) => a,
        Err(e) => {
            return Err(e);
        },
    };
    Ok(checksum_address(&addr))
}

} // verus!
