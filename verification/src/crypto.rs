//! Contracts over the cryptographic primitives the bridge relies on.
//!
//! Each digest or curve operation is named by an uninterpreted spec
//! function: the same input always yields the same output, and nothing
//! more is assumed of the value than what the callee's documentation
//! states.  The wrappers below are the only places the outside calls
//! are made.

use vstd::prelude::*;

verus! {

/// The Keccak-256 digest of a byte sequence.
pub uninterp spec fn keccak256_of(data: Seq<u8>) -> Seq<u8>;

/// Whether a byte sequence is a SEC1 encoding of a valid curve point.
pub uninterp spec fn sec1_point_valid(b: Seq<u8>) -> bool;

/// Whether 64 bytes hold two big-endian scalars r and s that are both
/// nonzero and below the curve order.
pub uninterp spec fn sig_scalars_valid(rs: Seq<u8>) -> bool;

/// The uncompressed SEC1 encoding of the public key that the signature
/// (r, s) over `digest` recovers to under the given indicator, or
/// nothing when recovery fails.
pub uninterp spec fn recovered_key_of(digest: Seq<u8>, rs: Seq<u8>, parity: u8) -> Option<
    Seq<u8>,
>;

/// The EIP-55 checksum-cased text of a 20-byte address.
pub uninterp spec fn checksum_text_of(addr: Seq<u8>) -> Seq<char>;

/// Relies on sha3's `Keccak256`: a pure function of the input bytes
/// whose output is always 32 bytes.
#[verifier::external_body]
pub(crate) fn keccak256(data: &Vec<u8>) -> (r: Vec<u8>)
    ensures
        r@ == keccak256_of(data@),
        r@.len() == 32,
{
    let digest = <sha3::Keccak256 as sha3::Digest>::digest(data.as_slice());
    digest.to_vec()
}

/// Relies on k256's `VerifyingKey::from_sec1_bytes`: it accepts exactly
/// the well-formed SEC1 encodings of curve points.
#[verifier::external_body]
pub(crate) fn sec1_point_accepted(b: &Vec<u8>) -> (r: bool)
    ensures
        r == sec1_point_valid(b@),
{
    k256::ecdsa::VerifyingKey::from_sec1_bytes(b.as_slice()).is_ok()
}

/// Relies on k256's `Signature::from_slice`: it accepts exactly 64
/// bytes holding two nonzero in-range scalars.
#[verifier::external_body]
pub(crate) fn sig_scalars_accepted(rs: &Vec<u8>) -> (r: bool)
    ensures
        r == sig_scalars_valid(rs@),
        r ==> rs@.len() == 64,
{
    k256::ecdsa::Signature::from_slice(rs.as_slice()).is_ok()
}

/// Relies on k256's `VerifyingKey::recover_from_prehash`: a pure
/// function of the digest, the signature scalars and the recovery id.
/// The recovered key is returned in uncompressed SEC1 form.
#[verifier::external_body]
pub(crate) fn recover_pubkey(digest: &Vec<u8>, rs: &Vec<u8>, parity: u8) -> (r: Option<Vec<u8>>)
    requires
        sig_scalars_valid(rs@),
        parity <= 1,
    ensures
        match r {
            Some(k) => recovered_key_of(digest@, rs@, parity) == Some(k@),
            None => recovered_key_of(digest@, rs@, parity) is None,
        },
{
    let sig = match k256::ecdsa::Signature::from_slice(rs.as_slice()) {
        Ok(s) => s,
        Err(_) => return None,
    };
    let recid = match k256::ecdsa::RecoveryId::try_from(parity) {
        Ok(id) => id,
        Err(_) => return None,
    };
    match k256::ecdsa::VerifyingKey::recover_from_prehash(digest.as_slice(), &sig, recid) {
        Ok(key) => Some(key.to_sec1_point(false).as_bytes().to_vec()),
        Err(_) => None,
    }
}

/// Relies on ethers-core's `to_checksum`: the EIP-55 text of a 20-byte
/// address, "0x" followed by 40 checksum-cased hex digits.
#[verifier::external_body]
pub(crate) fn checksum_address(addr20: &Vec<u8>) -> (r: String)
    requires
        addr20@.len() == 20,
    ensures
        r@ == checksum_text_of(addr20@),
        r@.len() == 42,
{
    let a = ethers_core::types::H160::from_slice(addr20.as_slice());
    ethers_core::utils::to_checksum(&a, None)
}

/// The lowercase hex digit for a value below 16.
pub open spec fn hex_digit_char(n: u8) -> char {
    if n < 10 {
        (('0' as u8) + n) as char
    } else {
        (('a' as u8) + (n - 10) as u8) as char
    }
}

/// Two lowercase hex digits for every byte, in order.
pub open spec fn spec_hex(b: Seq<u8>) -> Seq<char>
    decreases b.len(),
{
    if b.len() == 0 {
        Seq::empty()
    } else {
        spec_hex(b.drop_last()) + seq![
            hex_digit_char(b.last() / 16),
            hex_digit_char(b.last() % 16),
        ]
    }
}

/// Relies on hex's `encode`: two lowercase hex digits per input byte;
/// the leading "0x" marker is prepended here.
#[verifier::external_body]
pub(crate) fn hex_0x(b: &Vec<u8>) -> (r: String)
    ensures
        r@ == seq!['0', 'x'] + spec_hex(b@),
{
    format!("0x{}", hex::encode(b.as_slice()))
}

} // verus!
