//! The per-intent pipeline, as pure decision steps.
//!
//! One transfer runs ingest, convert, nonce fetch, build, sign,
//! recover, encode and submit in order.  Every decision along that
//! path is a function here with a contract; the suspension points —
//! the nonce query, the signing call, the broadcast — happen outside,
//! and their results come back in as plain values.  Each intent runs
//! the pipeline independently: one intent's failure is its own
//! outcome and cannot abort a sibling.

use vstd::prelude::*;
use crate::codec::SigView;
use crate::codec::SignatureParts;
use crate::codec::TxView;
use crate::codec::UnsignedTransaction;
use crate::codec::encode_signed;
use crate::codec::encode_unsigned;
use crate::codec::spec_encode_signed;
use crate::codec::spec_encode_unsigned;
use crate::codec::tx_digest;
use crate::crypto::hex_0x;
use crate::crypto::keccak256_of;
use crate::crypto::recovered_key_of;
use crate::crypto::sig_scalars_valid;
use crate::crypto::spec_hex;
use crate::errors::IntentError;
use crate::errors::RecoveryError;
use crate::ingest::TransferIntent;
use crate::ingest::hex_digit_val;
use crate::ingest::is_hex_digit;
use crate::registry::ChainProfile;
use crate::registry::resolve_profile;
use crate::registry::spec_chain_id;
use crate::registry::spec_fees;
use crate::sig::y_parity;
use crate::strutil::subvec;
use vstd::string::StrSliceExecFns;

verus! {

/// Wei paid out per source-chain minor unit under the static
/// conversion rate: one ten-millionth of a whole source unit at
/// 0.000081 of the destination's whole unit each.
pub const RATE_WEI_PER_MINOR_UNIT: u64 = 8_100_000;

/// Wei substituted when the rate lookup fails: the bridge stays live
/// at a degraded, fixed payout rather than aborting the transfer.
/// The amount is read in wei, as its intent states, not in whole
/// destination units.
pub const FALLBACK_WEI: u128 = 10_000_000_000_000;

/// The destination-chain value of a source amount under an optional
/// rate: the exact product, or the fixed fallback when no rate is
/// available.
pub open spec fn spec_convert(raw_minor: nat, rate: Option<u64>) -> nat {
    match rate {
        Some(r) => (raw_minor * r) as nat,
        None => FALLBACK_WEI as nat,
    }
}

/// Convert a source amount to destination-chain wei.
pub fn convert_amount(raw_minor: u64, rate_wei_per_minor: Option<u64>) -> (r: u128)
    ensures
        r == spec_convert(raw_minor as nat, rate_wei_per_minor),
{
    match rate_wei_per_minor {
        Some(rt) => {
            proof {
                assert((raw_minor as nat) * (rt as nat) <= u128::MAX) by (nonlinear_arith)
                    requires
                        raw_minor <= u64::MAX,
                        rt <= u64::MAX;
            }
            (raw_minor as u128) * (rt as u128)
        },
        None => FALLBACK_WEI,
    }
}

/// The 20 bytes a textual account address denotes: "0x" followed by
/// 40 hex digits; anything else is malformed.
pub open spec fn spec_parse_eth_address(s: Seq<char>) -> Option<Seq<u8>> {
    if s.len() == 42 && s[0] == '0' && s[1] == 'x' && (forall|i: int|
        2 <= i < 42 ==> is_hex_digit(#[trigger] s[i])) {
        Some(
            Seq::new(
                20,
                |i: int| (hex_digit_val(s[2 + 2 * i]) * 16 + hex_digit_val(s[3 + 2 * i])) as u8,
            ),
        )
    } else {
        None
    }
}

/// Parse a textual account address into its 20 bytes.  Exactly the
/// strings of "0x" and 40 hex digits are accepted.
pub fn parse_eth_address(s: &str) -> (r: Option<Vec<u8>>)
    ensures
        match r {
            Some(b) => spec_parse_eth_address(s@) == Some(b@) && b@.len() == 20,
            None => spec_parse_eth_address(s@) is None,
        },
{
    let n = s.unicode_len();
    if n != 42 {
        return None;
    }
    if s.get_char(0) != '0' || s.get_char(1) != 'x' {
        return None;
    }
    let mut out: Vec<u8> = Vec::new();
    let mut i: usize = 0;
    while i < 20
        invariant
            s@.len() == 42,
            s@[0] == '0',
            s@[1] == 'x',
            0 <= i <= 20,
            out@.len() == i,
            forall|k: int|
                0 <= k < 2 * i + 2 - 2 ==> is_hex_digit(#[trigger] s@[2 + k]),
            forall|k: int|
                0 <= k < i ==> #[trigger] out@[k] == hex_digit_val(s@[2 + 2 * k]) * 16
                    + hex_digit_val(s@[3 + 2 * k]),
        decreases 20 - i,
    {
        let hi = s.get_char(2 + 2 * i);
        let lo = s.get_char(3 + 2 * i);
        let hv: u8 = if hi >= '0' && hi <= '9' {
            (hi as u32 as u8) - 48
        } else if hi >= 'a' && hi <= 'f' {
            (hi as u32 as u8) - 97 + 10
        } else if hi >= 'A' && hi <= 'F' {
            (hi as u32 as u8) - 65 + 10
        } else {
            return None;
        };
        let lv: u8 = if lo >= '0' && lo <= '9' {
            (lo as u32 as u8) - 48
        } else if lo >= 'a' && lo <= 'f' {
            (lo as u32 as u8) - 97 + 10
        } else if lo >= 'A' && lo <= 'F' {
            (lo as u32 as u8) - 65 + 10
        } else {
            return None;
        };
        out.push(hv * 16 + lv);
        proof {
            assert forall|k: int| 0 <= k < 2 * (i + 1) ==> is_hex_digit(#[trigger] s@[2 + k]) by {
                assert(is_hex_digit(s@[2 + 2 * i]) && is_hex_digit(s@[3 + 2 * i]));
            }
        }
        i += 1;
    }
    proof {
        assert forall|k: int| 2 <= k < 42 implies is_hex_digit(#[trigger] s@[k]) by {
            assert(is_hex_digit(s@[2 + (k - 2)]));
        }
        let expected = spec_parse_eth_address(s@)->0;
        assert(out@ =~= expected);
    }
    Some(out)
}

/// An intent made concrete: parsed destination bytes, the converted
/// value, and the destination chain's profile.
pub struct PreparedIntent {
    /// Destination account, 20 bytes.
    pub to: Vec<u8>,
    /// Value to transfer, in wei.
    pub value_wei: u128,
    /// The destination chain's parameters.
    pub profile: ChainProfile,
}

/// Turn an intent into concrete transfer parameters.  The recipient
/// is parsed, the amount converted under the given rate, and the
/// chain resolved; exactly a malformed recipient is rejected.
pub fn prepare_intent(intent: &TransferIntent, rate_wei_per_minor: Option<u64>) -> (r: Result<
    PreparedIntent,
    IntentError,
>)
    ensures
        match r {
            Ok(p) => {
                &&& spec_parse_eth_address(intent.recipient@) == Some(p.to@)
                &&& p.to@.len() == 20
                &&& p.value_wei == spec_convert(intent.amount as nat, rate_wei_per_minor)
                &&& p.profile.chain_id == spec_chain_id(intent.dest_chain@)
                &&& (p.profile.gas_limit, p.profile.max_fee_per_gas, p.profile.max_priority_fee_per_gas)
                    == spec_fees(intent.dest_chain@)
            },
            Err(e) => e == IntentError::InvalidAddress && spec_parse_eth_address(
                intent.recipient@,
            ) is None,
        },
{
    let to = match parse_eth_address(intent.recipient.as_str()) {
        Some(b) => b,
        None => {
            return Err(IntentError::InvalidAddress);
        },
    };
    let value_wei = convert_amount(intent.amount, rate_wei_per_minor);
    let profile = resolve_profile(intent.dest_chain.as_str());
    Ok(PreparedIntent { to, value_wei, profile })
}

/// Build the unsigned transaction for a prepared intent and a fresh
/// sequence number.
pub fn build_transfer_tx(prepared: PreparedIntent, nonce: u64) -> (tx: UnsignedTransaction)
    requires
        prepared.to@.len() == 20,
    ensures
        tx.wf(),
        tx@ == (TxView {
            chain_id: prepared.profile.chain_id as nat,
            nonce: nonce as nat,
            max_priority_fee_per_gas: prepared.profile.max_priority_fee_per_gas as nat,
            max_fee_per_gas: prepared.profile.max_fee_per_gas as nat,
            gas_limit: prepared.profile.gas_limit as nat,
            to: prepared.to@,
            value: prepared.value_wei as nat,
        }),
{
    UnsignedTransaction {
        chain_id: prepared.profile.chain_id,
        nonce,
        max_priority_fee_per_gas: prepared.profile.max_priority_fee_per_gas,
        max_fee_per_gas: prepared.profile.max_fee_per_gas,
        gas_limit: prepared.profile.gas_limit,
        to: prepared.to,
        value: prepared.value_wei,
    }
}

/// A transaction with its wire bytes and the digest to be signed.
/// The digest is computed from exactly the bytes that will be
/// re-derived when the signed encoding is formed.
pub struct SigningPackage {
    /// The transaction the digest belongs to.
    pub tx: UnsignedTransaction,
    /// The unsigned wire bytes.
    pub encoded: Vec<u8>,
    /// The 32-byte digest handed to the signing capability.
    pub digest: Vec<u8>,
}

/// Encode a transaction and compute its signing digest.
pub fn signing_package(tx: UnsignedTransaction) -> (sp: SigningPackage)
    requires
        tx.wf(),
    ensures
        sp.tx == tx,
        sp.tx.wf(),
        sp.encoded@ == spec_encode_unsigned(tx@),
        sp.digest@ == keccak256_of(spec_encode_unsigned(tx@)),
        sp.digest@.len() == 32,
{
    let encoded = encode_unsigned(&tx);
    let digest = tx_digest(&encoded);
    SigningPackage { tx, encoded, digest }
}

/// A completed signature and the signed wire bytes, hex-rendered for
/// broadcast.
pub struct SignedSubmission {
    /// The recovery indicator that matched the signing key.
    pub y_parity: u64,
    /// "0x" followed by the hex of the signed wire bytes.
    pub raw_tx_hex: String,
}

/// Complete a raw (r, s) signature over `digest` with its recovery
/// indicator and produce the signed wire text.  The signed encoding
/// re-derives the same base fields that were digested, so a signature
/// that recovers to `pubkey` stays valid for the encoded bytes.
pub fn complete_and_encode(
    tx: &UnsignedTransaction,
    digest: &Vec<u8>,
    sig64: &Vec<u8>,
    pubkey: &Vec<u8>,
) -> (r: Result<SignedSubmission, RecoveryError>)
    requires
        tx.wf(),
    ensures
        match r {
            Ok(se) => {
                &&& sig_scalars_valid(sig64@)
                &&& se.y_parity <= 1
                &&& recovered_key_of(digest@, sig64@, se.y_parity as u8) == Some(pubkey@)
                &&& se.raw_tx_hex@ == seq!['0', 'x'] + spec_hex(
                    spec_encode_signed(
                        tx@,
                        SigView {
                            y_parity: se.y_parity as nat,
                            r: sig64@.subrange(0, 32),
                            s: sig64@.subrange(32, 64),
                        },
                    ),
                )
            },
            Err(RecoveryError::InvalidSignatureEncoding) => !sig_scalars_valid(sig64@),
            Err(RecoveryError::SignatureRecoveryFailed) => {
                &&& sig_scalars_valid(sig64@)
                &&& recovered_key_of(digest@, sig64@, 0) != Some(pubkey@)
                &&& recovered_key_of(digest@, sig64@, 1) != Some(pubkey@)
            },
        },
{
    let parity = match y_parity(digest, sig64, pubkey) {
        Ok(p) => p,
        Err(e) => {
            return Err(e);
        },
    };
    let r_bytes = subvec(sig64, 0, 32);
    let s_bytes = subvec(sig64, 32, 64);
    let parts = SignatureParts { y_parity: parity as u8, r: r_bytes, s: s_bytes };
    let signed = encode_signed(tx, &parts);
    let raw_tx_hex = hex_0x(&signed);
    Ok(SignedSubmission { y_parity: parity, raw_tx_hex })
}

} // verus!

