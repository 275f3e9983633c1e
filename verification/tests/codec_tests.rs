use ethers_core::types::Eip1559TransactionRequest;
use ethers_core::types::H160;
use ethers_core::types::U256;
use ethers_core::types::U64;
use kosh_bridge::codec::SignatureParts;
use kosh_bridge::codec::UnsignedTransaction;
use kosh_bridge::codec::decode_signed;
use kosh_bridge::codec::encode_signed;
use kosh_bridge::codec::encode_unsigned;
use kosh_bridge::codec::tx_digest;
use std::str::FromStr;

fn reference_tx() -> UnsignedTransaction {
    UnsignedTransaction {
        chain_id: 8453,
        nonce: 5,
        max_priority_fee_per_gas: 1_000_000_000,
        max_fee_per_gas: 1_000_000_000,
        gas_limit: 21_000,
        to: hex::decode("99a79158a40e4bef8beb3acfae893e62c45034e8").unwrap(),
        value: 891_000_000_000_000,
    }
}

fn ethers_reference() -> Eip1559TransactionRequest {
    Eip1559TransactionRequest {
        from: None,
        to: Some(H160::from_str("0x99a79158A40E4BEF8Beb3AcFAE893e62C45034E8").unwrap().into()),
        nonce: Some(U256::from(5u64)),
        gas: Some(U256::from(21_000u64)),
        max_fee_per_gas: Some(U256::from(1_000_000_000u64)),
        max_priority_fee_per_gas: Some(U256::from(1_000_000_000u64)),
        value: Some(U256::from(891_000_000_000_000u128)),
        data: Default::default(),
        access_list: vec![].into(),
        chain_id: Some(U64::from(8453u64)),
    }
}

#[test]
fn golden_unsigned_encoding() {
    let enc = encode_unsigned(&reference_tx());
    let expected = "02f082210505843b9aca00843b9aca008252089499a79158a40e4bef8beb3acfae893e62c45034e887032a5c1a7eb00080c0";
    assert_eq!(hex::encode(&enc), expected);
}

#[test]
fn unsigned_encoding_matches_reference_library() {
    let enc = encode_unsigned(&reference_tx());
    let tx = ethers_reference();
    let mut reference = tx.rlp().to_vec();
    reference.insert(0, 2);
    assert_eq!(enc, reference);
}

#[test]
fn digest_is_keccak_of_encoding() {
    let enc = encode_unsigned(&reference_tx());
    let d = tx_digest(&enc);
    let expected = ethers_core::utils::keccak256(&enc);
    assert_eq!(d.as_slice(), expected.as_slice());
    assert_eq!(d.len(), 32);
}

#[test]
fn signed_encoding_matches_reference_library() {
    let tx = reference_tx();
    let mut r = vec![0u8; 32];
    r[31] = 0x7b;
    r[0] = 0x01;
    let mut s = vec![0u8; 32];
    s[31] = 0x2a;
    let sig = SignatureParts { y_parity: 1, r: r.clone(), s: s.clone() };
    let enc = encode_signed(&tx, &sig);

    let ethers_tx = ethers_reference();
    let ethers_sig = ethers_core::types::Signature {
        r: U256::from_big_endian(&r),
        s: U256::from_big_endian(&s),
        v: 1,
    };
    let mut reference = ethers_tx.rlp_signed(&ethers_sig).to_vec();
    reference.insert(0, 2);
    assert_eq!(enc, reference);
}

#[test]
fn signed_round_trip_recovers_fields() {
    let tx = reference_tx();
    let mut r = vec![0u8; 32];
    r[10] = 0xab;
    r[31] = 0x01;
    let mut s = vec![0u8; 32];
    s[0] = 0x7f;
    s[31] = 0xff;
    let sig = SignatureParts { y_parity: 0, r: r.clone(), s: s.clone() };
    let enc = encode_signed(&tx, &sig);
    let (dtx, dsig) = decode_signed(&enc).expect("canonical encoding must decode");
    assert_eq!(dtx.chain_id, tx.chain_id);
    assert_eq!(dtx.nonce, tx.nonce);
    assert_eq!(dtx.max_priority_fee_per_gas, tx.max_priority_fee_per_gas);
    assert_eq!(dtx.max_fee_per_gas, tx.max_fee_per_gas);
    assert_eq!(dtx.gas_limit, tx.gas_limit);
    assert_eq!(dtx.to, tx.to);
    assert_eq!(dtx.value, tx.value);
    assert_eq!(dsig.y_parity, 0);
    assert_eq!(dsig.r, r);
    assert_eq!(dsig.s, s);
}

#[test]
fn zero_value_encodes_as_empty_string() {
    let mut tx = reference_tx();
    tx.value = 0;
    tx.nonce = 0;
    let enc = encode_unsigned(&tx);
    let ethers_tx = Eip1559TransactionRequest {
        nonce: Some(U256::zero()),
        value: Some(U256::zero()),
        ..ethers_reference()
    };
    let mut reference = ethers_tx.rlp().to_vec();
    reference.insert(0, 2);
    assert_eq!(enc, reference);
}

#[test]
fn decode_rejects_wrong_marker() {
    let tx = reference_tx();
    let sig = SignatureParts { y_parity: 0, r: vec![1u8; 32], s: vec![2u8; 32] };
    let mut enc = encode_signed(&tx, &sig);
    enc[0] = 1;
    assert!(decode_signed(&enc).is_none());
}

#[test]
fn decode_rejects_truncated_input() {
    let tx = reference_tx();
    let sig = SignatureParts { y_parity: 0, r: vec![1u8; 32], s: vec![2u8; 32] };
    let mut enc = encode_signed(&tx, &sig);
    enc.pop();
    assert!(decode_signed(&enc).is_none());
}

#[test]
fn maximal_field_values_round_trip() {
    let tx = UnsignedTransaction {
        chain_id: u64::MAX,
        nonce: u64::MAX,
        max_priority_fee_per_gas: u128::MAX,
        max_fee_per_gas: u128::MAX,
        gas_limit: u128::MAX,
        to: vec![0xffu8; 20],
        value: u128::MAX,
    };
    let sig = SignatureParts { y_parity: 1, r: vec![0xffu8; 32], s: vec![0x01u8; 32] };
    let enc = encode_signed(&tx, &sig);
    let (dtx, dsig) = decode_signed(&enc).expect("canonical encoding must decode");
    assert_eq!(dtx.chain_id, u64::MAX);
    assert_eq!(dtx.value, u128::MAX);
    assert_eq!(dsig.r, vec![0xffu8; 32]);
    assert_eq!(dsig.s, vec![0x01u8; 32]);

    let ethers_tx = Eip1559TransactionRequest {
        from: None,
        to: Some(H160::from_slice(&[0xffu8; 20]).into()),
        nonce: Some(U256::from(u64::MAX)),
        gas: Some(U256::from(u128::MAX)),
        max_fee_per_gas: Some(U256::from(u128::MAX)),
        max_priority_fee_per_gas: Some(U256::from(u128::MAX)),
        value: Some(U256::from(u128::MAX)),
        data: Default::default(),
        access_list: vec![].into(),
        chain_id: Some(U64::from(u64::MAX)),
    };
    let mut reference = ethers_tx.rlp().to_vec();
    reference.insert(0, 2);
    assert_eq!(encode_unsigned(&tx), reference);
}
