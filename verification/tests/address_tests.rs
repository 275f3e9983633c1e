use kosh_bridge::address::derive_address;
use kosh_bridge::address::pubkey_bytes_to_address;
use kosh_bridge::errors::AddressError;

// The uncompressed generator point: the public key of private key 1.
const GENERATOR_HEX: &str = "0479be667ef9dcbbac55a06295ce870b07029bfcdb2dce28d959f2815b16f81798483ada7726a3c4655da4fbfc0e1108a8fd17b448a68554199c47d08ffb10d4b8";

#[test]
fn derives_known_address() {
    let pk = hex::decode(GENERATOR_HEX).unwrap();
    let addr = derive_address(&pk).unwrap();
    assert_eq!(addr.len(), 20);
    assert_eq!(hex::encode(&addr), "7e5f4552091a69125d5dfcb7b8c2659029395bdf");
}

#[test]
fn derivation_matches_digest_of_payload() {
    let pk = hex::decode(GENERATOR_HEX).unwrap();
    let addr = derive_address(&pk).unwrap();
    let digest = ethers_core::utils::keccak256(&pk[1..]);
    assert_eq!(addr.as_slice(), &digest[12..32]);
}

#[test]
fn derivation_is_deterministic() {
    let pk = hex::decode(GENERATOR_HEX).unwrap();
    assert_eq!(derive_address(&pk).unwrap(), derive_address(&pk).unwrap());
}

#[test]
fn rejects_wrong_prefix() {
    let mut pk = hex::decode(GENERATOR_HEX).unwrap();
    pk[0] = 0x02;
    assert_eq!(derive_address(&pk), Err(AddressError::InvalidPublicKey));
    pk[0] = 0x05;
    assert_eq!(derive_address(&pk), Err(AddressError::InvalidPublicKey));
}

#[test]
fn rejects_wrong_length() {
    let pk = hex::decode(GENERATOR_HEX).unwrap();
    assert_eq!(derive_address(&pk[..64].to_vec()), Err(AddressError::InvalidPublicKey));
    let mut long = pk.clone();
    long.push(0);
    assert_eq!(derive_address(&long), Err(AddressError::InvalidPublicKey));
}

#[test]
fn rejects_point_off_curve() {
    let mut pk = hex::decode(GENERATOR_HEX).unwrap();
    // Corrupt the y coordinate so the point is not on the curve.
    pk[64] ^= 0x01;
    assert_eq!(derive_address(&pk), Err(AddressError::InvalidPublicKey));
}

#[test]
fn checksum_rendering_matches_reference_library() {
    let pk = hex::decode(GENERATOR_HEX).unwrap();
    let text = pubkey_bytes_to_address(&pk).unwrap();
    let addr = derive_address(&pk).unwrap();
    let h160 = ethers_core::types::H160::from_slice(&addr);
    assert_eq!(text, ethers_core::utils::to_checksum(&h160, None));
    assert_eq!(text, "0x7E5F4552091A69125d5DfCb7b8C2659029395Bdf");
}

#[test]
fn checksum_rendering_rejects_malformed_key() {
    let mut pk = hex::decode(GENERATOR_HEX).unwrap();
    pk[0] = 0x03;
    assert_eq!(pubkey_bytes_to_address(&pk), Err(AddressError::InvalidPublicKey));
}
