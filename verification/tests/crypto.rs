use alloy::signers::local::PrivateKeySigner;
use alloy::signers::SignerSync;
use storage_node::crypto::{
    decode_signature, recover_address_from_signature, report_recovery, signed_message,
};

fn signer() -> PrivateKeySigner {
    PrivateKeySigner::from_slice(&[7u8; 32]).unwrap()
}

fn sign(key: &str) -> String {
    let message = signed_message(key);
    let digest = alloy::primitives::keccak256(&message);
    let signature = signer().sign_hash_sync(&digest).unwrap();
    hex::encode(signature.as_bytes())
}

#[test]
fn message_is_the_key_behind_a_zero_prefix() {
    assert_eq!(signed_message("0xabc"), b"0x00abc".to_vec());
    assert_eq!(signed_message("abc"), b"0x00abc".to_vec());
    assert_eq!(signed_message(""), b"0x00".to_vec());
}

#[test]
fn signer_is_recovered() {
    let expected = signer().address().into_array();
    let signature = sign("0x1234");
    assert_eq!(recover_address_from_signature("0x1234", &signature), Ok(expected));
    assert_eq!(recover_address_from_signature("1234", &format!("0x{}", signature)), Ok(expected));
    assert_ne!(recover_address_from_signature("1235", &signature), Ok(expected));
}

#[test]
fn signatures_must_be_hex() {
    assert_eq!(
        recover_address_from_signature("k", "xyz1").unwrap_err(),
        "Invalid signature: Invalid character 'x' at position 0"
    );
    assert_eq!(
        decode_signature("abc").unwrap_err(),
        "Invalid signature: Odd number of digits"
    );
}

#[test]
fn signatures_must_have_sixty_five_bytes() {
    assert_eq!(
        decode_signature(&"ab".repeat(64)).unwrap_err(),
        "Invalid signature length: expected 65, got 64"
    );
    assert_eq!(
        decode_signature("").unwrap_err(),
        "Invalid signature length: expected 65, got 0"
    );
}

#[test]
fn signatures_must_end_in_a_parity() {
    let mut raw = vec![1u8; 65];
    raw[64] = 2;
    assert_eq!(
        decode_signature(&hex::encode(&raw)).unwrap_err(),
        "Invalid signature format: InvalidParity(2)"
    );
    for v in [0u8, 1, 27, 28, 35, 36, 255] {
        raw[64] = v;
        assert_eq!(decode_signature(&hex::encode(&raw)).unwrap(), raw);
    }
    for v in [3u8, 26, 29, 34] {
        raw[64] = v;
        assert!(decode_signature(&hex::encode(&raw)).is_err());
    }
}

#[test]
fn failed_recovery_is_reported() {
    assert_eq!(
        report_recovery(Err("bad".to_string())).unwrap_err(),
        "Recover address failed: bad"
    );
    assert_eq!(report_recovery(Ok([9u8; 20])), Ok([9u8; 20]));
    let zeros = "00".repeat(65);
    assert!(recover_address_from_signature("k", &zeros)
        .unwrap_err()
        .starts_with("Recover address failed: "));
}
