use skhoron_vbf_core::crypto::SigningKey;
use skhoron_vbf_core::identity::Identity;

#[test]
fn master_id_is_sha256_of_public_key() {
    let id = Identity::master_id_from_pubkey(&[0u8; 32]);
    assert_eq!(
        id.to_hex(),
        "66687aadf862bd776c8fc18b8e9f8e20089714856ee233b3902a591d0d5f2925"
    );
    assert_eq!(id.as_bytes()[0], 0x66);
    assert_eq!(id.as_bytes()[31], 0x25);
}

#[test]
fn identity_master_id_matches_its_public_key() {
    let identity = Identity::generate();
    assert_eq!(identity.master_id(), Identity::master_id_from_pubkey(&identity.public_key()));
    assert_eq!(identity.master_id().to_hex().len(), 64);
}

#[test]
fn identity_from_signing_key_is_stable() {
    let a = Identity::from_signing_key(SigningKey::from_bytes([7u8; 32]));
    let b = Identity::from_signing_key(SigningKey::from_bytes([7u8; 32]));
    assert_eq!(a.public_key(), SigningKey::from_bytes([7u8; 32]).verifying_key());
    assert_eq!(a.public_key(), b.public_key());
    assert_eq!(a.master_id(), b.master_id());
}

#[test]
fn different_identities_have_different_master_ids() {
    assert_ne!(Identity::generate().master_id(), Identity::generate().master_id());
}

#[test]
fn to_hex_is_lower_case_two_digits_per_byte() {
    let id = Identity::master_id_from_pubkey(&[1u8; 32]);
    let hex = id.to_hex();
    let expected: String = id.as_bytes().iter().map(|b| format!("{:02x}", b)).collect();
    assert_eq!(hex, expected);
}
