use chacha20poly1305::aead::{Aead, KeyInit, Payload};
use chacha20poly1305::{Key, XChaCha20Poly1305, XNonce};
use skhoron_vbf_core::crypto::{
    aead_decrypt, aead_encrypt, argon2id_derive, ed25519_generate, ed25519_sign, ed25519_verify,
    hkdf_derive, random_nonce, random_salt, x25519_generate_ephemeral, x25519_generate_static,
    Argon2Params, SigningKey, SymmetricKey, X25519Secret, HKDF_MAX_OUTPUT, KEY_LEN, NONCE_LEN,
    SALT_LEN,
};
use skhoron_vbf_core::identity::Identity;
use skhoron_vbf_core::VbfError;

fn hex(s: &str) -> Vec<u8> {
    (0..s.len())
        .step_by(2)
        .map(|i| u8::from_str_radix(&s[i..i + 2], 16).unwrap())
        .collect()
}

#[test]
fn symmetric_key_keeps_bytes() {
    let k = SymmetricKey::from_bytes([9u8; KEY_LEN]);
    assert_eq!(k.as_bytes(), &[9u8; 32]);
    let c = k.clone();
    assert_eq!(c.as_bytes(), k.as_bytes());
}

#[test]
fn aead_encrypt_matches_xchacha20poly1305() {
    let key = SymmetricKey::from_bytes([0x42u8; 32]);
    let nonce = [0x24u8; NONCE_LEN];
    let ct = aead_encrypt(&key, &nonce, b"plaintext", b"aad").unwrap();
    let expected = XChaCha20Poly1305::new(Key::from_slice(&[0x42u8; 32]))
        .encrypt(XNonce::from_slice(&nonce), Payload { msg: b"plaintext", aad: b"aad" })
        .unwrap();
    assert_eq!(ct, expected);
    assert_eq!(ct.len(), 9 + 16);
    assert_ne!(&ct[..9], b"plaintext");
}

#[test]
fn aead_roundtrip_and_tamper() {
    let key = SymmetricKey::from_bytes([1u8; 32]);
    let nonce = [2u8; NONCE_LEN];
    let ct = aead_encrypt(&key, &nonce, b"hello", b"hdr").unwrap();
    assert_eq!(aead_decrypt(&key, &nonce, &ct, b"hdr").unwrap(), b"hello");
    assert!(matches!(aead_decrypt(&key, &nonce, &ct, b"other"), Err(VbfError::DecryptionFailed)));
    let mut bad = ct.clone();
    bad[0] ^= 1;
    assert!(matches!(aead_decrypt(&key, &nonce, &bad, b"hdr"), Err(VbfError::DecryptionFailed)));
    let other = SymmetricKey::from_bytes([3u8; 32]);
    assert!(aead_decrypt(&other, &nonce, &ct, b"hdr").is_err());
    assert!(aead_decrypt(&key, &nonce, &ct[..10], b"hdr").is_err());
}

#[test]
fn aead_empty_plaintext_is_tag_only() {
    let key = SymmetricKey::from_bytes([7u8; 32]);
    let ct = aead_encrypt(&key, &[0u8; NONCE_LEN], b"", b"").unwrap();
    assert_eq!(ct.len(), 16);
    assert_eq!(aead_decrypt(&key, &[0u8; NONCE_LEN], &ct, b"").unwrap(), Vec::<u8>::new());
}

#[test]
fn hkdf_matches_rfc5869_case_1() {
    let ikm = [0x0bu8; 22];
    let salt = hex("000102030405060708090a0b0c");
    let info = hex("f0f1f2f3f4f5f6f7f8f9");
    let okm = hkdf_derive(&ikm, Some(&salt), &info, 42).unwrap();
    assert_eq!(
        okm,
        hex("3cb25f25faacd57a90434f64d0362f2a2d2d0a90cf1a5a4c5db02d56ecc4c5bf34007208d5b887185865")
    );
}

#[test]
fn hkdf_matches_rfc5869_case_3_without_salt() {
    let ikm = [0x0bu8; 22];
    let okm = hkdf_derive(&ikm, None, &[], 42).unwrap();
    assert_eq!(
        okm,
        hex("8da4e775a563c18f715f802a063c5a31b8a11f5c5ee1879ec3454e5f3c738d2d9d201395faa4b61a96c8")
    );
}

#[test]
fn hkdf_output_length_limit() {
    assert_eq!(hkdf_derive(b"k", None, b"i", HKDF_MAX_OUTPUT).unwrap().len(), 8160);
    assert!(matches!(
        hkdf_derive(b"k", None, b"i", HKDF_MAX_OUTPUT + 1),
        Err(VbfError::KdfFailed)
    ));
    assert_eq!(hkdf_derive(b"k", None, b"i", 0).unwrap().len(), 0);
}

#[test]
fn hkdf_shorter_output_is_prefix() {
    let long = hkdf_derive(b"ikm", Some(b"salt"), b"info", 100).unwrap();
    let short = hkdf_derive(b"ikm", Some(b"salt"), b"info", 33).unwrap();
    assert_eq!(&long[..33], &short[..]);
}

#[test]
fn ed25519_matches_rfc8032_test_1() {
    let seed: [u8; 32] = hex("9d61b19deffd5a60ba844af492ec2cc44449c5697b326919703bac031cae7f60")
        .try_into()
        .unwrap();
    let public: [u8; 32] = hex("d75a980182b10ab7d54bfed3c964073a0ee172f3daa62325af021a68f707511a")
        .try_into()
        .unwrap();
    let sk = SigningKey::from_bytes(seed);
    assert_eq!(sk.verifying_key(), public);
    let signature = ed25519_sign(&sk, b"");
    assert_eq!(
        signature.to_vec(),
        hex("e5564300c360ac729086e2cc806e828a84877f1eb8e5d974d873e065224901555fb8821590a33bacc61e39701cf9b46bd25bf5f0595bbe24655141438e7a100b")
    );
    assert!(ed25519_verify(&public, b"", &signature).is_ok());
    let identity = Identity::from_signing_key(sk);
    assert_eq!(identity.public_key(), public);
}

#[test]
fn ed25519_sign_verify_and_reject() {
    let sk = ed25519_generate();
    let public = sk.verifying_key();
    let sig = ed25519_sign(&sk, b"message");
    assert_eq!(sig, ed25519_sign(&sk, b"message"));
    assert!(ed25519_verify(&public, b"message", &sig).is_ok());
    assert!(matches!(
        ed25519_verify(&public, b"messagE", &sig),
        Err(VbfError::InvalidSignature)
    ));
    let mut bad = sig;
    bad[0] ^= 1;
    assert!(ed25519_verify(&public, b"message", &bad).is_err());
    assert_ne!(ed25519_generate().verifying_key(), public);
}

#[test]
fn x25519_keys_are_fresh() {
    let (_s1, p1) = x25519_generate_ephemeral();
    let (_s2, p2) = x25519_generate_ephemeral();
    assert_ne!(p1, p2);
    let (s3, p3) = x25519_generate_static();
    let typed = x25519_dalek::StaticSecret::from(*s3.as_bytes());
    assert_eq!(x25519_dalek::PublicKey::from(&typed).to_bytes(), p3);
    assert_eq!(s3.public_key(), p3);
}

#[test]
fn x25519_matches_rfc7748_diffie_hellman() {
    let a: [u8; 32] = hex("77076d0a7318a57d3c16c17251b26645df4c2f87ebc0992ab177fba51db92c2a")
        .try_into()
        .unwrap();
    let b: [u8; 32] = hex("5dab087e624a8a4b79e17f8b83800ee66f3bb1292618b6fd1c2f8b27ff88e0eb")
        .try_into()
        .unwrap();
    let alice = X25519Secret::from_bytes(a);
    let bob = X25519Secret::from_bytes(b);
    let alice_public = alice.public_key();
    let bob_public = bob.public_key();
    assert_eq!(
        alice_public.to_vec(),
        hex("8520f0098930a754748b7ddcb43ef75a0dbf3a0d26381af4eba4a98eaa9b4e6a")
    );
    assert_eq!(
        bob_public.to_vec(),
        hex("de9edb7d7b7dc1b4d35b61c2ece435373f8343c85b78674dadfc7e146f882b4f")
    );
    let k1 = alice.diffie_hellman(&bob_public);
    let k2 = bob.diffie_hellman(&alice_public);
    assert_eq!(
        k1.as_bytes().to_vec(),
        hex("4a5d9d5ba4ce2de1728e3bf480350f25e07e21c947d19e3376f09b3c1e161742")
    );
    assert_eq!(k1.as_bytes(), k2.as_bytes());
}

#[test]
fn random_nonce_and_salt_differ() {
    assert_ne!(random_nonce(), random_nonce());
    let s: [u8; SALT_LEN] = random_salt();
    assert_ne!(s, random_salt());
}

#[test]
fn argon2_params_default() {
    let p = Argon2Params::default();
    assert_eq!(p.memory_kib, 19_456);
    assert_eq!(p.iterations, 3);
    assert_eq!(p.parallelism, 1);
}

#[test]
fn argon2id_matches_crate() {
    let params = Argon2Params { memory_kib: 64, iterations: 1, parallelism: 1 };
    let salt = [5u8; SALT_LEN];
    let key = argon2id_derive(b"password", &salt, &params).unwrap();
    let mut expected = [0u8; 32];
    argon2::Argon2::new(
        argon2::Algorithm::Argon2id,
        argon2::Version::V0x13,
        argon2::Params::new(64, 1, 1, Some(32)).unwrap(),
    )
    .hash_password_into(b"password", &salt, &mut expected)
    .unwrap();
    assert_eq!(key.as_bytes(), &expected);
    let other = argon2id_derive(b"passwore", &salt, &params).unwrap();
    assert_ne!(key.as_bytes(), other.as_bytes());
}

#[test]
fn argon2id_rejects_invalid_params() {
    let salt = [0u8; SALT_LEN];
    for params in [
        Argon2Params { memory_kib: 7, iterations: 1, parallelism: 1 },
        Argon2Params { memory_kib: 15, iterations: 1, parallelism: 2 },
        Argon2Params { memory_kib: 64, iterations: 0, parallelism: 1 },
        Argon2Params { memory_kib: 64, iterations: 1, parallelism: 0 },
        Argon2Params { memory_kib: u32::MAX, iterations: 1, parallelism: 0x100_0000 },
        Argon2Params { memory_kib: u32::MAX, iterations: 1, parallelism: u32::MAX },
    ] {
        assert!(matches!(argon2id_derive(b"pw", &salt, &params), Err(VbfError::KdfFailed)));
    }
}

#[test]
fn aead_decrypt_refuses_ciphertext_shorter_than_tag() {
    let key = SymmetricKey::from_bytes([4u8; 32]);
    let nonce = [5u8; NONCE_LEN];
    for len in 0..16 {
        assert!(matches!(
            aead_decrypt(&key, &nonce, &vec![0u8; len], b""),
            Err(VbfError::DecryptionFailed)
        ));
    }
    let ct = aead_encrypt(&key, &nonce, &[1u8; 40], b"").unwrap();
    assert_eq!(aead_decrypt(&key, &nonce, &ct, b"").unwrap().len(), ct.len() - 16);
}
