//! Thin, specified layers over audited primitives (RustCrypto and dalek):
//! XChaCha20-Poly1305, X25519, Ed25519, HKDF-SHA256, Argon2id and SHA-256.
//!
//! Nothing here generates passwords, runs a handshake or sets up a channel:
//! these are the building blocks for that.
use chacha20poly1305::aead::rand_core::RngCore;
use chacha20poly1305::aead::{Aead, KeyInit, OsRng, Payload};
use chacha20poly1305::{Key, XChaCha20Poly1305, XNonce};
use ed25519_dalek::{Signature, Signer, Verifier, VerifyingKey};
use hkdf::Hkdf;
use sha2::{Digest, Sha256};
use vstd::prelude::*;
use zeroize::Zeroizing;

use crate::error::VbfError;

verus! {

pub const KEY_LEN: usize = 32;
pub const NONCE_LEN: usize = 24;
pub const SALT_LEN: usize = 16;

/// Thirty-two secret bytes held in a `zeroize::Zeroizing` buffer, which
/// wipes them when it is dropped.
#[verifier::external_body]
pub struct KeyBuffer {
    bytes: Zeroizing<[u8; 32]>,
}

/// The bytes that a key buffer holds.
pub uninterp spec fn key_buffer_contents(b: KeyBuffer) -> Seq<u8>;

/// Wraps `zeroize::Zeroizing::new`: the new buffer holds exactly the given
/// bytes.
#[verifier::external_body]
fn key_buffer_new(bytes: [u8; 32]) -> (b: KeyBuffer)
    ensures
        key_buffer_contents(b) == bytes@,
{
    KeyBuffer { bytes: Zeroizing::new(bytes) }
}

/// Wraps `Deref::deref` of `zeroize::Zeroizing`: hands out the held bytes.
#[verifier::external_body]
fn key_buffer_bytes(b: &KeyBuffer) -> (r: &[u8; 32])
    ensures
        r@ == key_buffer_contents(*b),
{
    &*b.bytes
}

/// Wraps `Clone::clone` of `zeroize::Zeroizing`: the copy holds the same bytes.
#[verifier::external_body]
fn key_buffer_clone(b: &KeyBuffer) -> (r: KeyBuffer)
    ensures
        key_buffer_contents(r) == key_buffer_contents(*b),
{
    KeyBuffer { bytes: b.bytes.clone() }
}

/// A 256-bit symmetric key whose bytes are wiped when it is dropped.
pub struct SymmetricKey(KeyBuffer);

impl View for SymmetricKey {
    type V = Seq<u8>;

    closed spec fn view(&self) -> Seq<u8> {
        key_buffer_contents(self.0)
    }
}

impl SymmetricKey {
    pub fn from_bytes(bytes: [u8; KEY_LEN]) -> (k: Self)
        ensures
            k@ == bytes@,
    {
        SymmetricKey(key_buffer_new(bytes))
    }

    pub fn as_bytes(&self) -> (r: &[u8; KEY_LEN])
        ensures
            r@ == self@,
    {
        key_buffer_bytes(&self.0)
    }
}

} // verus!

verus! {

impl Clone for SymmetricKey {
    fn clone(&self) -> (r: Self)
        ensures
            r@ == self@,
    {
        SymmetricKey(key_buffer_clone(&self.0))
    }
}

} // verus!

verus! {

// ---------------------------------------------------------------------
// XChaCha20-Poly1305
// ---------------------------------------------------------------------

#[verifier::external_type_specification]
#[verifier::external_body]
pub struct ExAeadError(chacha20poly1305::Error);

/// The ciphertext (with its 16-byte tag appended) that XChaCha20-Poly1305
/// produces for the given key, nonce, plaintext and associated data.
pub uninterp spec fn xchacha20poly1305_seal(
    key: Seq<u8>,
    nonce: Seq<u8>,
    plaintext: Seq<u8>,
    aad: Seq<u8>,
) -> Seq<u8>;

/// What XChaCha20-Poly1305 decryption gives for the given key, nonce,
/// ciphertext (tag appended) and associated data: the plaintext, or `None`
/// when the tag does not authenticate them.
pub uninterp spec fn xchacha20poly1305_open(
    key: Seq<u8>,
    nonce: Seq<u8>,
    ciphertext: Seq<u8>,
    aad: Seq<u8>,
) -> Option<Seq<u8>>;

/// The plaintext lengths that XChaCha20-Poly1305 accepts: fewer than
/// `u32::MAX` blocks of 64 bytes.
pub open spec fn aead_accepts_len(len: nat) -> bool {
    len / 64 < u32::MAX as nat
}

/// Wraps `Aead::encrypt` of `XChaCha20Poly1305` (keyed with `KeyInit::new`).
/// The crate refuses only plaintexts of `u32::MAX` blocks of 64 bytes or
/// more; the ciphertext is the plaintext's length plus the 16-byte tag, and
/// decrypting it with the same key, nonce and associated data gives the
/// plaintext back.
#[verifier::external_body]
fn xchacha_seal(key: &[u8; 32], nonce: &[u8; 24], plaintext: &[u8], aad: &[u8]) -> (r: Result<
    Vec<u8>,
    chacha20poly1305::Error,
>)
    ensures
        r is Ok <==> aead_accepts_len(plaintext@.len()),
        r matches Ok(c) ==> {
            &&& c@ == xchacha20poly1305_seal(key@, nonce@, plaintext@, aad@)
            &&& c@.len() == plaintext@.len() + 16
            &&& xchacha20poly1305_open(key@, nonce@, c@, aad@) == Some(plaintext@)
        },
{
    XChaCha20Poly1305::new(Key::from_slice(key)).encrypt(
        XNonce::from_slice(nonce),
        Payload { msg: plaintext, aad },
    )
}

/// Wraps `Aead::decrypt` of `XChaCha20Poly1305` (keyed with `KeyInit::new`).
/// A ciphertext shorter than the 16-byte tag is refused; the plaintext is
/// the ciphertext without its tag, so 16 bytes shorter.
#[verifier::external_body]
fn xchacha_open(key: &[u8; 32], nonce: &[u8; 24], ciphertext: &[u8], aad: &[u8]) -> (r: Result<
    Vec<u8>,
    chacha20poly1305::Error,
>)
    ensures
        match r {
            Ok(p) => xchacha20poly1305_open(key@, nonce@, ciphertext@, aad@) == Some(p@)
                && p@.len() + 16 == ciphertext@.len(),
            Err(_) => xchacha20poly1305_open(key@, nonce@, ciphertext@, aad@) is None,
        },
        ciphertext@.len() < 16 ==> r is Err,
{
    XChaCha20Poly1305::new(Key::from_slice(key)).decrypt(
        XNonce::from_slice(nonce),
        Payload { msg: ciphertext, aad },
    )
}

/// AEAD encryption. XChaCha20-Poly1305 is fixed across the ecosystem.
pub fn aead_encrypt(
    key: &SymmetricKey,
    nonce: &[u8; NONCE_LEN],
    plaintext: &[u8],
    aad: &[u8],
) -> (r: Result<Vec<u8>, VbfError>)
    ensures
        r is Ok <==> aead_accepts_len(plaintext@.len()),
        match r {
            Ok(c) => {
                &&& c@ == xchacha20poly1305_seal(key@, nonce@, plaintext@, aad@)
                &&& c@.len() == plaintext@.len() + 16
                &&& xchacha20poly1305_open(key@, nonce@, c@, aad@) == Some(plaintext@)
            },
            Err(e) => e == VbfError::EncryptionFailed,
        },
{
    match xchacha_seal(key.as_bytes(), nonce, plaintext, aad) {
        Ok(c) => Ok(c),
        Err(_) => Err(VbfError::EncryptionFailed),
    }
}

/// AEAD decryption: fails when the ciphertext is shorter than the 16-byte
/// tag or the tag does not authenticate the ciphertext and associated data
/// under the key and nonce; the plaintext is 16 bytes shorter than the
/// ciphertext.
pub fn aead_decrypt(
    key: &SymmetricKey,
    nonce: &[u8; NONCE_LEN],
    ciphertext: &[u8],
    aad: &[u8],
) -> (r: Result<Vec<u8>, VbfError>)
    ensures
        ciphertext@.len() < 16 ==> r == Err::<Vec<u8>, VbfError>(VbfError::DecryptionFailed),
        match r {
            Ok(p) => xchacha20poly1305_open(key@, nonce@, ciphertext@, aad@) == Some(p@)
                && p@.len() + 16 == ciphertext@.len(),
            Err(e) => e == VbfError::DecryptionFailed && xchacha20poly1305_open(
                key@,
                nonce@,
                ciphertext@,
                aad@,
            ) is None,
        },
{
    match xchacha_open(key.as_bytes(), nonce, ciphertext, aad) {
        Ok(p) => Ok(p),
        Err(_) => Err(VbfError::DecryptionFailed),
    }
}

/// Wraps `RngCore::fill_bytes` of `OsRng`, the operating system's CSPRNG,
/// filling `N` bytes. Nothing is stated of the bytes, which are random.
#[verifier::external_body]
fn os_random_bytes<const N: usize>() -> [u8; N] {
    let mut bytes = [0u8; N];
    OsRng.fill_bytes(&mut bytes);
    bytes
}

/// A random nonce from the operating system's CSPRNG.
pub fn random_nonce() -> [u8; NONCE_LEN] {
    os_random_bytes()
}

/// A random salt from the operating system's CSPRNG.
pub fn random_salt() -> [u8; SALT_LEN] {
    os_random_bytes()
}

// ---------------------------------------------------------------------
// X25519: ephemeral ECDH for forward secrecy
// ---------------------------------------------------------------------

/// The X25519 function (RFC 7748) of a scalar and a u-coordinate, both as
/// 32 bytes: the u-coordinate of the clamped scalar times the point.
pub uninterp spec fn x25519(scalar: Seq<u8>, u: Seq<u8>) -> Seq<u8>;

/// The u-coordinate of the X25519 base point: 9, little-endian.
pub open spec fn x25519_base_point() -> Seq<u8> {
    seq![9u8] + Seq::new(31, |i: int| 0u8)
}

/// The X25519 public key of a secret scalar.
pub open spec fn x25519_public(scalar: Seq<u8>) -> Seq<u8> {
    x25519(scalar, x25519_base_point())
}

/// Wraps `x25519_dalek::x25519`. Beside naming the result, it states the
/// Diffie-Hellman agreement that the crate documents for this function:
/// when `u` is the public key of another scalar, the result is what that
/// scalar gives with this scalar's public key.
#[verifier::external_body]
fn x25519_raw(scalar: &[u8; 32], u: &[u8; 32]) -> (r: [u8; 32])
    ensures
        r@ == x25519(scalar@, u@),
        forall|other: Seq<u8>| other.len() == 32 && #[trigger] x25519_public(other) == u@ ==> r@ == x25519(other, x25519_public(scalar@)),
{
    x25519_dalek::x25519(*scalar, *u)
}

fn x25519_base_point_bytes() -> (r: [u8; 32])
    ensures
        r@ == x25519_base_point(),
{
    let r: [u8; 32] = [
        9, 0, 0, 0, 0, 0, 0, 0, 0, 0, 0, 0, 0, 0, 0, 0, 0, 0, 0, 0, 0, 0, 0, 0, 0, 0, 0, 0, 0, 0, 0, 0,
    ];
    assert(r@ =~= x25519_base_point());
    r
}

/// An X25519 secret scalar, wiped when dropped.
pub struct X25519Secret(KeyBuffer);

impl View for X25519Secret {
    type V = Seq<u8>;

    closed spec fn view(&self) -> Seq<u8> {
        key_buffer_contents(self.0)
    }
}

impl X25519Secret {
    pub fn from_bytes(bytes: [u8; 32]) -> (s: Self)
        ensures
            s@ == bytes@,
    {
        X25519Secret(key_buffer_new(bytes))
    }

    pub fn as_bytes(&self) -> (r: &[u8; 32])
        ensures
            r@ == self@,
    {
        key_buffer_bytes(&self.0)
    }

    /// The public key of this secret.
    pub fn public_key(&self) -> (r: [u8; 32])
        ensures
            r@ == x25519_public(self@),
    {
        let base = x25519_base_point_bytes();
        x25519_raw(self.as_bytes(), &base)
    }

    /// The shared secret with a peer's public key, in a buffer wiped on
    /// drop. Where the peer's key is the public key of a scalar, both sides
    /// get the same bytes.
    pub fn diffie_hellman(&self, peer_public: &[u8; 32]) -> (r: SymmetricKey)
        ensures
            r@ == x25519(self@, peer_public@),
            forall|peer_scalar: Seq<u8>| peer_scalar.len() == 32 && #[trigger] x25519_public(peer_scalar) == peer_public@ ==> r@ == x25519(peer_scalar, x25519_public(self@)),
    {
        SymmetricKey::from_bytes(x25519_raw(self.as_bytes(), peer_public))
    }
}

/// A fresh ephemeral X25519 key pair from the OS CSPRNG: the secret and its
/// public key.
pub fn x25519_generate_ephemeral() -> (r: (X25519Secret, [u8; 32]))
    ensures
        r.0@.len() == 32,
        r.1@ == x25519_public(r.0@),
{
    let secret = X25519Secret::from_bytes(os_random_bytes());
    let public = secret.public_key();
    (secret, public)
}

/// A fresh static X25519 key pair from the OS CSPRNG: the secret and its
/// public key.
pub fn x25519_generate_static() -> (r: (X25519Secret, [u8; 32]))
    ensures
        r.0@.len() == 32,
        r.1@ == x25519_public(r.0@),
{
    let secret = X25519Secret::from_bytes(os_random_bytes());
    let public = secret.public_key();
    (secret, public)
}

// ---------------------------------------------------------------------
// Ed25519: long-term identity
// ---------------------------------------------------------------------

/// The Ed25519 public key bytes of a 32-byte secret seed.
pub uninterp spec fn ed25519_public(seed: Seq<u8>) -> Seq<u8>;

/// The Ed25519 signature (RFC 8032, deterministic) of a message under a
/// 32-byte secret seed.
pub uninterp spec fn ed25519_signature(seed: Seq<u8>, message: Seq<u8>) -> Seq<u8>;

/// Whether Ed25519 verification (`Verifier::verify` of `VerifyingKey`)
/// accepts the signature bytes on the message under the public key bytes.
/// It is false when the public key bytes are no valid curve point.
pub uninterp spec fn ed25519_accepts(public_key: Seq<u8>, message: Seq<u8>, signature: Seq<u8>) -> bool;

/// Wraps `SigningKey::verifying_key` (with `SigningKey::from_bytes` of the
/// seed and `VerifyingKey::to_bytes`): the public key of the seed.
#[verifier::external_body]
fn ed25519_public_raw(seed: &[u8; 32]) -> (r: [u8; 32])
    ensures
        r@ == ed25519_public(seed@),
{
    ed25519_dalek::SigningKey::from_bytes(seed).verifying_key().to_bytes()
}

/// Wraps `Signer::sign` of `SigningKey` (with `SigningKey::from_bytes` of
/// the seed and `Signature::to_bytes`). A signature that the key makes is
/// accepted by verification under the key's public key.
#[verifier::external_body]
fn ed25519_sign_raw(seed: &[u8; 32], message: &[u8]) -> (r: [u8; 64])
    ensures
        r@ == ed25519_signature(seed@, message@),
        ed25519_accepts(ed25519_public(seed@), message@, r@),
{
    ed25519_dalek::SigningKey::from_bytes(seed).sign(message).to_bytes()
}

/// Wraps `Verifier::verify` of `VerifyingKey`, the key read with
/// `VerifyingKey::from_bytes` and the signature with `Signature::from_bytes`;
/// bytes that are no valid public key are refused.
#[verifier::external_body]
fn ed25519_check(public_key: &[u8; 32], message: &[u8], signature: &[u8; 64]) -> (r: bool)
    ensures
        r == ed25519_accepts(public_key@, message@, signature@),
{
    match VerifyingKey::from_bytes(public_key) {
        Ok(key) => key.verify(message, &Signature::from_bytes(signature)).is_ok(),
        Err(_) => false,
    }
}

/// An Ed25519 signing key, held as its 32-byte secret seed and wiped when
/// dropped.
pub struct SigningKey(KeyBuffer);

impl View for SigningKey {
    type V = Seq<u8>;

    closed spec fn view(&self) -> Seq<u8> {
        key_buffer_contents(self.0)
    }
}

impl SigningKey {
    /// The signing key of a secret seed.
    pub fn from_bytes(seed: [u8; 32]) -> (k: Self)
        ensures
            k@ == seed@,
    {
        SigningKey(key_buffer_new(seed))
    }

    /// The public key bytes.
    pub fn verifying_key(&self) -> (r: [u8; 32])
        ensures
            r@ == ed25519_public(self@),
    {
        ed25519_public_raw(key_buffer_bytes(&self.0))
    }
}

/// A new signing key with a seed from the OS CSPRNG (as
/// `SigningKey::generate` draws it).
pub fn ed25519_generate() -> (k: SigningKey)
    ensures
        k@.len() == 32,
{
    SigningKey::from_bytes(os_random_bytes())
}

/// Signs the message: the deterministic Ed25519 signature of the key's seed,
/// which verifies under the key's public key.
pub fn ed25519_sign(key: &SigningKey, message: &[u8]) -> (r: [u8; 64])
    ensures
        r@ == ed25519_signature(key@, message@),
        ed25519_accepts(ed25519_public(key@), message@, r@),
{
    ed25519_sign_raw(key_buffer_bytes(&key.0), message)
}

/// Checks an Ed25519 signature.
pub fn ed25519_verify(key: &[u8; 32], message: &[u8], signature: &[u8; 64]) -> (r: Result<
    (),
    VbfError,
>)
    ensures
        r is Ok <==> ed25519_accepts(key@, message@, signature@),
        r is Err ==> r == Err::<(), VbfError>(VbfError::InvalidSignature),
{
    if ed25519_check(key, message, signature) {
        Ok(())
    } else {
        Err(VbfError::InvalidSignature)
    }
}

// ---------------------------------------------------------------------
// SHA-256
// ---------------------------------------------------------------------

/// The SHA-256 digest of the data.
pub uninterp spec fn sha256(data: Seq<u8>) -> Seq<u8>;

/// Wraps `Digest::digest` of `Sha256`: the 32-byte digest of the data.
#[verifier::external_body]
pub(crate) fn sha256_digest(data: &[u8]) -> (r: [u8; 32])
    ensures
        r@ == sha256(data@),
{
    Sha256::digest(data).into()
}

// ---------------------------------------------------------------------
// HKDF-SHA256: session keys from ECDH material
// ---------------------------------------------------------------------

/// The `out_len` bytes that HKDF-SHA256 extracts from `ikm` with the salt
/// (or the default salt, when `None`) and expands with `info`.
pub uninterp spec fn hkdf_sha256(ikm: Seq<u8>, salt: Option<Seq<u8>>, info: Seq<u8>, out_len: nat) -> Seq<u8>;

/// The bytes of an optional salt.
pub open spec fn salt_view(salt: Option<&[u8]>) -> Option<Seq<u8>> {
    match salt {
        Some(s) => Some(s@),
        None => None,
    }
}

/// The longest output HKDF-SHA256 gives: 255 blocks of 32 bytes.
pub const HKDF_MAX_OUTPUT: usize = 255 * 32;

/// Wraps `Hkdf::<Sha256>::new` and `Hkdf::expand` into a zeroed buffer of
/// `out_len` bytes. The crate refuses only outputs longer than 255 blocks of
/// 32 bytes; `out_len` stays within `isize::MAX`, where allocating the
/// buffer would panic. Expansion fills the output block by block, so a
/// shorter output is a prefix of a longer one.
#[verifier::external_body]
fn hkdf_sha256_expand(ikm: &[u8], salt: Option<&[u8]>, info: &[u8], out_len: usize) -> (r: Option<
    Vec<u8>,
>)
    requires
        out_len <= isize::MAX,
    ensures
        r is Some <==> out_len <= HKDF_MAX_OUTPUT,
        r matches Some(okm) ==> okm@ == hkdf_sha256(ikm@, salt_view(salt), info@, out_len as nat)
            && okm@.len() == out_len,
        r matches Some(okm) ==> forall|longer: nat|
            out_len <= longer <= HKDF_MAX_OUTPUT ==> #[trigger] hkdf_sha256(
                ikm@,
                salt_view(salt),
                info@,
                longer,
            ).take(out_len as int) == okm@,
{
    let hk = Hkdf::<Sha256>::new(salt, ikm);
    let mut okm = vec![0u8; out_len];
    match hk.expand(info, &mut okm) {
        Ok(()) => Some(okm),
        Err(_) => None,
    }
}

/// HKDF-SHA256 derivation of `out_len` bytes. A shorter output is a prefix
/// of a longer one for the same inputs.
pub fn hkdf_derive(ikm: &[u8], salt: Option<&[u8]>, info: &[u8], out_len: usize) -> (r: Result<
    Vec<u8>,
    VbfError,
>)
    requires
        out_len <= isize::MAX,
    ensures
        r is Ok <==> out_len <= HKDF_MAX_OUTPUT,
        match r {
            Ok(okm) => {
                &&& okm@ == hkdf_sha256(ikm@, salt_view(salt), info@, out_len as nat)
                &&& okm@.len() == out_len
                &&& forall|longer: nat|
                    out_len <= longer <= HKDF_MAX_OUTPUT ==> #[trigger] hkdf_sha256(
                        ikm@,
                        salt_view(salt),
                        info@,
                        longer,
                    ).take(out_len as int) == okm@
            },
            Err(e) => e == VbfError::KdfFailed,
        },
{
    match hkdf_sha256_expand(ikm, salt, info, out_len) {
        Some(okm) => Ok(okm),
        None => Err(VbfError::KdfFailed),
    }
}

// ---------------------------------------------------------------------
// Argon2id: only where a human password or PIN is in the chain
// ---------------------------------------------------------------------

#[verifier::external_type_specification]
#[verifier::external_body]
pub struct ExArgon2Error(argon2::Error);

/// Argon2id cost parameters.
pub struct Argon2Params {
    /// Memory in KiB; RFC 9106 recommends at least 19456 (19 MiB).
    pub memory_kib: u32,
    /// Passes over memory: 2-3.
    pub iterations: u32,
    /// Lanes: 1-2 on mobile, more on desktop.
    pub parallelism: u32,
}

impl Default for Argon2Params {
    fn default() -> (p: Self)
        ensures
            p.memory_kib == 19_456,
            p.iterations == 3,
            p.parallelism == 1,
    {
        Argon2Params { memory_kib: 19_456, iterations: 3, parallelism: 1 }
    }
}

/// The 32-byte Argon2id (version 0x13) output for the password and salt with
/// the given memory (KiB), iteration and lane counts.
pub uninterp spec fn argon2id(password: Seq<u8>, salt: Seq<u8>, memory_kib: u32, iterations: u32, parallelism: u32) -> Seq<u8>;

/// The costs that `argon2::Params::new` accepts: at least 8 KiB and 8 KiB
/// per lane, at least one iteration, between 1 and `0xFF_FFFF` lanes.
pub open spec fn argon2_params_valid(memory_kib: u32, iterations: u32, parallelism: u32) -> bool {
    &&& memory_kib >= 8
    &&& memory_kib >= 8 * parallelism
    &&& iterations >= 1
    &&& 1 <= parallelism <= 0xFF_FFFF
}

/// Wraps `Argon2::hash_password_into` for Argon2id, version 0x13, with
/// `Params::new(memory_kib, iterations, parallelism, Some(32))`. The crate
/// refuses invalid costs and passwords longer than `u32::MAX` bytes (the
/// 16-byte salt is within its limits). `parallelism` stays within the
/// crate's lane limit, below which `parallelism * 8` fits in `u32`. Not stated: that allocating
/// `memory_kib` KiB of working memory succeeds.
#[verifier::external_body]
fn argon2id_hash(
    password: &[u8],
    salt: &[u8; 16],
    memory_kib: u32,
    iterations: u32,
    parallelism: u32,
) -> (r: Result<[u8; 32], argon2::Error>)
    requires
        parallelism <= 0xFF_FFFF,
    ensures
        r is Ok <==> (argon2_params_valid(memory_kib, iterations, parallelism)
            && password@.len() <= u32::MAX),
        r matches Ok(k) ==> k@ == argon2id(password@, salt@, memory_kib, iterations, parallelism),
{
    let params = argon2::Params::new(memory_kib, iterations, parallelism, Some(32))?;
    let hasher = argon2::Argon2::new(argon2::Algorithm::Argon2id, argon2::Version::V0x13, params);
    let mut out = [0u8; 32];
    hasher.hash_password_into(password, salt, &mut out)?;
    Ok(out)
}

/// Argon2id key derivation from a password. Costs that the crate refuses
/// (including more lanes than its limit) give `KdfFailed`.
pub fn argon2id_derive(password: &[u8], salt: &[u8; SALT_LEN], params: &Argon2Params) -> (r: Result<SymmetricKey, VbfError>)
    ensures
        r is Ok <==> argon2_params_valid(params.memory_kib, params.iterations, params.parallelism)
            && password@.len() <= u32::MAX,
        match r {
            Ok(k) => k@ == argon2id(password@, salt@, params.memory_kib, params.iterations, params.parallelism),
            Err(e) => e == VbfError::KdfFailed,
        },
{
    if params.parallelism > 0xFF_FFFF {
        return Err(VbfError::KdfFailed);
    }
    match argon2id_hash(password, salt, params.memory_kib, params.iterations, params.parallelism) {
        Ok(out) => Ok(SymmetricKey::from_bytes(out)),
        Err(_) => Err(VbfError::KdfFailed),
    }
}

} // verus!
