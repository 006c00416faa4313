//! Long-term identity of a node.
//!
//! Master-ID = SHA-256 of the Ed25519 public key, fixed across the
//! ecosystem. Only the structure lives here; bootstrap and discovery belong
//! to the network layer.
use vstd::prelude::*;

use crate::crypto::{ed25519_generate, ed25519_public, sha256, sha256_digest, SigningKey};

verus! {

/// A node's signing identity: its signing key (held in a buffer wiped on
/// drop, never printable) and the matching public key.
pub struct Identity {
    signing_key: SigningKey,
    public_key: [u8; 32],
}

/// The 32-byte Master-ID of a node.
#[derive(Clone, Copy, PartialEq, Eq, Hash, Debug)]
pub struct MasterId([u8; 32]);

impl View for MasterId {
    type V = Seq<u8>;

    closed spec fn view(&self) -> Seq<u8> {
        self.0@
    }
}

/// The lower-case hexadecimal digits, by value.
const HEX_DIGITS: [char; 16] = [
    '0', '1', '2', '3', '4', '5', '6', '7', '8', '9', 'a', 'b', 'c', 'd', 'e', 'f',
];

/// The lower-case hexadecimal digit of a value below 16.
pub open spec fn hex_digit(v: u8) -> char {
    if v < 10 {
        ('0' as u8 + v) as char
    } else {
        ('a' as u8 + (v - 10)) as char
    }
}

/// Two lower-case hexadecimal digits per byte, high nibble first.
pub open spec fn hex_lower(bytes: Seq<u8>) -> Seq<char>
    decreases bytes.len(),
{
    if bytes.len() == 0 {
        Seq::<char>::empty()
    } else {
        hex_lower(bytes.drop_last()) + seq![
            hex_digit(bytes.last() / 16),
            hex_digit(bytes.last() % 16),
        ]
    }
}

/// Whether a character is a lower-case hexadecimal digit.
pub open spec fn is_lower_hex_digit(c: char) -> bool {
    (48 <= c as u32 <= 57) || (97 <= c as u32 <= 102)
}

/// The value of a lower-case hexadecimal digit.
pub open spec fn hex_value(c: char) -> int {
    if c as u32 <= 57 {
        c as u32 - 48
    } else {
        c as u32 - 87
    }
}

proof fn lemma_hex_digit(v: u8)
    requires
        v < 16,
    ensures
        is_lower_hex_digit(hex_digit(v)),
        hex_value(hex_digit(v)) == v,
{
}

/// The hexadecimal text of bytes has two lower-case digits per byte, and
/// reading each pair back (high digit first) gives the byte.
pub proof fn lemma_hex_lower_parse_back(bytes: Seq<u8>)
    ensures
        hex_lower(bytes).len() == 2 * bytes.len(),
        forall|i: int| 0 <= i < hex_lower(bytes).len() ==> is_lower_hex_digit(#[trigger] hex_lower(bytes)[i]),
        forall|j: int|
            0 <= j < bytes.len() ==> hex_value(hex_lower(bytes)[2 * j]) * 16 + hex_value(
                hex_lower(bytes)[2 * j + 1],
            ) == #[trigger] bytes[j],
    decreases bytes.len(),
{
    if bytes.len() > 0 {
        let init = bytes.drop_last();
        let b = bytes.last();
        lemma_hex_lower_parse_back(init);
        lemma_hex_digit(b / 16);
        lemma_hex_digit(b % 16);
        let h = hex_lower(bytes);
        let hi = hex_lower(init);
        assert(h == hi + seq![hex_digit(b / 16), hex_digit(b % 16)]);
        assert forall|i: int| 0 <= i < h.len() implies is_lower_hex_digit(#[trigger] h[i]) by {
            if i < hi.len() {
                assert(h[i] == hi[i]);
            }
        }
        assert forall|j: int| 0 <= j < bytes.len() implies hex_value(h[2 * j]) * 16 + hex_value(
            h[2 * j + 1],
        ) == #[trigger] bytes[j] by {
            if j < init.len() {
                assert(h[2 * j] == hi[2 * j]);
                assert(h[2 * j + 1] == hi[2 * j + 1]);
                assert(bytes[j] == init[j]);
            } else {
                assert(h[2 * j] == hex_digit(b / 16));
                assert(h[2 * j + 1] == hex_digit(b % 16));
            }
        }
    }
}

/// Wraps `String::push`: appends one character.
#[verifier::external_body]
fn string_push(s: &mut String, c: char)
    ensures
        final(s)@ == old(s)@.push(c),
{
    s.push(c)
}

fn hex_encode(bytes: &[u8]) -> (r: String)
    ensures
        r@ == hex_lower(bytes@),
        r@.len() == 2 * bytes@.len(),
{
    let mut out = String::new();
    let mut i: usize = 0;
    while i < bytes.len()
        invariant
            0 <= i <= bytes@.len(),
            out@ == hex_lower(bytes@.take(i as int)),
            out@.len() == 2 * i,
        decreases bytes@.len() - i,
    {
        let b = bytes[i];
        assert(HEX_DIGITS@[(b / 16) as int] == hex_digit(b / 16));
        assert(HEX_DIGITS@[(b % 16) as int] == hex_digit(b % 16));
        string_push(&mut out, HEX_DIGITS[(b / 16) as usize]);
        string_push(&mut out, HEX_DIGITS[(b % 16) as usize]);
        assert(bytes@.take(i + 1).drop_last() =~= bytes@.take(i as int));
        i = i + 1;
    }
    assert(bytes@.take(bytes@.len() as int) =~= bytes@);
    out
}

impl MasterId {
    pub fn as_bytes(&self) -> (r: &[u8; 32])
        ensures
            r@ == self@,
    {
        &self.0
    }

    /// The Master-ID as 64 lower-case hexadecimal digits.
    pub fn to_hex(&self) -> (r: String)
        ensures
            r@ == hex_lower(self@),
            r@.len() == 64,
    {
        hex_encode(&self.0)
    }
}

impl Identity {
    #[verifier::type_invariant]
    closed spec fn public_key_matches(&self) -> bool {
        self.public_key@ == ed25519_public(self.signing_key@)
    }

    /// The public key bytes of this identity.
    pub closed spec fn public_bytes(&self) -> Seq<u8> {
        self.public_key@
    }

    /// The secret seed of the signing key that this identity holds.
    pub closed spec fn seed(&self) -> Seq<u8> {
        self.signing_key@
    }

    /// A new identity with a random signing key.
    pub fn generate() -> (r: Self)
        ensures
            r.seed().len() == 32,
            r.public_bytes() == ed25519_public(r.seed()),
    {
        Self::from_signing_key(ed25519_generate())
    }

    /// The identity of the given signing key.
    pub fn from_signing_key(signing_key: SigningKey) -> (r: Self)
        ensures
            r.seed() == signing_key@,
            r.public_bytes() == ed25519_public(signing_key@),
    {
        let public_key = signing_key.verifying_key();
        Identity { signing_key, public_key }
    }

    /// The Ed25519 public key bytes.
    pub fn public_key(&self) -> (r: [u8; 32])
        ensures
            r@ == self.public_bytes(),
            r@ == ed25519_public(self.seed()),
    {
        proof {
            use_type_invariant(self);
        }
        self.public_key
    }

    /// The Master-ID: SHA-256 of the public key.
    pub fn master_id(&self) -> (r: MasterId)
        ensures
            r@ == sha256(self.public_bytes()),
    {
        Self::master_id_from_pubkey(&self.public_key)
    }

    /// The Master-ID of a public key: its SHA-256 digest.
    pub fn master_id_from_pubkey(pubkey: &[u8; 32]) -> (r: MasterId)
        ensures
            r@ == sha256(pubkey@),
    {
        MasterId(sha256_digest(pubkey))
    }

    /// The signing key, for signing only; it is not exposed as bytes.
    pub(crate) fn signing_key(&self) -> (r: &SigningKey)
        ensures
            r@ == self.seed(),
    {
        &self.signing_key
    }
}

} // verus!
