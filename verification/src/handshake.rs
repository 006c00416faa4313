//! Minimal handshake that sets up a secure channel.
//!
//! Each side makes an ephemeral X25519 key and signs it with its Ed25519
//! identity, over the protocol id and version. The session keys come from
//! HKDF over the X25519 shared secret, salted with the SHA-256 of the whole
//! transcript (protocol id, version, both identities and both ephemeral keys
//! in a fixed order), so the keys are bound to the exact pair of ephemeral
//! keys and identities.
//!
//! Not here, on purpose: sliding-window anti-replay (the session keeps a
//! strict counter) and negotiation of features beyond the fixed version.
#[allow(unused_imports)]
use vstd::string::StringSliceAdditionalSpecFns;
use vstd::prelude::*;

use crate::crypto::{
    ed25519_accepts, ed25519_sign, ed25519_signature, ed25519_verify, hkdf_derive, hkdf_sha256,
    sha256, sha256_digest, x25519, x25519_generate_ephemeral, x25519_public, SymmetricKey,
    X25519Secret,
};
use crate::error::VbfError;
use crate::identity::Identity;

verus! {

/// Length of an encoded handshake message: ephemeral public key, identity
/// public key, signature.
pub const HANDSHAKE_MSG_LEN: usize = 32 + 32 + 64;

/// Domain separation of the protocol; changes only if the transcript format
/// ever changes incompatibly.
pub const PROTOCOL_ID: &'static str = "skhoron-vbf-handshake";

/// Version of the handshake protocol.
pub const PROTOCOL_VERSION: u8 = 1;

/// HKDF info of the key from side A (the smaller identity) to side B.
pub const A2B_INFO: &'static str = "skhoron-vbf-a2b";

/// HKDF info of the key from side B to side A.
pub const B2A_INFO: &'static str = "skhoron-vbf-b2a";

/// How the caller came by the peer's expected public key. It does not by
/// itself stop a man in the middle, but it makes the choice explicit: trust
/// on first use does not protect against an active attacker.
#[derive(Clone, Copy, Debug, PartialEq, Eq, Structural)]
pub enum PeerAuthenticity {
    /// The key came from an independent trusted source (a contact exchanged
    /// beforehand, a signed DHT record, ...).
    VerifiedOutOfBand,
    /// Trust on first use: the key was taken without independent check.
    TrustOnFirstUse,
}

/// The message that each side sends first; it travels as the payload of a
/// `Handshake` frame.
pub struct HandshakeMessage {
    pub ephemeral_pubkey: [u8; 32],
    pub identity_pubkey: [u8; 32],
    pub signature: [u8; 64],
}

/// The bytes of an encoded handshake message.
pub open spec fn handshake_message_bytes(
    ephemeral_pubkey: Seq<u8>,
    identity_pubkey: Seq<u8>,
    signature: Seq<u8>,
) -> Seq<u8> {
    ephemeral_pubkey + identity_pubkey + signature
}

fn copy_into(out: &mut [u8; HANDSHAKE_MSG_LEN], start: usize, src: &[u8])
    requires
        start + src@.len() <= HANDSHAKE_MSG_LEN,
    ensures
        final(out)@ == old(out)@.subrange(0, start as int) + src@ + old(out)@.subrange(
            start + src@.len(),
            HANDSHAKE_MSG_LEN as int,
        ),
{
    let mut i: usize = 0;
    while i < src.len()
        invariant
            start + src@.len() <= HANDSHAKE_MSG_LEN,
            0 <= i <= src@.len(),
            out@.len() == HANDSHAKE_MSG_LEN,
            out@ == old(out)@.subrange(0, start as int) + src@.subrange(0, i as int) + old(
                out,
            )@.subrange(start + i, HANDSHAKE_MSG_LEN as int),
        decreases src@.len() - i,
    {
        out[start + i] = src[i];
        i = i + 1;
        assert(out@ =~= old(out)@.subrange(0, start as int) + src@.subrange(0, i as int) + old(
            out,
        )@.subrange(start + i, HANDSHAKE_MSG_LEN as int));
    }
    assert(src@.subrange(0, i as int) =~= src@);
}

fn copy_out<const N: usize>(src: &[u8], start: usize) -> (r: [u8; N])
    requires
        start + N <= src@.len(),
        start + N <= usize::MAX,
    ensures
        r@ == src@.subrange(start as int, start + N),
{
    let mut r: [u8; N] = [0u8; N];
    let mut i: usize = 0;
    while i < N
        invariant
            start + N <= src@.len(),
            start + N <= usize::MAX,
            0 <= i <= N,
            r@.len() == N,
            forall|j: int| 0 <= j < i ==> r@[j] == src@[start + j],
        decreases N - i,
    {
        r[i] = src[start + i];
        i = i + 1;
    }
    assert(r@ =~= src@.subrange(start as int, start + N));
    r
}

impl HandshakeMessage {
    pub fn encode(&self) -> (r: [u8; HANDSHAKE_MSG_LEN])
        ensures
            r@ == handshake_message_bytes(
                self.ephemeral_pubkey@,
                self.identity_pubkey@,
                self.signature@,
            ),
    {
        let mut out: [u8; HANDSHAKE_MSG_LEN] = [0u8; 128];
        copy_into(&mut out, 0, &self.ephemeral_pubkey);
        copy_into(&mut out, 32, &self.identity_pubkey);
        copy_into(&mut out, 64, &self.signature);
        assert(out@ =~= handshake_message_bytes(
            self.ephemeral_pubkey@,
            self.identity_pubkey@,
            self.signature@,
        ));
        out
    }

    /// Reads a message of exactly `HANDSHAKE_MSG_LEN` bytes.
    pub fn decode(bytes: &[u8]) -> (r: Result<Self, VbfError>)
        ensures
            bytes@.len() != HANDSHAKE_MSG_LEN ==> r == Err::<Self, VbfError>(
                VbfError::MalformedFrame("bad handshake message length"),
            ),
            bytes@.len() == HANDSHAKE_MSG_LEN ==> (r matches Ok(m) && m.ephemeral_pubkey@
                == bytes@.subrange(0, 32) && m.identity_pubkey@ == bytes@.subrange(32, 64)
                && m.signature@ == bytes@.subrange(64, 128)),
    {
        if bytes.len() != HANDSHAKE_MSG_LEN {
            return Err(VbfError::MalformedFrame("bad handshake message length"));
        }
        let ephemeral_pubkey: [u8; 32] = copy_out(bytes, 0);
        let identity_pubkey: [u8; 32] = copy_out(bytes, 32);
        let signature: [u8; 64] = copy_out(bytes, 64);
        Ok(HandshakeMessage { ephemeral_pubkey, identity_pubkey, signature })
    }
}

/// Decoding the bytes of a message gives back its three parts.
pub proof fn lemma_handshake_message_roundtrip(
    ephemeral_pubkey: Seq<u8>,
    identity_pubkey: Seq<u8>,
    signature: Seq<u8>,
)
    requires
        ephemeral_pubkey.len() == 32,
        identity_pubkey.len() == 32,
        signature.len() == 64,
    ensures
        ({
            let b = handshake_message_bytes(ephemeral_pubkey, identity_pubkey, signature);
            &&& b.len() == HANDSHAKE_MSG_LEN
            &&& b.subrange(0, 32) == ephemeral_pubkey
            &&& b.subrange(32, 64) == identity_pubkey
            &&& b.subrange(64, 128) == signature
        }),
{
    let b = handshake_message_bytes(ephemeral_pubkey, identity_pubkey, signature);
    assert(b.subrange(0, 32) =~= ephemeral_pubkey);
    assert(b.subrange(32, 64) =~= identity_pubkey);
    assert(b.subrange(64, 128) =~= signature);
}

/// Encoding the parts that decoding reads out of a message of the right
/// length gives back the same bytes.
pub proof fn lemma_handshake_message_reencode(bytes: Seq<u8>)
    requires
        bytes.len() == HANDSHAKE_MSG_LEN,
    ensures
        handshake_message_bytes(
            bytes.subrange(0, 32),
            bytes.subrange(32, 64),
            bytes.subrange(64, 128),
        ) == bytes,
{
    assert(handshake_message_bytes(
        bytes.subrange(0, 32),
        bytes.subrange(32, 64),
        bytes.subrange(64, 128),
    ) =~= bytes);
}

/// Byte-wise lexicographic order, as Rust orders `[u8; 32]`: `a` comes
/// first where the first differing byte of `a` is smaller.
pub open spec fn bytes_lt(a: Seq<u8>, b: Seq<u8>) -> bool {
    exists|i: int|
        0 <= i < a.len() && i < b.len() && #[trigger] a[i] < b[i] && forall|j: int|
            0 <= j < i ==> a[j] == b[j]
}

/// Where two byte strings agree up to index `k` and differ there, the one
/// with the smaller byte at `k` comes first and the other does not.
pub proof fn lemma_bytes_lt_at_first_difference(a: Seq<u8>, b: Seq<u8>, k: int)
    requires
        0 <= k < a.len(),
        k < b.len(),
        a[k] != b[k],
        forall|j: int| 0 <= j < k ==> a[j] == b[j],
    ensures
        bytes_lt(a, b) <==> a[k] < b[k],
{
    if bytes_lt(a, b) {
        let g = choose|g: int|
            0 <= g < a.len() && g < b.len() && #[trigger] a[g] < b[g] && forall|j: int|
                0 <= j < g ==> a[j] == b[j];
        assert(g == k);
    }
}

/// Of two different byte strings of one length, exactly one comes first.
pub proof fn lemma_bytes_lt_total(a: Seq<u8>, b: Seq<u8>)
    requires
        a.len() == b.len(),
        a != b,
    ensures
        bytes_lt(a, b) != bytes_lt(b, a),
{
    assert(!(a =~= b));
    let k = choose|k: int| 0 <= k < a.len() && a[k] != b[k];
    lemma_first_difference(a, b, k);
    let f = choose|f: int|
        0 <= f < a.len() && a[f] != b[f] && forall|j: int| 0 <= j < f ==> a[j] == b[j];
    if a[f] < b[f] {
        assert(bytes_lt(a, b));
        if bytes_lt(b, a) {
            let g = choose|g: int|
                0 <= g < b.len() && g < a.len() && #[trigger] b[g] < a[g] && forall|j: int|
                    0 <= j < g ==> b[j] == a[j];
            assert(g == f);
        }
    } else {
        assert(b[f] < a[f]);
        assert(bytes_lt(b, a));
        if bytes_lt(a, b) {
            let g = choose|g: int|
                0 <= g < a.len() && g < b.len() && #[trigger] a[g] < b[g] && forall|j: int|
                    0 <= j < g ==> a[j] == b[j];
            assert(g == f);
        }
    }
}

proof fn lemma_first_difference(a: Seq<u8>, b: Seq<u8>, k: int)
    requires
        a.len() == b.len(),
        0 <= k < a.len(),
        a[k] != b[k],
    ensures
        exists|f: int| 0 <= f < a.len() && a[f] != b[f] && forall|j: int| 0 <= j < f ==> a[j] == b[j],
    decreases k,
{
    if exists|j: int| 0 <= j < k && a[j] != b[j] {
        let j = choose|j: int| 0 <= j < k && a[j] != b[j];
        lemma_first_difference(a, b, j);
    } else {
        assert(forall|j: int| 0 <= j < k ==> a[j] == b[j]);
    }
}

fn id_lt(a: &[u8; 32], b: &[u8; 32]) -> (r: bool)
    ensures
        r == bytes_lt(a@, b@),
{
    let mut i: usize = 0;
    while i < 32
        invariant
            0 <= i <= 32,
            a@.len() == 32,
            b@.len() == 32,
            forall|j: int| 0 <= j < i ==> a@[j] == b@[j],
        decreases 32 - i,
    {
        if a[i] != b[i] {
            let r = a[i] < b[i];
            proof {
                if !r {
                    if bytes_lt(a@, b@) {
                        let g = choose|g: int|
                            0 <= g < a@.len() && g < b@.len() && #[trigger] a@[g] < b@[g]
                                && forall|j: int| 0 <= j < g ==> a@[j] == b@[j];
                        assert(g == i);
                    }
                }
            }
            return r;
        }
        i = i + 1;
    }
    false
}

/// Protocol id, then the protocol version.
pub open spec fn handshake_context() -> Seq<u8> {
    PROTOCOL_ID.spec_bytes().push(PROTOCOL_VERSION)
}

/// The protocol context is 22 bytes: the 21 ASCII bytes of the protocol
/// id and the version byte.
pub proof fn lemma_handshake_context_len()
    ensures
        handshake_context().len() == 22,
{
    broadcast use vstd::string::is_ascii_spec_bytes;

    reveal_strlit("skhoron-vbf-handshake");
    assert(vstd::string::is_ascii(PROTOCOL_ID));
}

/// What each side signs: the protocol context and its ephemeral public key.
/// The whole transcript cannot be signed at that point: the peer's message
/// has not arrived yet; binding both sides happens through HKDF.
pub open spec fn signed_material(ephemeral_pubkey: Seq<u8>) -> Seq<u8> {
    handshake_context() + ephemeral_pubkey
}

/// Each side signs the protocol id, the protocol version byte, and its
/// ephemeral public key, in that order.
pub proof fn lemma_signed_material_layout(ephemeral_pubkey: Seq<u8>)
    ensures
        signed_material(ephemeral_pubkey) == PROTOCOL_ID.spec_bytes() + seq![PROTOCOL_VERSION]
            + ephemeral_pubkey,
{
    assert(PROTOCOL_ID.spec_bytes().push(PROTOCOL_VERSION) =~= PROTOCOL_ID.spec_bytes() + seq![
        PROTOCOL_VERSION,
    ]);
}

/// The transcript: protocol id, version, the smaller identity, the larger
/// identity, then the ephemeral key of the smaller identity and that of the
/// larger, so that both sides build the same bytes.
pub open spec fn transcript(
    local_identity: Seq<u8>,
    local_ephemeral: Seq<u8>,
    peer_identity: Seq<u8>,
    peer_ephemeral: Seq<u8>,
) -> Seq<u8> {
    if bytes_lt(local_identity, peer_identity) {
        handshake_context() + local_identity + peer_identity + local_ephemeral + peer_ephemeral
    } else {
        handshake_context() + peer_identity + local_identity + peer_ephemeral + local_ephemeral
    }
}

/// A transcript of 32-byte keys is 150 bytes long.
pub proof fn lemma_transcript_len(
    local_identity: Seq<u8>,
    local_ephemeral: Seq<u8>,
    peer_identity: Seq<u8>,
    peer_ephemeral: Seq<u8>,
)
    requires
        local_identity.len() == 32,
        local_ephemeral.len() == 32,
        peer_identity.len() == 32,
        peer_ephemeral.len() == 32,
    ensures
        transcript(local_identity, local_ephemeral, peer_identity, peer_ephemeral).len() == 150,
{
    lemma_handshake_context_len();
}

/// The key from side A (the smaller identity) to side B.
pub open spec fn key_a_to_b(shared_secret: Seq<u8>, transcript: Seq<u8>) -> Seq<u8> {
    hkdf_sha256(shared_secret, Some(sha256(transcript)), A2B_INFO.spec_bytes(), 32)
}

/// The key from side B to side A.
pub open spec fn key_b_to_a(shared_secret: Seq<u8>, transcript: Seq<u8>) -> Seq<u8> {
    hkdf_sha256(shared_secret, Some(sha256(transcript)), B2A_INFO.spec_bytes(), 32)
}

/// The send key of the local side: A-to-B where the local identity is the
/// smaller one, else B-to-A.
pub open spec fn session_tx_key(
    shared_secret: Seq<u8>,
    local_identity: Seq<u8>,
    local_ephemeral: Seq<u8>,
    peer_identity: Seq<u8>,
    peer_ephemeral: Seq<u8>,
) -> Seq<u8> {
    let t = transcript(local_identity, local_ephemeral, peer_identity, peer_ephemeral);
    if bytes_lt(local_identity, peer_identity) {
        key_a_to_b(shared_secret, t)
    } else {
        key_b_to_a(shared_secret, t)
    }
}

/// The receive key of the local side: the other one of the two.
pub open spec fn session_rx_key(
    shared_secret: Seq<u8>,
    local_identity: Seq<u8>,
    local_ephemeral: Seq<u8>,
    peer_identity: Seq<u8>,
    peer_ephemeral: Seq<u8>,
) -> Seq<u8> {
    let t = transcript(local_identity, local_ephemeral, peer_identity, peer_ephemeral);
    if bytes_lt(local_identity, peer_identity) {
        key_b_to_a(shared_secret, t)
    } else {
        key_a_to_b(shared_secret, t)
    }
}

/// Who sends with which key: side A, the one whose identity is bytewise
/// smaller, sends with the key derived with `A2B_INFO` and receives with the
/// one derived with `B2A_INFO`; side B the other way round. Both keys are
/// HKDF-SHA256 of the shared secret, salted with the SHA-256 of the
/// transcript: protocol id, version, A's identity, B's identity, A's
/// ephemeral key, B's ephemeral key.
pub proof fn lemma_session_key_roles(
    shared_secret: Seq<u8>,
    local_identity: Seq<u8>,
    local_ephemeral: Seq<u8>,
    peer_identity: Seq<u8>,
    peer_ephemeral: Seq<u8>,
)
    ensures
        handshake_context() == PROTOCOL_ID.spec_bytes().push(PROTOCOL_VERSION),
        bytes_lt(local_identity, peer_identity) ==> {
            let salt = Some(sha256(
                PROTOCOL_ID.spec_bytes().push(PROTOCOL_VERSION) + local_identity + peer_identity
                    + local_ephemeral + peer_ephemeral,
            ));
            &&& session_tx_key(shared_secret, local_identity, local_ephemeral, peer_identity, peer_ephemeral)
                == hkdf_sha256(shared_secret, salt, A2B_INFO.spec_bytes(), 32)
            &&& session_rx_key(shared_secret, local_identity, local_ephemeral, peer_identity, peer_ephemeral)
                == hkdf_sha256(shared_secret, salt, B2A_INFO.spec_bytes(), 32)
        },
        !bytes_lt(local_identity, peer_identity) ==> {
            let salt = Some(sha256(
                PROTOCOL_ID.spec_bytes().push(PROTOCOL_VERSION) + peer_identity + local_identity
                    + peer_ephemeral + local_ephemeral,
            ));
            &&& session_tx_key(shared_secret, local_identity, local_ephemeral, peer_identity, peer_ephemeral)
                == hkdf_sha256(shared_secret, salt, B2A_INFO.spec_bytes(), 32)
            &&& session_rx_key(shared_secret, local_identity, local_ephemeral, peer_identity, peer_ephemeral)
                == hkdf_sha256(shared_secret, salt, A2B_INFO.spec_bytes(), 32)
        },
{
}

/// Both sides of a handshake between different identities build the same
/// transcript.
pub proof fn lemma_transcript_symmetric(
    local_identity: Seq<u8>,
    local_ephemeral: Seq<u8>,
    peer_identity: Seq<u8>,
    peer_ephemeral: Seq<u8>,
)
    requires
        local_identity.len() == 32,
        peer_identity.len() == 32,
        local_identity != peer_identity,
    ensures
        transcript(local_identity, local_ephemeral, peer_identity, peer_ephemeral) == transcript(
            peer_identity,
            peer_ephemeral,
            local_identity,
            local_ephemeral,
        ),
{
    lemma_bytes_lt_total(local_identity, peer_identity);
}

/// With the same shared secret, each side's send key is the other side's
/// receive key, when the two identities differ.
pub proof fn lemma_session_keys_agree(
    shared_secret: Seq<u8>,
    identity_a: Seq<u8>,
    ephemeral_a: Seq<u8>,
    identity_b: Seq<u8>,
    ephemeral_b: Seq<u8>,
)
    requires
        identity_a.len() == 32,
        identity_b.len() == 32,
        identity_a != identity_b,
    ensures
        session_tx_key(shared_secret, identity_a, ephemeral_a, identity_b, ephemeral_b)
            == session_rx_key(shared_secret, identity_b, ephemeral_b, identity_a, ephemeral_a),
        session_rx_key(shared_secret, identity_a, ephemeral_a, identity_b, ephemeral_b)
            == session_tx_key(shared_secret, identity_b, ephemeral_b, identity_a, ephemeral_a),
{
    lemma_bytes_lt_total(identity_a, identity_b);
    lemma_transcript_symmetric(identity_a, ephemeral_a, identity_b, ephemeral_b);
}

fn build_signed_material(ephemeral_pubkey: &[u8; 32]) -> (r: Vec<u8>)
    ensures
        r@ == signed_material(ephemeral_pubkey@),
{
    let id = PROTOCOL_ID.as_bytes();
    let mut m: Vec<u8> = Vec::with_capacity(id.len().saturating_add(1 + 32));
    m.extend_from_slice(id);
    m.push(PROTOCOL_VERSION);
    m.extend_from_slice(ephemeral_pubkey);
    assert(m@ =~= signed_material(ephemeral_pubkey@));
    m
}

fn build_transcript(
    local_identity: &[u8; 32],
    local_ephemeral: &[u8; 32],
    peer_identity: &[u8; 32],
    peer_ephemeral: &[u8; 32],
) -> (r: Vec<u8>)
    ensures
        r@ == transcript(local_identity@, local_ephemeral@, peer_identity@, peer_ephemeral@),
        r@.len() == 150,
{
    proof {
        lemma_handshake_context_len();
    }
    let (id_min, eph_min, id_max, eph_max) = if id_lt(local_identity, peer_identity) {
        (local_identity, local_ephemeral, peer_identity, peer_ephemeral)
    } else {
        (peer_identity, peer_ephemeral, local_identity, local_ephemeral)
    };
    let id = PROTOCOL_ID.as_bytes();
    let mut t: Vec<u8> = Vec::with_capacity(id.len().saturating_add(1 + 32 * 4));
    t.extend_from_slice(id);
    t.push(PROTOCOL_VERSION);
    t.extend_from_slice(id_min);
    t.extend_from_slice(id_max);
    t.extend_from_slice(eph_min);
    t.extend_from_slice(eph_max);
    assert(t@ =~= transcript(local_identity@, local_ephemeral@, peer_identity@, peer_ephemeral@));
    t
}

fn key_from_vec(v: &Vec<u8>) -> (r: [u8; 32])
    requires
        v@.len() == 32,
    ensures
        r@ == v@,
{
    copy_out(v.as_slice(), 0)
}

/// The session keys of a handshake, in the order of `SessionKeys`.
pub struct SessionKeys {
    pub tx: SymmetricKey,
    pub rx: SymmetricKey,
}

/// Derives the session keys from the X25519 shared secret and the two
/// sides' identity and ephemeral public keys.
pub fn derive_session_keys(
    shared_secret: &[u8; 32],
    local_identity: &[u8; 32],
    local_ephemeral: &[u8; 32],
    peer_identity: &[u8; 32],
    peer_ephemeral: &[u8; 32],
) -> (r: Result<SessionKeys, VbfError>)
    ensures
        r matches Ok(keys) && keys.tx@ == session_tx_key(
            shared_secret@,
            local_identity@,
            local_ephemeral@,
            peer_identity@,
            peer_ephemeral@,
        ) && keys.rx@ == session_rx_key(
            shared_secret@,
            local_identity@,
            local_ephemeral@,
            peer_identity@,
            peer_ephemeral@,
        ),
        bytes_lt(local_identity@, peer_identity@) ==> (r matches Ok(keys) && keys.tx@ == hkdf_sha256(
            shared_secret@,
            Some(sha256(handshake_context() + local_identity@ + peer_identity@ + local_ephemeral@
                    + peer_ephemeral@)),
            A2B_INFO.spec_bytes(),
            32,
        ) && keys.rx@ == hkdf_sha256(
            shared_secret@,
            Some(sha256(handshake_context() + local_identity@ + peer_identity@ + local_ephemeral@
                    + peer_ephemeral@)),
            B2A_INFO.spec_bytes(),
            32,
        )),
        !bytes_lt(local_identity@, peer_identity@) ==> (r matches Ok(keys) && keys.tx@ == hkdf_sha256(
            shared_secret@,
            Some(sha256(handshake_context() + peer_identity@ + local_identity@ + peer_ephemeral@
                    + local_ephemeral@)),
            B2A_INFO.spec_bytes(),
            32,
        ) && keys.rx@ == hkdf_sha256(
            shared_secret@,
            Some(sha256(handshake_context() + peer_identity@ + local_identity@ + peer_ephemeral@
                    + local_ephemeral@)),
            A2B_INFO.spec_bytes(),
            32,
        )),
{
    proof {
        lemma_session_key_roles(
            shared_secret@,
            local_identity@,
            local_ephemeral@,
            peer_identity@,
            peer_ephemeral@,
        );
    }
    let transcript = build_transcript(local_identity, local_ephemeral, peer_identity, peer_ephemeral);
    let transcript_hash = sha256_digest(transcript.as_slice());
    let key_a_to_b = hkdf_derive(shared_secret, Some(&transcript_hash), A2B_INFO.as_bytes(), 32)?;
    let key_b_to_a = hkdf_derive(shared_secret, Some(&transcript_hash), B2A_INFO.as_bytes(), 32)?;
    let a2b = key_from_vec(&key_a_to_b);
    let b2a = key_from_vec(&key_b_to_a);
    let local_is_a = id_lt(local_identity, peer_identity);
    let (tx, rx) = if local_is_a {
        (a2b, b2a)
    } else {
        (b2a, a2b)
    };
    Ok(SessionKeys { tx: SymmetricKey::from_bytes(tx), rx: SymmetricKey::from_bytes(rx) })
}

/// What a side keeps between sending its message and receiving the peer's:
/// the ephemeral secret, whose public key it announced, and its identity.
pub struct HandshakeState {
    ephemeral_secret: X25519Secret,
    local_identity_pubkey: [u8; 32],
    local_ephemeral_pubkey: [u8; 32],
}

impl HandshakeState {
    #[verifier::type_invariant]
    closed spec fn ephemeral_key_matches(&self) -> bool {
        self.local_ephemeral_pubkey@ == x25519_public(self.ephemeral_secret@)
    }

    /// The local identity public key.
    pub closed spec fn local_identity(&self) -> Seq<u8> {
        self.local_identity_pubkey@
    }

    /// The local ephemeral public key.
    pub closed spec fn local_ephemeral(&self) -> Seq<u8> {
        self.local_ephemeral_pubkey@
    }

    /// The local ephemeral secret scalar.
    pub closed spec fn ephemeral_scalar(&self) -> Seq<u8> {
        self.ephemeral_secret@
    }
}

/// Step 1: a fresh ephemeral key and the message that announces it, signed
/// by the identity over `signed_material` (protocol id, version, ephemeral
/// public key). Both sides run the same step: the protocol is symmetric,
/// without initiator or responder.
pub fn start(identity: &Identity) -> (r: (HandshakeState, HandshakeMessage))
    ensures
        r.1.identity_pubkey@ == identity.public_bytes(),
        r.0.local_identity() == identity.public_bytes(),
        r.0.local_ephemeral() == r.1.ephemeral_pubkey@,
        r.0.ephemeral_scalar().len() == 32,
        r.1.ephemeral_pubkey@ == x25519_public(r.0.ephemeral_scalar()),
        r.1.signature@ == ed25519_signature(identity.seed(), signed_material(r.1.ephemeral_pubkey@)),
        ed25519_accepts(
            identity.public_bytes(),
            signed_material(r.1.ephemeral_pubkey@),
            r.1.signature@,
        ),
{
    let (ephemeral_secret, ephemeral_public) = x25519_generate_ephemeral();
    let signed = build_signed_material(&ephemeral_public);
    let signature = ed25519_sign(identity.signing_key(), signed.as_slice());
    let msg = HandshakeMessage {
        ephemeral_pubkey: ephemeral_public,
        identity_pubkey: identity.public_key(),
        signature,
    };
    let state = HandshakeState {
        ephemeral_secret,
        local_identity_pubkey: identity.public_key(),
        local_ephemeral_pubkey: ephemeral_public,
    };
    (state, msg)
}

/// Step 2: checks the peer's message against the expected identity and its
/// signature, then derives the session keys from the X25519 shared secret of
/// the local ephemeral secret and the peer's ephemeral key. `authenticity`
/// makes the caller state where `expected_peer_pubkey` came from; trust on
/// first use is accepted, but stays visible in the calling code, and the
/// result does not depend on it.
///
/// Where the peer's ephemeral key is the public key of a scalar, the shared
/// secret is the one the peer computes from that scalar and the local
/// ephemeral key; with `lemma_session_keys_agree`, the send key here is the
/// peer's receive key and the other way round.
pub fn finish(
    state: HandshakeState,
    peer_msg: &HandshakeMessage,
    expected_peer_pubkey: &[u8; 32],
    authenticity: PeerAuthenticity,
) -> (r: Result<SessionKeys, VbfError>)
    ensures
        peer_msg.identity_pubkey@ != expected_peer_pubkey@ ==> r == Err::<SessionKeys, VbfError>(
            VbfError::InvalidSignature,
        ),
        peer_msg.identity_pubkey@ == expected_peer_pubkey@ && !ed25519_accepts(
            expected_peer_pubkey@,
            signed_material(peer_msg.ephemeral_pubkey@),
            peer_msg.signature@,
        ) ==> r == Err::<SessionKeys, VbfError>(VbfError::InvalidSignature),
        peer_msg.identity_pubkey@ == expected_peer_pubkey@ && ed25519_accepts(
            expected_peer_pubkey@,
            signed_material(peer_msg.ephemeral_pubkey@),
            peer_msg.signature@,
        ) ==> (r matches Ok(keys) && keys.tx@ == session_tx_key(
            x25519(state.ephemeral_scalar(), peer_msg.ephemeral_pubkey@),
            state.local_identity(),
            state.local_ephemeral(),
            peer_msg.identity_pubkey@,
            peer_msg.ephemeral_pubkey@,
        ) && keys.rx@ == session_rx_key(
            x25519(state.ephemeral_scalar(), peer_msg.ephemeral_pubkey@),
            state.local_identity(),
            state.local_ephemeral(),
            peer_msg.identity_pubkey@,
            peer_msg.ephemeral_pubkey@,
        )),
        r is Ok ==> forall|peer_scalar: Seq<u8>|
            peer_scalar.len() == 32 && #[trigger] x25519_public(peer_scalar) == peer_msg.ephemeral_pubkey@ ==> x25519(
                state.ephemeral_scalar(),
                peer_msg.ephemeral_pubkey@,
            ) == x25519(peer_scalar, state.local_ephemeral()),
{
    proof {
        use_type_invariant(&state);
    }
    if !ids_equal(&peer_msg.identity_pubkey, expected_peer_pubkey) {
        return Err(VbfError::InvalidSignature);
    }
    let signed = build_signed_material(&peer_msg.ephemeral_pubkey);
    ed25519_verify(expected_peer_pubkey, signed.as_slice(), &peer_msg.signature)?;

    let shared = state.ephemeral_secret.diffie_hellman(&peer_msg.ephemeral_pubkey);
    let keys = derive_session_keys(
        shared.as_bytes(),
        &state.local_identity_pubkey,
        &state.local_ephemeral_pubkey,
        &peer_msg.identity_pubkey,
        &peer_msg.ephemeral_pubkey,
    )?;
    Ok(keys)
}

fn ids_equal(a: &[u8; 32], b: &[u8; 32]) -> (r: bool)
    ensures
        r == (a@ == b@),
{
    let mut i: usize = 0;
    while i < 32
        invariant
            0 <= i <= 32,
            a@.len() == 32,
            b@.len() == 32,
            forall|j: int| 0 <= j < i ==> a@[j] == b@[j],
        decreases 32 - i,
    {
        if a[i] != b[i] {
            return false;
        }
        i = i + 1;
    }
    assert(a@ =~= b@);
    true
}

} // verus!
