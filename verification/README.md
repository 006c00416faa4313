# skhoron_vbf_core

Verified core of the VBF secure channel, written in Verus.

- `src/encoding.rs`: big-endian `u32`/`u64` encodings and their round trips.
- `src/buffer.rs`: the `bytes::BytesMut` buffer, specified by its contents.
- `src/crypto.rs`: XChaCha20-Poly1305, X25519, Ed25519, SHA-256, HKDF-SHA256
  and Argon2id, each outside call behind a specified wrapper.
- `src/framing.rs`: the TLV frame format, with encode/decode round-trip laws.
- `src/identity.rs`: node identity and Master-ID (SHA-256 of the public key).
- `src/handshake.rs`: handshake messages, transcript, key schedule, and the
  laws that both sides build the same transcript and crossed keys.
- `src/session.rs`: the counter-ordered encrypted session, with the laws that
  a sent frame is accepted by the matching peer and a replayed one refused.
- `app/`: the error type with `thiserror` and the libp2p network layer.
