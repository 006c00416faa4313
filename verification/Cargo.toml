[package]
name = "skhoron_vbf_core"
version = "0.1.0"
edition = "2021"
publish = false

[dependencies]
argon2 = "0.5"
bytes = "1"
chacha20poly1305 = "0.10"
ed25519-dalek = { version = "2", features = ["rand_core"] }
hkdf = "0.12"
sha2 = "0.10"
x25519-dalek = { version = "2", features = ["static_secrets"] }
zeroize = "1"
thiserror = "1"
libp2p = { version = "0.54", features = ["kad"] }
