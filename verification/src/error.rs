use vstd::prelude::*;

verus! {

/// Errors of the core library.
#[derive(Debug, Clone, Copy, PartialEq, Eq)]
pub enum VbfError {
    EncryptionFailed,
    DecryptionFailed,
    InvalidKeyLength { expected: usize, got: usize },
    KdfFailed,
    MalformedFrame(&'static str),
    UnsupportedVersion(u8),
    InvalidSignature,
}

} // verus!
