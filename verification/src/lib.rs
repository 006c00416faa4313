//! Platform-independent core of the VBF secure channel: symmetric and
//! public-key primitives, TLV framing, a signed ephemeral handshake and an
//! ordered encrypted session, each with its contract.
pub mod buffer;
pub mod crypto;
pub mod encoding;
pub mod error;
pub mod framing;
pub mod handshake;
pub mod identity;
pub mod session;

pub use error::VbfError;

use vstd::prelude::*;

verus! {

/// Version byte that every frame carries.
pub const VBF_VERSION: u8 = 1;

} // verus!
