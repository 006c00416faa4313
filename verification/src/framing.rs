//! TLV framing, the wire format of a packet:
//! `version(1) | type(1) | length(4, big-endian) | value(length)`.
//!
//! The version byte lets later tiers add frame types without breaking the
//! base format. Only the frame format lives here: replay protection and key
//! handling belong to the protocol above it.
use bytes::BytesMut;
use vstd::prelude::*;

use crate::buffer::{
    buf_get_u32, buf_get_u8, buf_put_slice, buf_put_u32, buf_put_u8, buf_remaining,
    buf_take_vec, buf_with_capacity, bytes_mut_contents,
};
use crate::encoding::{
    be32_bytes, be32_of, lemma_be32_bytes_of_value, lemma_be32_value_of_bytes,
};
use crate::error::VbfError;
use crate::VBF_VERSION;

verus! {

/// Kind of payload a frame carries. Forks add their own kinds in
/// `0x80..=0xFF`, leaving `0x00..=0x7F` reserved.
#[derive(Clone, Copy, PartialEq, Eq, Debug, Structural)]
pub enum FrameType {
    /// Handshake messages (byte `0x01`).
    Handshake,
    /// Encrypted data; the payload is already AEAD ciphertext (byte `0x02`).
    Data,
    /// Keepalive / heartbeat (byte `0x03`).
    KeepAlive,
    /// Protocol control messages (byte `0x04`).
    Control,
    /// Any other kind, kept by its byte.
    Extension(u8),
}

impl FrameType {
    /// The byte that stands for this kind on the wire.
    pub open spec fn wire_byte(self) -> u8 {
        match self {
            FrameType::Handshake => 0x01,
            FrameType::Data => 0x02,
            FrameType::KeepAlive => 0x03,
            FrameType::Control => 0x04,
            FrameType::Extension(v) => v,
        }
    }

    /// The kind that a wire byte stands for.
    pub open spec fn from_wire_byte(v: u8) -> FrameType {
        if v == 0x01 {
            FrameType::Handshake
        } else if v == 0x02 {
            FrameType::Data
        } else if v == 0x03 {
            FrameType::KeepAlive
        } else if v == 0x04 {
            FrameType::Control
        } else {
            FrameType::Extension(v)
        }
    }

    /// A kind that decoding can give back: an `Extension` holds none of the
    /// four bytes of the named kinds.
    pub open spec fn is_canonical(self) -> bool {
        match self {
            FrameType::Extension(v) => !(0x01 <= v <= 0x04),
            _ => true,
        }
    }

    fn to_u8(self) -> (r: u8)
        ensures
            r == self.wire_byte(),
    {
        match self {
            FrameType::Handshake => 0x01,
            FrameType::Data => 0x02,
            FrameType::KeepAlive => 0x03,
            FrameType::Control => 0x04,
            FrameType::Extension(v) => v,
        }
    }

    fn from_u8(v: u8) -> (r: Self)
        ensures
            r == FrameType::from_wire_byte(v),
    {
        match v {
            0x01 => FrameType::Handshake,
            0x02 => FrameType::Data,
            0x03 => FrameType::KeepAlive,
            0x04 => FrameType::Control,
            other => FrameType::Extension(other),
        }
    }
}

/// Every byte stands for a kind that is written back as the same byte.
pub proof fn lemma_frame_type_byte_roundtrip(v: u8)
    ensures
        FrameType::from_wire_byte(v).wire_byte() == v,
        FrameType::from_wire_byte(v).is_canonical(),
{
}

/// The named kinds are bytes `0x01` to `0x04`; every other byte is an
/// extension kind written and read as that same byte.
pub proof fn lemma_frame_type_bytes(v: u8)
    ensures
        FrameType::Handshake.wire_byte() == 0x01,
        FrameType::Data.wire_byte() == 0x02,
        FrameType::KeepAlive.wire_byte() == 0x03,
        FrameType::Control.wire_byte() == 0x04,
        v == 0x01 ==> FrameType::from_wire_byte(v) == FrameType::Handshake,
        v == 0x02 ==> FrameType::from_wire_byte(v) == FrameType::Data,
        v == 0x03 ==> FrameType::from_wire_byte(v) == FrameType::KeepAlive,
        v == 0x04 ==> FrameType::from_wire_byte(v) == FrameType::Control,
        !(0x01 <= v <= 0x04) ==> FrameType::Extension(v).wire_byte() == v,
        !(0x01 <= v <= 0x04) ==> FrameType::from_wire_byte(v) == FrameType::Extension(v),
{
}

/// A canonical kind is read back from its byte unchanged.
pub proof fn lemma_frame_type_roundtrip(t: FrameType)
    requires
        t.is_canonical(),
    ensures
        FrameType::from_wire_byte(t.wire_byte()) == t,
{
}

/// One TLV frame.
#[derive(Clone, Debug)]
pub struct Frame {
    pub version: u8,
    pub frame_type: FrameType,
    pub payload: Vec<u8>,
}

const HEADER_LEN: usize = 1 + 1 + 4;

/// Hard ceiling on a frame's payload: 16 MiB. It keeps a peer from
/// declaring an arbitrary length (up to 4 GiB in the `u32` field) and making
/// the receiver allocate an unbounded buffer.
pub const MAX_FRAME_SIZE: usize = 16 * 1024 * 1024;

/// The wire bytes of a frame with the given fields.
pub open spec fn frame_bytes(version: u8, frame_type: FrameType, payload: Seq<u8>) -> Seq<u8> {
    seq![version, frame_type.wire_byte()] + be32_bytes(payload.len() as u32) + payload
}

/// What decoding does with buffer contents `s`: the result (a frame given by
/// its version, kind and payload, or an error), and the bytes left in the
/// buffer afterwards.
pub open spec fn decode_outcome(s: Seq<u8>) -> (Result<(u8, FrameType, Seq<u8>), VbfError>, Seq<u8>) {
    if s.len() < 6 {
        (Err(VbfError::MalformedFrame("buffer shorter than header")), s)
    } else if s[0] != VBF_VERSION {
        (Err(VbfError::UnsupportedVersion(s[0])), s.skip(1))
    } else {
        let length = be32_of(s.subrange(2, 6));
        if length > MAX_FRAME_SIZE {
            (Err(VbfError::MalformedFrame("declared length exceeds MAX_FRAME_SIZE")), s.skip(6))
        } else if s.len() - 6 < length {
            (Err(VbfError::MalformedFrame("payload shorter than declared length")), s.skip(6))
        } else {
            (
                Ok((s[0], FrameType::from_wire_byte(s[1]), s.subrange(6, 6 + length))),
                s.skip(6 + length),
            )
        }
    }
}

impl Frame {
    /// A frame of the current version.
    pub fn new(frame_type: FrameType, payload: Vec<u8>) -> (f: Self)
        ensures
            f.version == VBF_VERSION,
            f.frame_type == frame_type,
            f.payload@ == payload@,
    {
        Frame { version: VBF_VERSION, frame_type, payload }
    }

    /// Writes the frame into a new buffer. Refused when the payload exceeds
    /// `MAX_FRAME_SIZE`, which also keeps its length within the `u32` field.
    pub fn encode(&self) -> (r: Result<BytesMut, VbfError>)
        ensures
            self.payload@.len() > MAX_FRAME_SIZE ==> r == Err::<BytesMut, VbfError>(
                VbfError::MalformedFrame("payload exceeds MAX_FRAME_SIZE"),
            ),
            self.payload@.len() <= MAX_FRAME_SIZE ==> (r matches Ok(b) && bytes_mut_contents(b)
                == frame_bytes(self.version, self.frame_type, self.payload@)),
    {
        if self.payload.len() > MAX_FRAME_SIZE {
            return Err(VbfError::MalformedFrame("payload exceeds MAX_FRAME_SIZE"));
        }
        let len_u32 = self.payload.len() as u32;
        let mut buf = buf_with_capacity(HEADER_LEN + self.payload.len());
        buf_put_u8(&mut buf, self.version);
        buf_put_u8(&mut buf, self.frame_type.to_u8());
        buf_put_u32(&mut buf, len_u32);
        buf_put_slice(&mut buf, self.payload.as_slice());
        assert(bytes_mut_contents(buf) =~= frame_bytes(
            self.version,
            self.frame_type,
            self.payload@,
        ));
        Ok(buf)
    }

    /// Reads one frame off the front of the buffer. The header is taken off
    /// the buffer as it is read, so on an error after the version byte the
    /// buffer has lost what was read (see `decode_outcome`).
    pub fn decode(buf: &mut BytesMut) -> (r: Result<Self, VbfError>)
        ensures
            bytes_mut_contents(*final(buf)) == decode_outcome(bytes_mut_contents(*old(buf))).1,
            match r {
                Ok(f) => decode_outcome(bytes_mut_contents(*old(buf))).0 == Ok::<
                    (u8, FrameType, Seq<u8>),
                    VbfError,
                >((f.version, f.frame_type, f.payload@)) && f.payload@.len() <= MAX_FRAME_SIZE
                    && f.version == VBF_VERSION,
                Err(e) => decode_outcome(bytes_mut_contents(*old(buf))).0 == Err::<
                    (u8, FrameType, Seq<u8>),
                    VbfError,
                >(e),
            },
    {
        let ghost s = bytes_mut_contents(*buf);
        if buf_remaining(buf) < HEADER_LEN {
            return Err(VbfError::MalformedFrame("buffer shorter than header"));
        }
        let version = buf_get_u8(buf);
        if version != VBF_VERSION {
            return Err(VbfError::UnsupportedVersion(version));
        }
        let frame_type = FrameType::from_u8(buf_get_u8(buf));
        let length = buf_get_u32(buf) as usize;
        assert(s.skip(1).skip(1).skip(4) =~= s.skip(6));
        assert(s.skip(1).skip(1).subrange(0, 4) =~= s.subrange(2, 6));
        if length > MAX_FRAME_SIZE {
            return Err(VbfError::MalformedFrame("declared length exceeds MAX_FRAME_SIZE"));
        }
        if buf_remaining(buf) < length {
            return Err(VbfError::MalformedFrame("payload shorter than declared length"));
        }
        let payload = buf_take_vec(buf, length);
        assert(s.skip(6).take(length as int) =~= s.subrange(6, 6 + length));
        assert(s.skip(6).skip(length as int) =~= s.skip(6 + length));
        Ok(Frame { version, frame_type, payload })
    }
}

/// The wire bytes of a frame: the version byte, the kind's byte, the
/// payload length as four big-endian bytes, then the payload.
pub proof fn lemma_frame_bytes_layout(version: u8, frame_type: FrameType, payload: Seq<u8>)
    requires
        payload.len() <= MAX_FRAME_SIZE,
    ensures
        frame_bytes(version, frame_type, payload).len() == 6 + payload.len(),
        frame_bytes(version, frame_type, payload)[0] == version,
        frame_bytes(version, frame_type, payload)[1] == frame_type.wire_byte(),
        be32_of(frame_bytes(version, frame_type, payload).subrange(2, 6)) == payload.len(),
        frame_bytes(version, frame_type, payload).skip(6) == payload,
{
    let b = frame_bytes(version, frame_type, payload);
    lemma_be32_value_of_bytes(payload.len() as u32);
    assert(b.subrange(2, 6) =~= be32_bytes(payload.len() as u32));
    assert(b.skip(6) =~= payload);
}

/// The 16 MiB ceiling: a frame that decoding accepts has a payload of at
/// most `MAX_FRAME_SIZE` bytes, and a header of the current version that
/// declares more is refused whatever follows it, with the header taken off
/// the buffer.
pub proof fn lemma_decode_ceiling(s: Seq<u8>)
    ensures
        decode_outcome(s).0 matches Ok((version, frame_type, payload)) ==> payload.len()
            <= MAX_FRAME_SIZE && version == VBF_VERSION,
        s.len() >= 6 && s[0] == VBF_VERSION && be32_of(s.subrange(2, 6)) > MAX_FRAME_SIZE
            ==> decode_outcome(s) == (
            Err::<(u8, FrameType, Seq<u8>), VbfError>(
                VbfError::MalformedFrame("declared length exceeds MAX_FRAME_SIZE"),
            ),
            s.skip(6),
        ),
{
}

/// Decoding the bytes of an encodable frame, with any bytes after them, gives
/// the frame back and leaves exactly the bytes after it.
pub proof fn lemma_frame_roundtrip(frame_type: FrameType, payload: Seq<u8>, rest: Seq<u8>)
    requires
        frame_type.is_canonical(),
        payload.len() <= MAX_FRAME_SIZE,
    ensures
        decode_outcome(frame_bytes(VBF_VERSION, frame_type, payload) + rest) == (
            Ok::<(u8, FrameType, Seq<u8>), VbfError>((VBF_VERSION, frame_type, payload)),
            rest,
        ),
{
    let s = frame_bytes(VBF_VERSION, frame_type, payload) + rest;
    let n = payload.len() as u32;
    lemma_be32_value_of_bytes(n);
    assert(s.subrange(2, 6) =~= be32_bytes(n));
    assert(s.subrange(6, 6 + payload.len() as int) =~= payload);
    assert(s.skip(6 + payload.len() as int) =~= rest);
}

/// A frame that decoding accepts is written back as exactly the bytes that
/// decoding consumed.
pub proof fn lemma_frame_reencode(s: Seq<u8>)
    requires
        decode_outcome(s).0 is Ok,
    ensures
        ({
            let (version, frame_type, payload) = decode_outcome(s).0->Ok_0;
            frame_bytes(version, frame_type, payload) + decode_outcome(s).1 == s
        }),
{
    let length = be32_of(s.subrange(2, 6));
    lemma_be32_bytes_of_value(s.subrange(2, 6));
    let payload = s.subrange(6, 6 + length);
    assert(payload.len() as u32 == length);
    assert(frame_bytes(s[0], FrameType::from_wire_byte(s[1]), payload) + s.skip(6 + length) =~= s);
}

} // verus!
