//! The encrypted channel that remains after a successful handshake.
//!
//! A plain monotonic counter serves as nonce (no sliding window): enough for
//! the base tier over TCP, where the transport delivers in order. A
//! sliding-window anti-replay for UDP/QUIC is left to forks.
use vstd::prelude::*;

use crate::crypto::{
    aead_accepts_len, aead_decrypt, aead_encrypt, xchacha20poly1305_open,
    xchacha20poly1305_seal, SymmetricKey, NONCE_LEN,
};
use crate::encoding::{
    be64_bytes, be64_of, lemma_be64_bytes_of_value, lemma_be64_value_of_bytes, u64_from_be_bytes, u64_to_be_bytes,
};
use crate::error::VbfError;
use crate::framing::{Frame, FrameType};
use crate::VBF_VERSION;

verus! {

const COUNTER_LEN: usize = 8;

/// What the transport under a `Session` guarantees. `Session::new` asks for
/// it so that a session is not put over UDP/QUIC by accident, where the
/// strict-order logic would break on the first lost packet.
#[derive(Clone, Copy, Debug, PartialEq, Eq, Structural)]
pub enum OrderingGuarantee {
    /// Lossless, strictly ordered delivery (TCP). The only mode in the base.
    StrictInOrderTransport,
}

/// The state of a session: keys, counters and transport guarantee.
pub struct SessionView {
    pub tx_key: Seq<u8>,
    pub rx_key: Seq<u8>,
    pub tx_counter: u64,
    pub rx_counter: u64,
    pub ordering: OrderingGuarantee,
}

pub struct Session {
    tx_key: SymmetricKey,
    rx_key: SymmetricKey,
    tx_counter: u64,
    rx_counter: u64,
    ordering: OrderingGuarantee,
}

impl View for Session {
    type V = SessionView;

    closed spec fn view(&self) -> SessionView {
        SessionView {
            tx_key: self.tx_key@,
            rx_key: self.rx_key@,
            tx_counter: self.tx_counter,
            rx_counter: self.rx_counter,
            ordering: self.ordering,
        }
    }
}

/// The nonce of a counter: 16 zero bytes, then the counter big-endian.
pub open spec fn counter_nonce(counter: u64) -> Seq<u8> {
    Seq::new(16, |i: int| 0u8) + be64_bytes(counter)
}

/// The payload of the data frame that a session sends for `plaintext` with
/// send key `key` at counter `counter`: the counter big-endian, then the
/// AEAD ciphertext, with the counter bytes as associated data.
pub open spec fn sealed_payload(key: Seq<u8>, counter: u64, plaintext: Seq<u8>) -> Seq<u8> {
    be64_bytes(counter) + xchacha20poly1305_seal(
        key,
        counter_nonce(counter),
        plaintext,
        be64_bytes(counter),
    )
}

/// What a session with receive key `key`, expecting counter `counter`, does
/// with a frame of the given kind and payload: the plaintext, or the error.
pub open spec fn receive_outcome(
    key: Seq<u8>,
    counter: u64,
    frame_type: FrameType,
    payload: Seq<u8>,
) -> Result<Seq<u8>, VbfError> {
    if frame_type != FrameType::Data {
        Err(VbfError::MalformedFrame("expected Data frame"))
    } else if payload.len() < 8 {
        Err(VbfError::MalformedFrame("payload shorter than counter"))
    } else if be64_of(payload) != counter {
        Err(VbfError::MalformedFrame("unexpected counter — out of order or replayed frame"))
    } else {
        match xchacha20poly1305_open(
            key,
            counter_nonce(counter),
            payload.skip(8),
            payload.take(8),
        ) {
            None => Err(VbfError::DecryptionFailed),
            Some(p) => if counter == u64::MAX {
                Err(VbfError::DecryptionFailed)
            } else {
                Ok(p)
            },
        }
    }
}

fn counter_to_nonce(counter: u64) -> (r: [u8; NONCE_LEN])
    ensures
        r@ == counter_nonce(counter),
{
    let b = u64_to_be_bytes(counter);
    let r: [u8; NONCE_LEN] = [
        0, 0, 0, 0, 0, 0, 0, 0, 0, 0, 0, 0, 0, 0, 0, 0, b[0], b[1], b[2], b[3], b[4], b[5], b[6], b[7],
    ];
    assert(r@ =~= counter_nonce(counter));
    r
}

impl Session {
    /// A session at counters zero. `ordering` must match the real transport;
    /// only `StrictInOrderTransport` (fit for TCP) exists.
    pub fn new(tx_key: SymmetricKey, rx_key: SymmetricKey, ordering: OrderingGuarantee) -> (s: Self)
        ensures
            s@ == (SessionView {
                tx_key: tx_key@,
                rx_key: rx_key@,
                tx_counter: 0,
                rx_counter: 0,
                ordering,
            }),
    {
        Session { tx_key, rx_key, tx_counter: 0, rx_counter: 0, ordering }
    }

    /// Encrypts the plaintext into a data frame ready to send. The counter
    /// goes both as an explicit payload prefix and as associated data, so a
    /// forged counter breaks the Poly1305 tag. A session whose counter is
    /// exhausted refuses, and must be replaced (keys rotate above).
    ///
    /// The frame is accepted, with this plaintext, by a session whose receive
    /// key and counter are this session's send key and counter.
    pub fn encrypt_frame(&mut self, plaintext: &[u8]) -> (r: Result<Frame, VbfError>)
        ensures
            r is Ok <==> (old(self)@.tx_counter < u64::MAX && aead_accepts_len(plaintext@.len())),
            match r {
                Ok(f) => {
                    &&& f.version == VBF_VERSION
                    &&& f.frame_type == FrameType::Data
                    &&& f.payload@.len() == 8 + plaintext@.len() + 16
                    &&& f.payload@.take(8) == be64_bytes(old(self)@.tx_counter)
                    &&& f.payload@.skip(8) == xchacha20poly1305_seal(
                        old(self)@.tx_key,
                        Seq::new(16, |i: int| 0u8) + be64_bytes(old(self)@.tx_counter),
                        plaintext@,
                        be64_bytes(old(self)@.tx_counter),
                    )
                    &&& f.payload@ == sealed_payload(
                        old(self)@.tx_key,
                        old(self)@.tx_counter,
                        plaintext@,
                    )
                    &&& receive_outcome(
                        old(self)@.tx_key,
                        old(self)@.tx_counter,
                        f.frame_type,
                        f.payload@,
                    ) == Ok::<Seq<u8>, VbfError>(plaintext@)
                    &&& final(self)@ == (SessionView {
                        tx_counter: (old(self)@.tx_counter + 1) as u64,
                        ..old(self)@
                    })
                },
                Err(e) => e == VbfError::EncryptionFailed && final(self)@ == old(self)@,
            },
    {
        let nonce = counter_to_nonce(self.tx_counter);
        let counter_bytes = u64_to_be_bytes(self.tx_counter);
        let ciphertext = aead_encrypt(&self.tx_key, &nonce, plaintext, &counter_bytes)?;

        let mut payload: Vec<u8> = Vec::with_capacity(ciphertext.len().saturating_add(COUNTER_LEN));
        payload.extend_from_slice(&counter_bytes);
        payload.extend_from_slice(ciphertext.as_slice());

        let next = match self.tx_counter.checked_add(1) {
            Some(n) => n,
            None => return Err(VbfError::EncryptionFailed),
        };
        self.tx_counter = next;
        proof {
            let c = old(self)@.tx_counter;
            assert(payload@ =~= sealed_payload(old(self)@.tx_key, c, plaintext@));
            lemma_be64_value_of_bytes(c);
            assert(payload@.take(8) =~= be64_bytes(c));
            assert(payload@.skip(8) =~= ciphertext@);
            assert(be64_of(payload@) == be64_of(be64_bytes(c)));
        }
        Ok(Frame::new(FrameType::Data, payload))
    }

    /// Decrypts a data frame. A frame whose counter is not the expected one
    /// is refused: strict order, no tolerance window, which is the base
    /// tier's anti-replay.
    pub fn decrypt_frame(&mut self, frame: &Frame) -> (r: Result<Vec<u8>, VbfError>)
        ensures
            match r {
                Ok(p) => receive_outcome(
                    old(self)@.rx_key,
                    old(self)@.rx_counter,
                    frame.frame_type,
                    frame.payload@,
                ) == Ok::<Seq<u8>, VbfError>(p@) && p@.len() + 24 == frame.payload@.len()
                    && frame.frame_type == FrameType::Data && frame.payload@.take(8) == be64_bytes(
                    old(self)@.rx_counter,
                ) && xchacha20poly1305_open(
                    old(self)@.rx_key,
                    Seq::new(16, |i: int| 0u8) + be64_bytes(old(self)@.rx_counter),
                    frame.payload@.skip(8),
                    be64_bytes(old(self)@.rx_counter),
                ) == Some(p@)
                    && final(self)@ == (SessionView {
                    rx_counter: (old(self)@.rx_counter + 1) as u64,
                    ..old(self)@
                }),
                Err(e) => receive_outcome(
                    old(self)@.rx_key,
                    old(self)@.rx_counter,
                    frame.frame_type,
                    frame.payload@,
                ) == Err::<Seq<u8>, VbfError>(e) && final(self)@ == old(self)@,
            },
    {
        if frame.frame_type != FrameType::Data {
            return Err(VbfError::MalformedFrame("expected Data frame"));
        }
        if frame.payload.len() < COUNTER_LEN {
            return Err(VbfError::MalformedFrame("payload shorter than counter"));
        }
        let (head, ciphertext) = frame.payload.as_slice().split_at(COUNTER_LEN);
        let counter_bytes: [u8; COUNTER_LEN] = [
            head[0], head[1], head[2], head[3], head[4], head[5], head[6], head[7],
        ];
        assert(counter_bytes@ =~= frame.payload@.take(8));
        assert(ciphertext@ =~= frame.payload@.skip(8));
        let counter = u64_from_be_bytes(&counter_bytes);
        if counter != self.rx_counter {
            return Err(
                VbfError::MalformedFrame("unexpected counter — out of order or replayed frame"),
            );
        }
        let nonce = counter_to_nonce(counter);
        proof {
            lemma_be64_bytes_of_value(counter_bytes@);
            assert(counter_nonce(counter) =~= Seq::new(16, |i: int| 0u8) + be64_bytes(counter));
        }
        let plaintext = aead_decrypt(&self.rx_key, &nonce, ciphertext, &counter_bytes)?;
        let next = match self.rx_counter.checked_add(1) {
            Some(n) => n,
            None => return Err(VbfError::DecryptionFailed),
        };
        self.rx_counter = next;
        Ok(plaintext)
    }
}

/// A frame that a session accepts is refused when it comes again: by then
/// the expected counter has moved on.
pub proof fn lemma_replay_rejected(key: Seq<u8>, counter: u64, frame_type: FrameType, payload: Seq<u8>)
    requires
        receive_outcome(key, counter, frame_type, payload) is Ok,
    ensures
        counter < u64::MAX,
        receive_outcome(key, (counter + 1) as u64, frame_type, payload) == Err::<Seq<u8>, VbfError>(
            VbfError::MalformedFrame("unexpected counter — out of order or replayed frame"),
        ),
{
}

/// A session accepts only the frame that carries the counter it expects:
/// any other counter is refused, whatever the key and ciphertext.
pub proof fn lemma_out_of_order_rejected(
    key: Seq<u8>,
    counter: u64,
    sent_counter: u64,
    ciphertext: Seq<u8>,
)
    requires
        sent_counter != counter,
    ensures
        receive_outcome(key, counter, FrameType::Data, be64_bytes(sent_counter) + ciphertext)
            == Err::<Seq<u8>, VbfError>(
            VbfError::MalformedFrame("unexpected counter — out of order or replayed frame"),
        ),
{
    lemma_be64_value_of_bytes(sent_counter);
    let p = be64_bytes(sent_counter) + ciphertext;
    assert(p.take(8) =~= be64_bytes(sent_counter));
    assert(be64_of(p) == be64_of(be64_bytes(sent_counter)));
}

/// Distinct counters give distinct nonces: the nonce is 16 zero bytes and
/// then the counter, big-endian.
pub proof fn lemma_counter_nonce_injective(c1: u64, c2: u64)
    ensures
        counter_nonce(c1).len() == 24,
        counter_nonce(c1).take(16) == Seq::new(16, |i: int| 0u8),
        counter_nonce(c1).skip(16) == be64_bytes(c1),
        c1 != c2 ==> counter_nonce(c1) != counter_nonce(c2),
{
    lemma_be64_value_of_bytes(c1);
    lemma_be64_value_of_bytes(c2);
    assert(counter_nonce(c1).take(16) =~= Seq::new(16, |i: int| 0u8));
    assert(counter_nonce(c1).skip(16) =~= be64_bytes(c1));
    assert(counter_nonce(c2).skip(16) =~= be64_bytes(c2));
    if c1 != c2 && counter_nonce(c1) == counter_nonce(c2) {
        assert(be64_of(be64_bytes(c1)) == be64_of(be64_bytes(c2)));
    }
}

/// What a receiving session with key `key` and expected counter `counter`
/// does with payloads of data frames delivered one after another, as
/// `decrypt_frame` does with each: the plaintexts, or the first error (after
/// which delivery stops), and the expected counter afterwards.
pub open spec fn deliver_in_order(key: Seq<u8>, counter: u64, payloads: Seq<Seq<u8>>) -> (
    Result<Seq<Seq<u8>>, VbfError>,
    u64,
)
    decreases payloads.len(),
{
    if payloads.len() == 0 {
        (Ok(Seq::empty()), counter)
    } else {
        match receive_outcome(key, counter, FrameType::Data, payloads[0]) {
            Err(e) => (Err(e), counter),
            Ok(p) => {
                let (rest, last) = deliver_in_order(key, (counter + 1) as u64, payloads.drop_first());
                (
                    match rest {
                        Ok(ps) => Ok(seq![p] + ps),
                        Err(e) => Err(e),
                    },
                    last,
                )
            },
        }
    }
}

/// The payloads that a session with send key `key` sends for `plaintexts`,
/// one `encrypt_frame` call each, starting at counter `counter`.
pub open spec fn sent_payloads(key: Seq<u8>, counter: u64, plaintexts: Seq<Seq<u8>>) -> Seq<Seq<u8>> {
    Seq::new(plaintexts.len(), |i: int| sealed_payload(key, (counter + i) as u64, plaintexts[i]))
}

/// The nonce of the `i`-th frame of a run that starts at counter `counter`.
pub open spec fn run_nonce(counter: u64, i: int) -> Seq<u8> {
    counter_nonce((counter + i) as u64)
}

/// A session's frames carry its counters in order, starting where it stood,
/// so no two of them use the same nonce under the same key.
pub proof fn lemma_sent_counters_distinct(key: Seq<u8>, counter: u64, plaintexts: Seq<Seq<u8>>)
    requires
        counter + plaintexts.len() <= u64::MAX,
    ensures
        forall|i: int|
            0 <= i < plaintexts.len() ==> (#[trigger] sent_payloads(key, counter, plaintexts)[i]).take(8)
                == be64_bytes((counter + i) as u64),
        forall|i: int, j: int|
            0 <= i < plaintexts.len() && 0 <= j < plaintexts.len() && i != j ==> #[trigger] run_nonce(
                counter,
                i,
            ) != #[trigger] run_nonce(counter, j),
{
    assert forall|i: int| 0 <= i < plaintexts.len() implies (#[trigger] sent_payloads(
        key,
        counter,
        plaintexts,
    )[i]).take(8) == be64_bytes((counter + i) as u64) by {
        let c = (counter + i) as u64;
        lemma_be64_value_of_bytes(c);
        assert(sealed_payload(key, c, plaintexts[i]).take(8) =~= be64_bytes(c));
    }
    assert forall|i: int, j: int|
        0 <= i < plaintexts.len() && 0 <= j < plaintexts.len() && i != j implies #[trigger] run_nonce(
        counter,
        i,
    ) != #[trigger] run_nonce(counter, j) by {
        let ci = (counter + i) as u64;
        let cj = (counter + j) as u64;
        assert(ci != cj);
        lemma_counter_nonce_injective(ci, cj);
        assert(counter_nonce(ci) != counter_nonce(cj));
    }
}

/// What a receiver of a run that starts at counter `counter` does with a
/// data-frame payload while it expects the run's `i`-th frame.
pub open spec fn receive_at(key: Seq<u8>, counter: u64, i: int, payload: Seq<u8>) -> Result<
    Seq<u8>,
    VbfError,
> {
    receive_outcome(key, (counter + i) as u64, FrameType::Data, payload)
}

/// In-order delivery: frames that a session sent one after another from
/// counter `counter` (each accepted, with its plaintext, at its own counter,
/// as `encrypt_frame` states) are all accepted when delivered in that order
/// to a session expecting `counter`, yielding the plaintexts in order; and
/// while the receiver expects the counter of one frame, every other frame of
/// the run is refused as out of order.
pub proof fn lemma_in_order_delivery(
    key: Seq<u8>,
    counter: u64,
    plaintexts: Seq<Seq<u8>>,
    payloads: Seq<Seq<u8>>,
)
    requires
        payloads.len() == plaintexts.len(),
        counter + payloads.len() <= u64::MAX,
        forall|i: int|
            0 <= i < payloads.len() ==> receive_outcome(
                key,
                (counter + i) as u64,
                FrameType::Data,
                #[trigger] payloads[i],
            ) == Ok::<Seq<u8>, VbfError>(plaintexts[i]),
    ensures
        deliver_in_order(key, counter, payloads) == (
            Ok::<Seq<Seq<u8>>, VbfError>(plaintexts),
            (counter + payloads.len()) as u64,
        ),
        forall|i: int, j: int|
            0 <= i < payloads.len() && 0 <= j < payloads.len() && i != j ==> #[trigger] receive_at(
                key,
                counter,
                i,
                payloads[j],
            ) == Err::<Seq<u8>, VbfError>(
                VbfError::MalformedFrame("unexpected counter — out of order or replayed frame"),
            ),
    decreases payloads.len(),
{
    if payloads.len() > 0 {
        let next = (counter + 1) as u64;
        let rest_p = plaintexts.drop_first();
        let rest = payloads.drop_first();
        assert forall|i: int| 0 <= i < rest.len() implies receive_outcome(
            key,
            (next + i) as u64,
            FrameType::Data,
            #[trigger] rest[i],
        ) == Ok::<Seq<u8>, VbfError>(rest_p[i]) by {
            assert(rest[i] == payloads[i + 1]);
            assert((next + i) as u64 == (counter + (i + 1)) as u64);
        }
        lemma_in_order_delivery(key, next, rest_p, rest);
        assert(receive_outcome(key, counter, FrameType::Data, payloads[0]) == Ok::<Seq<u8>, VbfError>(
            plaintexts[0],
        ));
        assert(seq![plaintexts[0]] + rest_p =~= plaintexts);
        assert(deliver_in_order(key, next, rest) == (
            Ok::<Seq<Seq<u8>>, VbfError>(rest_p),
            (next + rest.len()) as u64,
        ));
        assert((next + rest.len()) as u64 == (counter + payloads.len()) as u64);
    } else {
        assert(plaintexts =~= Seq::<Seq<u8>>::empty());
    }
    assert forall|i: int, j: int|
        0 <= i < payloads.len() && 0 <= j < payloads.len() && i != j implies #[trigger] receive_at(
        key,
        counter,
        i,
        payloads[j],
    ) == Err::<Seq<u8>, VbfError>(
        VbfError::MalformedFrame("unexpected counter — out of order or replayed frame"),
    ) by {
        assert(receive_outcome(key, (counter + j) as u64, FrameType::Data, payloads[j]) is Ok);
    }
}

/// What a session sends for a plaintext at counter `c`: the counter,
/// big-endian, then the XChaCha20-Poly1305 sealing of the plaintext under the
/// send key, with the nonce of 16 zero bytes then the counter, and the
/// counter bytes as associated data.
pub proof fn lemma_sealed_payload_layout(key: Seq<u8>, counter: u64, plaintext: Seq<u8>)
    ensures
        sealed_payload(key, counter, plaintext).take(8) == be64_bytes(counter),
        sealed_payload(key, counter, plaintext).skip(8) == xchacha20poly1305_seal(
            key,
            Seq::new(16, |i: int| 0u8) + be64_bytes(counter),
            plaintext,
            be64_bytes(counter),
        ),
{
    lemma_be64_value_of_bytes(counter);
    let s = sealed_payload(key, counter, plaintext);
    assert(s.take(8) =~= be64_bytes(counter));
    assert(s.skip(8) =~= xchacha20poly1305_seal(
        key,
        counter_nonce(counter),
        plaintext,
        be64_bytes(counter),
    ));
    assert(counter_nonce(counter) =~= Seq::new(16, |i: int| 0u8) + be64_bytes(counter));
}

/// What a session expecting counter `c` does with a data frame whose payload
/// carries counter `c`: it opens the rest with XChaCha20-Poly1305 under its
/// receive key, with the nonce of 16 zero bytes then the counter and the
/// counter bytes as associated data, and gives the plaintext, or
/// `DecryptionFailed` when the tag does not authenticate.
pub proof fn lemma_receive_opens_with_counter(key: Seq<u8>, counter: u64, ciphertext: Seq<u8>)
    requires
        counter < u64::MAX,
    ensures
        receive_outcome(key, counter, FrameType::Data, be64_bytes(counter) + ciphertext) == match xchacha20poly1305_open(
            key,
            Seq::new(16, |i: int| 0u8) + be64_bytes(counter),
            ciphertext,
            be64_bytes(counter),
        ) {
            Some(p) => Ok::<Seq<u8>, VbfError>(p),
            None => Err::<Seq<u8>, VbfError>(VbfError::DecryptionFailed),
        },
{
    lemma_be64_value_of_bytes(counter);
    let payload = be64_bytes(counter) + ciphertext;
    assert(payload.take(8) =~= be64_bytes(counter));
    assert(payload.skip(8) =~= ciphertext);
    assert(be64_of(payload) == be64_of(be64_bytes(counter)));
    assert(counter_nonce(counter) =~= Seq::new(16, |i: int| 0u8) + be64_bytes(counter));
}

/// A session refuses, before any decryption, a frame that is not a data
/// frame and a data frame too short to hold the counter.
pub proof fn lemma_receive_refusals(key: Seq<u8>, counter: u64, frame_type: FrameType, payload: Seq<u8>)
    ensures
        frame_type != FrameType::Data ==> receive_outcome(key, counter, frame_type, payload)
            == Err::<Seq<u8>, VbfError>(VbfError::MalformedFrame("expected Data frame")),
        frame_type == FrameType::Data && payload.len() < 8 ==> receive_outcome(
            key,
            counter,
            frame_type,
            payload,
        ) == Err::<Seq<u8>, VbfError>(VbfError::MalformedFrame("payload shorter than counter")),
{
}

} // verus!
