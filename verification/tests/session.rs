use skhoron_vbf_core::crypto::SymmetricKey;
use skhoron_vbf_core::framing::{Frame, FrameType};
use skhoron_vbf_core::handshake::{finish, start, PeerAuthenticity};
use skhoron_vbf_core::identity::Identity;
use skhoron_vbf_core::session::{OrderingGuarantee, Session};
use skhoron_vbf_core::VbfError;

#[test]
fn session_roundtrip_after_handshake() {
    let identity_a = Identity::generate();
    let identity_b = Identity::generate();

    let (state_a, msg_a) = start(&identity_a);
    let (state_b, msg_b) = start(&identity_b);

    let keys_a = finish(
        state_a,
        &msg_b,
        &identity_b.public_key(),
        PeerAuthenticity::VerifiedOutOfBand,
    )
    .unwrap();
    let keys_b = finish(
        state_b,
        &msg_a,
        &identity_a.public_key(),
        PeerAuthenticity::VerifiedOutOfBand,
    )
    .unwrap();

    let mut session_a = Session::new(keys_a.tx, keys_a.rx, OrderingGuarantee::StrictInOrderTransport);
    let mut session_b = Session::new(keys_b.tx, keys_b.rx, OrderingGuarantee::StrictInOrderTransport);

    let frame = session_a.encrypt_frame(b"hello from A").unwrap();
    let plaintext = session_b.decrypt_frame(&frame).unwrap();
    assert_eq!(plaintext, b"hello from A");

    let frame2 = session_b.encrypt_frame(b"hello from B").unwrap();
    let plaintext2 = session_a.decrypt_frame(&frame2).unwrap();
    assert_eq!(plaintext2, b"hello from B");
}

#[test]
fn rejects_replayed_frame() {
    let identity_a = Identity::generate();
    let identity_b = Identity::generate();

    let (state_a, msg_a) = start(&identity_a);
    let (state_b, msg_b) = start(&identity_b);

    let keys_a = finish(
        state_a,
        &msg_b,
        &identity_b.public_key(),
        PeerAuthenticity::VerifiedOutOfBand,
    )
    .unwrap();
    let keys_b = finish(
        state_b,
        &msg_a,
        &identity_a.public_key(),
        PeerAuthenticity::VerifiedOutOfBand,
    )
    .unwrap();

    let mut session_a = Session::new(keys_a.tx, keys_a.rx, OrderingGuarantee::StrictInOrderTransport);
    let mut session_b = Session::new(keys_b.tx, keys_b.rx, OrderingGuarantee::StrictInOrderTransport);

    let frame = session_a.encrypt_frame(b"once").unwrap();
    session_b.decrypt_frame(&frame).unwrap();
    assert!(session_b.decrypt_frame(&frame).is_err());
}

fn session_pair() -> (Session, Session) {
    let k1 = [0x11u8; 32];
    let k2 = [0x22u8; 32];
    let a = Session::new(
        SymmetricKey::from_bytes(k1),
        SymmetricKey::from_bytes(k2),
        OrderingGuarantee::StrictInOrderTransport,
    );
    let b = Session::new(
        SymmetricKey::from_bytes(k2),
        SymmetricKey::from_bytes(k1),
        OrderingGuarantee::StrictInOrderTransport,
    );
    (a, b)
}

#[test]
fn encrypted_frame_layout() {
    let (mut a, _) = session_pair();
    let f0 = a.encrypt_frame(b"abc").unwrap();
    let f1 = a.encrypt_frame(b"abc").unwrap();
    assert_eq!(f0.version, 1);
    assert_eq!(f0.frame_type, FrameType::Data);
    assert_eq!(f0.payload.len(), 8 + 3 + 16);
    assert_eq!(&f0.payload[..8], &[0, 0, 0, 0, 0, 0, 0, 0]);
    assert_eq!(&f1.payload[..8], &[0, 0, 0, 0, 0, 0, 0, 1]);
    assert_ne!(&f0.payload[8..11], b"abc");
    assert_ne!(f0.payload[8..], f1.payload[8..]);
}

#[test]
fn frames_in_order_are_accepted() {
    let (mut a, mut b) = session_pair();
    for i in 0u8..5 {
        let f = a.encrypt_frame(&[i; 10]).unwrap();
        assert_eq!(b.decrypt_frame(&f).unwrap(), vec![i; 10]);
    }
}

#[test]
fn out_of_order_frame_is_rejected() {
    let (mut a, mut b) = session_pair();
    let _f0 = a.encrypt_frame(b"first").unwrap();
    let f1 = a.encrypt_frame(b"second").unwrap();
    assert!(matches!(b.decrypt_frame(&f1), Err(VbfError::MalformedFrame(_))));
}

#[test]
fn non_data_frame_is_rejected() {
    let (mut a, mut b) = session_pair();
    let f = a.encrypt_frame(b"x").unwrap();
    let other = Frame::new(FrameType::Control, f.payload.clone());
    assert!(matches!(
        b.decrypt_frame(&other),
        Err(VbfError::MalformedFrame("expected Data frame"))
    ));
    assert_eq!(b.decrypt_frame(&f).unwrap(), b"x");
}

#[test]
fn short_payload_is_rejected() {
    let (_, mut b) = session_pair();
    let f = Frame::new(FrameType::Data, vec![0u8; 7]);
    assert!(matches!(
        b.decrypt_frame(&f),
        Err(VbfError::MalformedFrame("payload shorter than counter"))
    ));
}

#[test]
fn tampered_frame_fails_authentication_and_keeps_counter() {
    let (mut a, mut b) = session_pair();
    let f = a.encrypt_frame(b"secret").unwrap();
    let mut bad = f.clone();
    bad.payload[9] ^= 0x80;
    assert!(matches!(b.decrypt_frame(&bad), Err(VbfError::DecryptionFailed)));
    assert_eq!(b.decrypt_frame(&f).unwrap(), b"secret");
}

#[test]
fn frame_under_wrong_key_fails() {
    let (mut a, _) = session_pair();
    let mut c = Session::new(
        SymmetricKey::from_bytes([0x33u8; 32]),
        SymmetricKey::from_bytes([0x44u8; 32]),
        OrderingGuarantee::StrictInOrderTransport,
    );
    let f = a.encrypt_frame(b"hi").unwrap();
    assert!(matches!(c.decrypt_frame(&f), Err(VbfError::DecryptionFailed)));
}

#[test]
fn forged_counter_breaks_the_tag() {
    let (mut a, mut b) = session_pair();
    let f0 = a.encrypt_frame(b"zero").unwrap();
    let f1 = a.encrypt_frame(b"one").unwrap();
    assert_eq!(b.decrypt_frame(&f0).unwrap(), b"zero");
    let mut forged = f0.clone();
    forged.payload[..8].copy_from_slice(&1u64.to_be_bytes());
    assert!(matches!(b.decrypt_frame(&forged), Err(VbfError::DecryptionFailed)));
    assert_eq!(b.decrypt_frame(&f1).unwrap(), b"one");
}

#[test]
fn early_frame_refused_then_accepted_in_order() {
    let (mut a, mut b) = session_pair();
    let frames: Vec<Frame> = (0u8..4).map(|i| a.encrypt_frame(&[i; 3]).unwrap()).collect();
    for (i, f) in frames.iter().enumerate() {
        assert_eq!(&f.payload[..8], &(i as u64).to_be_bytes());
    }
    assert!(matches!(b.decrypt_frame(&frames[1]), Err(VbfError::MalformedFrame(_))));
    for (i, f) in frames.iter().enumerate() {
        assert_eq!(b.decrypt_frame(f).unwrap(), vec![i as u8; 3]);
    }
}
