use speed_test::handshake::{
    classify_reply, HandshakeAction, HandshakeEvent, UdpHandshake, MAX_HANDSHAKE_RETRIES,
};
use speed_test::protocol::TestKind;

#[test]
fn answer_is_confirmed() {
    let mut h = UdpHandshake::new();
    let e = classify_reply(true, b"UUAH", TestKind::UdpUpload);
    assert_eq!(e, HandshakeEvent::Acknowledged);
    assert_eq!(h.step(e), HandshakeAction::Confirm);
}

#[test]
fn foreign_or_wrong_replies_are_resent() {
    assert_eq!(classify_reply(false, b"UUAH", TestKind::UdpUpload), HandshakeEvent::OtherDatagram);
    assert_eq!(classify_reply(true, b"UDAH", TestKind::UdpUpload), HandshakeEvent::OtherDatagram);
    let mut h = UdpHandshake::new();
    for _ in 0..50 {
        assert_eq!(h.step(HandshakeEvent::OtherDatagram), HandshakeAction::SendAgain);
    }
}

#[test]
fn gives_up_after_ten_timeouts() {
    assert_eq!(MAX_HANDSHAKE_RETRIES, 10);
    let mut h = UdpHandshake::new();
    for _ in 0..9 {
        assert_eq!(h.step(HandshakeEvent::TimedOut), HandshakeAction::SendAgain);
        assert_eq!(h.step(HandshakeEvent::OtherDatagram), HandshakeAction::SendAgain);
    }
    assert_eq!(h.step(HandshakeEvent::TimedOut), HandshakeAction::GiveUp);
}

#[test]
fn answer_after_timeouts_is_confirmed() {
    let mut h = UdpHandshake::new();
    for _ in 0..9 {
        assert_eq!(h.step(HandshakeEvent::TimedOut), HandshakeAction::SendAgain);
    }
    assert_eq!(h.step(HandshakeEvent::Acknowledged), HandshakeAction::Confirm);
}
