use speed_test::command::trim_bounds;
use speed_test::protocol::{is_ack, is_confirmation, parse_command, TestKind};
use speed_test::Protocol;

#[test]
fn protocol_names() {
    assert_eq!(Protocol::UDP.name(), "UDP");
    assert_eq!(Protocol::TCP.name(), "TCP");
}

#[test]
fn toggle_selects_protocol() {
    assert_eq!(Protocol::from_toggle(true), Protocol::TCP);
    assert_eq!(Protocol::from_toggle(false), Protocol::UDP);
}

#[test]
fn words_of_each_test() {
    assert_eq!(TestKind::TcpUpload.start_word(), b"TUST".to_vec());
    assert_eq!(TestKind::TcpUpload.ack_word(), b"TUAH".to_vec());
    assert_eq!(TestKind::TcpDownload.start_word(), b"TDST".to_vec());
    assert_eq!(TestKind::TcpDownload.ack_word(), b"TDAH".to_vec());
    assert_eq!(TestKind::UdpUpload.start_word(), b"UUST".to_vec());
    assert_eq!(TestKind::UdpUpload.ack_word(), b"UUAH".to_vec());
    assert_eq!(TestKind::UdpUpload.confirm_word(), b"UUAA".to_vec());
    assert_eq!(TestKind::UdpDownload.start_word(), b"UDST".to_vec());
    assert_eq!(TestKind::UdpDownload.ack_word(), b"UDAH".to_vec());
    assert_eq!(TestKind::UdpDownload.confirm_word(), b"UDAA".to_vec());
    assert_eq!(TestKind::TcpUpload.protocol(), Protocol::TCP);
    assert_eq!(TestKind::UdpDownload.protocol(), Protocol::UDP);
}

#[test]
fn tcp_server_commands() {
    assert_eq!(parse_command(b"TDST", Protocol::TCP), Some(TestKind::TcpDownload));
    assert_eq!(parse_command(b"TUST", Protocol::TCP), Some(TestKind::TcpUpload));
    assert_eq!(parse_command(b"UUST", Protocol::TCP), None);
    assert_eq!(parse_command(b"hello", Protocol::TCP), None);
    assert_eq!(parse_command(b"", Protocol::TCP), None);
    assert_eq!(parse_command(b"TD", Protocol::TCP), None);
    assert_eq!(parse_command(b"TDSTX", Protocol::TCP), None);
    assert_eq!(parse_command(b"tdst", Protocol::TCP), None);
}

#[test]
fn udp_server_commands() {
    assert_eq!(parse_command(b"UUST", Protocol::UDP), Some(TestKind::UdpUpload));
    assert_eq!(parse_command(b"UDST", Protocol::UDP), Some(TestKind::UdpDownload));
    assert_eq!(parse_command(b"TDST", Protocol::UDP), None);
    assert_eq!(parse_command(b"UUAA", Protocol::UDP), None);
}

#[test]
fn commands_ignore_surrounding_white_space() {
    assert_eq!(parse_command(b"  TDST\r\n", Protocol::TCP), Some(TestKind::TcpDownload));
    assert_eq!(parse_command(b"\tTUST\x0b\x0c", Protocol::TCP), Some(TestKind::TcpUpload));
    let padded = "\u{3000}\u{a0}UDST\u{2028}\u{85}\u{1680}\u{200a}\u{205f}\u{202f}";
    assert_eq!(parse_command(padded.as_bytes(), Protocol::UDP), Some(TestKind::UdpDownload));
    assert_eq!(parse_command(b"TD ST", Protocol::TCP), None);
}

#[test]
fn trimming_agrees_with_std() {
    let samples: Vec<Vec<u8>> = vec![
        b"  TDST  ".to_vec(),
        "\u{2000}x\u{2009} y\u{3000}".as_bytes().to_vec(),
        b"\xffTDST".to_vec(),
        b"TDST\xe2\x80".to_vec(),
        b"\xe2\xe2\x80\x80TUST\n".to_vec(),
        b"\x1cTDST".to_vec(),
        b"   ".to_vec(),
        Vec::new(),
    ];
    for s in samples {
        let (lo, hi) = trim_bounds(&s);
        let ours = String::from_utf8_lossy(&s[lo..hi]).to_string();
        let theirs = String::from_utf8_lossy(&s).trim().to_string();
        assert_eq!(ours, theirs);
    }
}

#[test]
fn invalid_bytes_are_not_white_space() {
    assert_eq!(parse_command(b"\xffTDST", Protocol::TCP), None);
    assert_eq!(parse_command(b"TDST\x80", Protocol::TCP), None);
    assert_eq!(parse_command(b"\xe2\xe2\x80\x80TDST", Protocol::TCP), None);
}

#[test]
fn answers_and_confirmations() {
    assert!(is_ack(b"TUAH", TestKind::TcpUpload));
    assert!(!is_ack(b"TDAH", TestKind::TcpUpload));
    assert!(!is_ack(b"TUAH ", TestKind::TcpUpload));
    assert!(!is_ack(b"UUA", TestKind::UdpUpload));
    assert!(is_ack(b"UDAH", TestKind::UdpDownload));
    assert!(is_confirmation(b"UUAA", TestKind::UdpUpload));
    assert!(!is_confirmation(b"UDAA", TestKind::UdpUpload));
    assert!(is_confirmation(b"UDAA", TestKind::UdpDownload));
}
