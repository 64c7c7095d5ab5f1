use speed_test::wire::{
    datagram, decode_i64, decode_u64, encode_i64, encode_u64, read_datagram, Datagram,
    DATAGRAM_LEN, END_OF_STREAM,
};

#[test]
fn u64_big_endian() {
    assert_eq!(encode_u64(0x0102_0304_0506_0708), vec![1, 2, 3, 4, 5, 6, 7, 8]);
    assert_eq!(decode_u64(&[1, 2, 3, 4, 5, 6, 7, 8]), 0x0102_0304_0506_0708);
    assert_eq!(decode_u64(&[0, 0, 0, 0, 0, 0, 0x03, 0xe8, 9, 9]), 1000);
}

#[test]
fn agrees_with_std_byte_order() {
    for x in [0u64, 1, 255, 256, 10_000, u64::MAX, 0x8000_0000_0000_0000] {
        assert_eq!(encode_u64(x), x.to_be_bytes().to_vec());
        assert_eq!(decode_u64(&x.to_be_bytes()), x);
    }
    for x in [0i64, -1, 1, i64::MIN, i64::MAX, -123_456_789] {
        assert_eq!(encode_i64(x), x.to_be_bytes().to_vec());
        assert_eq!(decode_i64(&x.to_be_bytes()), x);
    }
}

#[test]
fn minus_one_is_all_ones() {
    assert_eq!(encode_i64(-1), vec![0xff; 8]);
    assert_eq!(decode_i64(&[0xff; 8]), END_OF_STREAM);
}

#[test]
fn datagram_layout() {
    let d = datagram(5);
    assert_eq!(d.len(), DATAGRAM_LEN);
    assert_eq!(&d[..8], &5i64.to_be_bytes());
    assert!(d[8..].iter().all(|b| *b == 0));
    assert_eq!(read_datagram(&d), Datagram::Data(5));
}

#[test]
fn end_of_stream_datagram() {
    let d = datagram(END_OF_STREAM);
    assert_eq!(read_datagram(&d), Datagram::End);
    let mut buf = [0u8; 64];
    buf[..8].copy_from_slice(&42i64.to_be_bytes());
    assert_eq!(read_datagram(&buf), Datagram::Data(42));
}
