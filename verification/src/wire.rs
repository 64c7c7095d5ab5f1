//! Big-endian integers and the fixed-size datagrams of the UDP tests.
use vstd::prelude::*;

verus! {

/// The eight bytes of `x`, most significant first.
pub open spec fn be_bytes_u64(x: u64) -> Seq<u8> {
    seq![
        (x >> 56u64) as u8,
        (x >> 48u64) as u8,
        (x >> 40u64) as u8,
        (x >> 32u64) as u8,
        (x >> 24u64) as u8,
        (x >> 16u64) as u8,
        (x >> 8u64) as u8,
        x as u8,
    ]
}

/// The number whose eight bytes, most significant first, start `b`.
pub open spec fn u64_from_be(b: Seq<u8>) -> u64
    recommends
        b.len() >= 8,
{
    ((b[0] as u64) << 56u64) | ((b[1] as u64) << 48u64) | ((b[2] as u64) << 40u64) | ((
    b[3] as u64) << 32u64) | ((b[4] as u64) << 24u64) | ((b[5] as u64) << 16u64) | ((
    b[6] as u64) << 8u64) | (b[7] as u64)
}

/// The eight bytes of `x` in two's complement, most significant first.
pub open spec fn be_bytes_i64(x: i64) -> Seq<u8> {
    be_bytes_u64(x as u64)
}

/// The signed number whose eight bytes start `b`.
pub open spec fn i64_from_be(b: Seq<u8>) -> i64
    recommends
        b.len() >= 8,
{
    u64_from_be(b) as i64
}

/// The encoding is base-256 positional notation, most significant digit
/// first: byte `i` is digit `7 - i` of `x`.
pub proof fn lemma_be_bytes_are_digits(x: u64)
    ensures
        be_bytes_u64(x).len() == 8,
        be_bytes_u64(x)[7] as int == x as int % 256,
        be_bytes_u64(x)[6] as int == (x as int / 0x100) % 256,
        be_bytes_u64(x)[5] as int == (x as int / 0x1_0000) % 256,
        be_bytes_u64(x)[4] as int == (x as int / 0x100_0000) % 256,
        be_bytes_u64(x)[3] as int == (x as int / 0x1_0000_0000) % 256,
        be_bytes_u64(x)[2] as int == (x as int / 0x100_0000_0000) % 256,
        be_bytes_u64(x)[1] as int == (x as int / 0x1_0000_0000_0000) % 256,
        be_bytes_u64(x)[0] as int == x as int / 0x100_0000_0000_0000,
{
    assert(((x as u8) as u64) == x % 0x100u64) by (bit_vector);
    assert((((x >> 8u64) as u8) as u64) == (x / 0x100u64) % 0x100u64) by (bit_vector);
    assert((((x >> 16u64) as u8) as u64) == (x / 0x1_0000u64) % 0x100u64) by (bit_vector);
    assert((((x >> 24u64) as u8) as u64) == (x / 0x100_0000u64) % 0x100u64) by (bit_vector);
    assert((((x >> 32u64) as u8) as u64) == (x / 0x1_0000_0000u64) % 0x100u64) by (bit_vector);
    assert((((x >> 40u64) as u8) as u64) == (x / 0x100_0000_0000u64) % 0x100u64) by (bit_vector);
    assert((((x >> 48u64) as u8) as u64) == (x / 0x1_0000_0000_0000u64) % 0x100u64)
        by (bit_vector);
    assert((((x >> 56u64) as u8) as u64) == x / 0x100_0000_0000_0000u64) by (bit_vector);
}

/// Decoding reads the first eight bytes as base-256 digits, most
/// significant first.
pub proof fn lemma_from_be_is_positional(b: Seq<u8>)
    requires
        b.len() >= 8,
    ensures
        u64_from_be(b) as int == b[0] as int * 0x100_0000_0000_0000 + b[1] as int
            * 0x1_0000_0000_0000 + b[2] as int * 0x100_0000_0000 + b[3] as int * 0x1_0000_0000
            + b[4] as int * 0x100_0000 + b[5] as int * 0x1_0000 + b[6] as int * 0x100
            + b[7] as int,
{
    let (b0, b1, b2, b3, b4, b5, b6, b7) = (b[0], b[1], b[2], b[3], b[4], b[5], b[6], b[7]);
    assert(((b0 as u64) << 56u64) | ((b1 as u64) << 48u64) | ((b2 as u64) << 40u64) | ((
    b3 as u64) << 32u64) | ((b4 as u64) << 24u64) | ((b5 as u64) << 16u64) | ((b6 as u64)
        << 8u64) | (b7 as u64) == (b0 as u64) * 0x100_0000_0000_0000u64 + (b1 as u64)
        * 0x1_0000_0000_0000u64 + (b2 as u64) * 0x100_0000_0000u64 + (b3 as u64)
        * 0x1_0000_0000u64 + (b4 as u64) * 0x100_0000u64 + (b5 as u64) * 0x1_0000u64 + (
    b6 as u64) * 0x100u64 + (b7 as u64)) by (bit_vector);
}

/// A signed number is encoded as its two's complement: the number itself
/// when it is not negative, the number plus 2^64 when it is; and decoding
/// reads eight bytes whose value is 2^63 or more as that value less 2^64.
pub proof fn lemma_twos_complement(x: i64, b: Seq<u8>)
    requires
        b.len() >= 8,
    ensures
        x >= 0 ==> be_bytes_i64(x) == be_bytes_u64(x as u64),
        x < 0 ==> be_bytes_i64(x) == be_bytes_u64((x + 0x1_0000_0000_0000_0000) as u64),
        i64_from_be(b) as int == (if u64_from_be(b) < 0x8000_0000_0000_0000u64 {
            u64_from_be(b) as int
        } else {
            u64_from_be(b) - 0x1_0000_0000_0000_0000
        }),
{
    let v = u64_from_be(b);
    assert(v < 0x8000_0000_0000_0000u64 ==> (v as i64) as int == v as int) by (bit_vector);
    assert(v >= 0x8000_0000_0000_0000u64 ==> (v as i64) as int == v as int - 0x1_0000_0000_0000_0000)
        by (bit_vector);
    assert(x >= 0 ==> (x as u64) as int == x as int) by (bit_vector);
    assert(x < 0 ==> (x as u64) as int == x as int + 0x1_0000_0000_0000_0000) by (bit_vector);
}

/// Decoding what was encoded gives the number back.
pub proof fn lemma_u64_round_trip(x: u64)
    ensures
        u64_from_be(be_bytes_u64(x)) == x,
{
    let b = be_bytes_u64(x);
    let (b0, b1, b2, b3, b4, b5, b6, b7) = (b[0], b[1], b[2], b[3], b[4], b[5], b[6], b[7]);
    assert(b0 == (x >> 56u64) as u8 && b1 == (x >> 48u64) as u8 && b2 == (x >> 40u64) as u8
        && b3 == (x >> 32u64) as u8 && b4 == (x >> 24u64) as u8 && b5 == (x >> 16u64) as u8
        && b6 == (x >> 8u64) as u8 && b7 == x as u8);
    assert(((b0 as u64) << 56u64) | ((b1 as u64) << 48u64) | ((b2 as u64) << 40u64) | ((
    b3 as u64) << 32u64) | ((b4 as u64) << 24u64) | ((b5 as u64) << 16u64) | ((b6 as u64)
        << 8u64) | (b7 as u64) == x) by (bit_vector)
        requires
            b0 == (x >> 56u64) as u8,
            b1 == (x >> 48u64) as u8,
            b2 == (x >> 40u64) as u8,
            b3 == (x >> 32u64) as u8,
            b4 == (x >> 24u64) as u8,
            b5 == (x >> 16u64) as u8,
            b6 == (x >> 8u64) as u8,
            b7 == x as u8,
    ;
}

/// Encoding what was decoded gives the same eight bytes back.
pub proof fn lemma_u64_bytes_round_trip(b: Seq<u8>)
    requires
        b.len() == 8,
    ensures
        be_bytes_u64(u64_from_be(b)) == b,
{
    let (b0, b1, b2, b3, b4, b5, b6, b7) = (b[0], b[1], b[2], b[3], b[4], b[5], b[6], b[7]);
    let x = u64_from_be(b);
    assert(x == ((b0 as u64) << 56u64) | ((b1 as u64) << 48u64) | ((b2 as u64) << 40u64) | ((
    b3 as u64) << 32u64) | ((b4 as u64) << 24u64) | ((b5 as u64) << 16u64) | ((b6 as u64)
        << 8u64) | (b7 as u64));
    assert(b0 == (x >> 56u64) as u8 && b1 == (x >> 48u64) as u8 && b2 == (x >> 40u64) as u8
        && b3 == (x >> 32u64) as u8 && b4 == (x >> 24u64) as u8 && b5 == (x >> 16u64) as u8
        && b6 == (x >> 8u64) as u8 && b7 == x as u8) by (bit_vector)
        requires
            x == ((b0 as u64) << 56u64) | ((b1 as u64) << 48u64) | ((b2 as u64) << 40u64) | ((
            b3 as u64) << 32u64) | ((b4 as u64) << 24u64) | ((b5 as u64) << 16u64) | ((
            b6 as u64) << 8u64) | (b7 as u64),
    ;
    assert(be_bytes_u64(x) =~= b);
}

/// Decoding an encoded signed number gives it back.
pub proof fn lemma_i64_round_trip(x: i64)
    ensures
        i64_from_be(be_bytes_i64(x)) == x,
{
    lemma_u64_round_trip(x as u64);
    assert((x as u64) as i64 == x) by (bit_vector);
}

/// The eight bytes of `x`, most significant first.
pub fn encode_u64(x: u64) -> (b: Vec<u8>)
    ensures
        b@ == be_bytes_u64(x),
{
    let b = vec![
        (x >> 56u64) as u8,
        (x >> 48u64) as u8,
        (x >> 40u64) as u8,
        (x >> 32u64) as u8,
        (x >> 24u64) as u8,
        (x >> 16u64) as u8,
        (x >> 8u64) as u8,
        x as u8,
    ];
    assert(b@ =~= be_bytes_u64(x));
    b
}

/// The number in the first eight bytes of `b`, most significant first.
pub fn decode_u64(b: &[u8]) -> (x: u64)
    requires
        b@.len() >= 8,
    ensures
        x == u64_from_be(b@),
{
    ((b[0] as u64) << 56u64) | ((b[1] as u64) << 48u64) | ((b[2] as u64) << 40u64) | ((
    b[3] as u64) << 32u64) | ((b[4] as u64) << 24u64) | ((b[5] as u64) << 16u64) | ((
    b[6] as u64) << 8u64) | (b[7] as u64)
}

/// The eight bytes of `x` in two's complement, most significant first.
pub fn encode_i64(x: i64) -> (b: Vec<u8>)
    ensures
        b@ == be_bytes_i64(x),
{
    encode_u64(x as u64)
}

/// The signed number in the first eight bytes of `b`.
pub fn decode_i64(b: &[u8]) -> (x: i64)
    requires
        b@.len() >= 8,
    ensures
        x == i64_from_be(b@),
{
    decode_u64(b) as i64
}

/// The size of every datagram of a UDP test's data stream.
pub const DATAGRAM_LEN: usize = 1024;

/// The sequence number that marks the end of a UDP test's data stream.
pub const END_OF_STREAM: i64 = -1;

/// A data datagram: `seq` in its first eight bytes, zeros after.
pub open spec fn spec_datagram(seq: i64) -> Seq<u8> {
    be_bytes_i64(seq) + Seq::new((DATAGRAM_LEN - 8) as nat, |i: int| 0u8)
}

/// Builds the datagram that carries sequence number `seq`.
pub fn datagram(seq: i64) -> (d: Vec<u8>)
    ensures
        d@ == spec_datagram(seq),
{
    let mut d = encode_i64(seq);
    let mut k: usize = 8;
    while k < DATAGRAM_LEN
        invariant
            8 <= k <= DATAGRAM_LEN,
            d@ == be_bytes_i64(seq) + Seq::new((k - 8) as nat, |i: int| 0u8),
        decreases DATAGRAM_LEN - k,
    {
        d.push(0u8);
        k = k + 1;
        assert(d@ =~= be_bytes_i64(seq) + Seq::new((k - 8) as nat, |i: int| 0u8));
    }
    d
}

/// What a received datagram says: the stream has ended, or this is the
/// datagram with the given sequence number.
#[derive(Debug, Clone, Copy, PartialEq, Eq, Structural)]
pub enum Datagram {
    End,
    Data(i64),
}

/// The meaning of the sequence number `seq`.
pub open spec fn spec_classify_seq(seq: i64) -> Datagram {
    if seq == END_OF_STREAM {
        Datagram::End
    } else {
        Datagram::Data(seq)
    }
}

/// Reads the sequence number in the first eight bytes of a receive buffer.
pub fn read_datagram(buf: &[u8]) -> (d: Datagram)
    requires
        buf@.len() >= 8,
    ensures
        d == spec_classify_seq(i64_from_be(buf@)),
{
    let seq = decode_i64(buf);
    if seq == END_OF_STREAM {
        Datagram::End
    } else {
        Datagram::Data(seq)
    }
}

/// Only the number -1 ends a stream; every other number is data carrying
/// that very number.
pub proof fn lemma_only_minus_one_ends(seq: i64)
    ensures
        seq != -1 ==> spec_classify_seq(seq) == Datagram::Data(seq),
        seq == -1 ==> spec_classify_seq(seq) == Datagram::End,
        END_OF_STREAM == -1,
{
}

/// A datagram built for `seq` reads back as `seq`.
pub proof fn lemma_datagram_round_trip(seq: i64)
    ensures
        spec_datagram(seq).len() == 1024,
        spec_datagram(seq).subrange(0, 8) == be_bytes_i64(seq),
        forall|i: int| 8 <= i < 1024 ==> spec_datagram(seq)[i] == 0u8,
        spec_classify_seq(i64_from_be(spec_datagram(seq))) == spec_classify_seq(seq),
{
    lemma_i64_round_trip(seq);
    let d = spec_datagram(seq);
    assert(d.subrange(0, 8) =~= be_bytes_i64(seq));
    assert(i64_from_be(d) == i64_from_be(be_bytes_i64(seq)));
}

} // verus!
