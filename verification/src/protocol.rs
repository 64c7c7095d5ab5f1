//! The transports, the four tests and the four-letter words that open them.
use vstd::prelude::*;
use crate::command::{
    all_ws_encodings, lemma_trim_end_run, lemma_trim_start_run, range_equals, trim_bounds, trim_end,
    trim_start, trimmed, ws_len_at_end, ws_len_at_start,
};

verus! {

/// The transport a speed test runs over.
#[derive(Debug, Clone, Copy, PartialEq, Eq, Structural)]
pub enum Protocol {
    UDP,
    TCP,
}

impl Protocol {
    /// The protocol's display name.
    pub open spec fn spec_name(self) -> Seq<char> {
        match self {
            Protocol::UDP => seq!['U', 'D', 'P'],
            Protocol::TCP => seq!['T', 'C', 'P'],
        }
    }

    /// The text shown for the protocol: `UDP` or `TCP`.
    pub fn name(&self) -> (s: String)
        ensures
            s@ == self.spec_name(),
    {
        match self {
            Protocol::UDP => {
                let s = String::from_str("UDP");
                proof {
                    reveal_strlit("UDP");
                }
                s
            },
            Protocol::TCP => {
                let s = String::from_str("TCP");
                proof {
                    reveal_strlit("TCP");
                }
                s
            },
        }
    }

    /// The protocol selected by the toggle: on means TCP, off means UDP.
    pub fn from_toggle(is_tcp: bool) -> (p: Protocol)
        ensures
            p == (if is_tcp { Protocol::TCP } else { Protocol::UDP }),
    {
        if is_tcp {
            Protocol::TCP
        } else {
            Protocol::UDP
        }
    }
}

/// One of the four measurements, named from the client's side.
#[derive(Debug, Clone, Copy, PartialEq, Eq, Structural)]
pub enum TestKind {
    TcpUpload,
    TcpDownload,
    UdpUpload,
    UdpDownload,
}

/// The bytes of a four-letter ASCII word.
pub open spec fn word(a: u8, b: u8, c: u8, d: u8) -> Seq<u8> {
    seq![a, b, c, d]
}

// ASCII codes of the letters the words are made of.
pub const LETTER_A: u8 = 0x41;
pub const LETTER_D: u8 = 0x44;
pub const LETTER_H: u8 = 0x48;
pub const LETTER_S: u8 = 0x53;
pub const LETTER_T: u8 = 0x54;
pub const LETTER_U: u8 = 0x55;

impl TestKind {
    /// The transport the test runs over.
    pub open spec fn spec_protocol(self) -> Protocol {
        match self {
            TestKind::TcpUpload | TestKind::TcpDownload => Protocol::TCP,
            _ => Protocol::UDP,
        }
    }

    /// The first letter of the test's words: `T` for TCP, `U` for UDP.
    pub open spec fn transport_letter(self) -> u8 {
        match self.spec_protocol() {
            Protocol::TCP => LETTER_T,
            Protocol::UDP => LETTER_U,
        }
    }

    /// The second letter of the test's words: `U` for upload, `D` for download.
    pub open spec fn direction_letter(self) -> u8 {
        match self {
            TestKind::TcpUpload | TestKind::UdpUpload => LETTER_U,
            _ => LETTER_D,
        }
    }

    /// The word the client sends to open the test: `TUST`, `TDST`, `UUST` or `UDST`.
    pub open spec fn spec_start_word(self) -> Seq<u8> {
        word(self.transport_letter(), self.direction_letter(), LETTER_S, LETTER_T)
    }

    /// The word the server answers with: `TUAH`, `TDAH`, `UUAH` or `UDAH`.
    pub open spec fn spec_ack_word(self) -> Seq<u8> {
        word(self.transport_letter(), self.direction_letter(), LETTER_A, LETTER_H)
    }

    /// The word with which a UDP client confirms the server's answer: `UUAA` or `UDAA`.
    pub open spec fn spec_confirm_word(self) -> Seq<u8> {
        word(self.transport_letter(), self.direction_letter(), LETTER_A, LETTER_A)
    }

    /// The transport the test runs over.
    pub fn protocol(&self) -> (p: Protocol)
        ensures
            p == self.spec_protocol(),
    {
        match self {
            TestKind::TcpUpload | TestKind::TcpDownload => Protocol::TCP,
            _ => Protocol::UDP,
        }
    }

    fn letters(&self) -> (r: (u8, u8))
        ensures
            r == (self.transport_letter(), self.direction_letter()),
    {
        match self {
            TestKind::TcpUpload => (LETTER_T, LETTER_U),
            TestKind::TcpDownload => (LETTER_T, LETTER_D),
            TestKind::UdpUpload => (LETTER_U, LETTER_U),
            TestKind::UdpDownload => (LETTER_U, LETTER_D),
        }
    }

    /// The word the client sends to open the test.
    pub fn start_word(&self) -> (w: Vec<u8>)
        ensures
            w@ == self.spec_start_word(),
    {
        let (t, d) = self.letters();
        let w = vec![t, d, LETTER_S, LETTER_T];
        assert(w@ =~= self.spec_start_word());
        w
    }

    /// The word the server answers the opening word with.
    pub fn ack_word(&self) -> (w: Vec<u8>)
        ensures
            w@ == self.spec_ack_word(),
    {
        let (t, d) = self.letters();
        let w = vec![t, d, LETTER_A, LETTER_H];
        assert(w@ =~= self.spec_ack_word());
        w
    }

    /// The word a UDP client sends once it has the server's answer.
    pub fn confirm_word(&self) -> (w: Vec<u8>)
        ensures
            w@ == self.spec_confirm_word(),
    {
        let (t, d) = self.letters();
        let w = vec![t, d, LETTER_A, LETTER_A];
        assert(w@ =~= self.spec_confirm_word());
        w
    }
}

/// The test a server on `transport` runs for the command `received`: the
/// received bytes, trimmed of white space, must be the opening word of one of
/// the transport's two tests.
pub open spec fn spec_parse_command(received: Seq<u8>, transport: Protocol) -> Option<TestKind> {
    let t = trimmed(received);
    match transport {
        Protocol::TCP => if t == TestKind::TcpDownload.spec_start_word() {
            Some(TestKind::TcpDownload)
        } else if t == TestKind::TcpUpload.spec_start_word() {
            Some(TestKind::TcpUpload)
        } else {
            None
        },
        Protocol::UDP => if t == TestKind::UdpUpload.spec_start_word() {
            Some(TestKind::UdpUpload)
        } else if t == TestKind::UdpDownload.spec_start_word() {
            Some(TestKind::UdpDownload)
        } else {
            None
        },
    }
}

/// A server recognises each test's opening word whatever white space
/// surrounds it: `before` and `after` are runs of encoded white-space
/// characters.
pub proof fn lemma_padded_command_recognised(
    before: Seq<Seq<u8>>,
    kind: TestKind,
    after: Seq<Seq<u8>>,
)
    requires
        all_ws_encodings(before),
        all_ws_encodings(after),
    ensures
        spec_parse_command(before.flatten() + kind.spec_start_word() + after.flatten(), kind.spec_protocol())
            == Some(kind),
{
    let w = kind.spec_start_word();
    let tail = w + after.flatten();
    assert(before.flatten() + w + after.flatten() =~= before.flatten() + tail);
    lemma_trim_start_run(before, tail);
    assert(ws_len_at_start(tail) == 0);
    assert(trim_start(tail) == tail);
    lemma_trim_end_run(w, after);
    assert(ws_len_at_end(w) == 0);
    assert(trim_end(w) == w);
    assert(trimmed(before.flatten() + w + after.flatten()) == w);
}

/// The ASCII bytes of a test's words: `TUST`/`TUAH`, `TDST`/`TDAH`,
/// `UUST`/`UUAH`/`UUAA` and `UDST`/`UDAH`/`UDAA`.
pub open spec fn literal_words(kind: TestKind) -> (Seq<u8>, Seq<u8>, Seq<u8>) {
    match kind {
        TestKind::TcpUpload => (
            seq![0x54u8, 0x55u8, 0x53u8, 0x54u8],
            seq![0x54u8, 0x55u8, 0x41u8, 0x48u8],
            seq![0x54u8, 0x55u8, 0x41u8, 0x41u8],
        ),
        TestKind::TcpDownload => (
            seq![0x54u8, 0x44u8, 0x53u8, 0x54u8],
            seq![0x54u8, 0x44u8, 0x41u8, 0x48u8],
            seq![0x54u8, 0x44u8, 0x41u8, 0x41u8],
        ),
        TestKind::UdpUpload => (
            seq![0x55u8, 0x55u8, 0x53u8, 0x54u8],
            seq![0x55u8, 0x55u8, 0x41u8, 0x48u8],
            seq![0x55u8, 0x55u8, 0x41u8, 0x41u8],
        ),
        TestKind::UdpDownload => (
            seq![0x55u8, 0x44u8, 0x53u8, 0x54u8],
            seq![0x55u8, 0x44u8, 0x41u8, 0x48u8],
            seq![0x55u8, 0x44u8, 0x41u8, 0x41u8],
        ),
    }
}

/// Each test's words are its four ASCII letters, and each test runs over
/// the transport its first letter names.
pub proof fn lemma_word_bytes(kind: TestKind)
    ensures
        kind.spec_start_word() == literal_words(kind).0,
        kind.spec_ack_word() == literal_words(kind).1,
        kind.spec_confirm_word() == literal_words(kind).2,
        kind.spec_protocol() == (if literal_words(kind).0[0] == 0x54u8 {
            Protocol::TCP
        } else {
            Protocol::UDP
        }),
{
    assert(kind.spec_start_word() =~= literal_words(kind).0);
    assert(kind.spec_ack_word() =~= literal_words(kind).1);
    assert(kind.spec_confirm_word() =~= literal_words(kind).2);
}

/// A server reads each test's four ASCII letters, and only those, as that
/// test's command on the test's own transport.
pub proof fn lemma_literal_commands(kind: TestKind, transport: Protocol)
    ensures
        spec_parse_command(literal_words(kind).0, transport) == (if transport == kind.spec_protocol() {
            Some(kind)
        } else {
            None
        }),
{
    lemma_word_bytes(kind);
    lemma_words_distinct(kind, kind, transport);
}

/// The words of different tests differ, an answer is never an opening word,
/// and an opening word opens its test on its own transport only.
pub proof fn lemma_words_distinct(k1: TestKind, k2: TestKind, transport: Protocol)
    ensures
        k1 != k2 ==> k1.spec_start_word() != k2.spec_start_word(),
        k1 != k2 ==> k1.spec_ack_word() != k2.spec_ack_word(),
        k1 != k2 ==> k1.spec_confirm_word() != k2.spec_confirm_word(),
        k1.spec_start_word() != k2.spec_ack_word(),
        k1.spec_ack_word() != k2.spec_confirm_word(),
        spec_parse_command(k1.spec_start_word(), transport) == (if transport == k1.spec_protocol() {
            Some(k1)
        } else {
            None
        }),
{
    let w1 = k1.spec_start_word();
    let w2 = k2.spec_start_word();
    if k1 != k2 {
        assert(w1[0] != w2[0] || w1[1] != w2[1]);
        assert(k1.spec_ack_word()[0] != k2.spec_ack_word()[0] || k1.spec_ack_word()[1]
            != k2.spec_ack_word()[1]);
        assert(k1.spec_confirm_word()[0] != k2.spec_confirm_word()[0]
            || k1.spec_confirm_word()[1] != k2.spec_confirm_word()[1]);
    }
    assert(w1[2] != k2.spec_ack_word()[2]);
    assert(k1.spec_ack_word()[3] != k2.spec_confirm_word()[3]);
    let empty: Seq<Seq<u8>> = Seq::empty();
    assert(empty.flatten() =~= Seq::<u8>::empty());
    assert(empty.flatten() + w1 + empty.flatten() =~= w1);
    lemma_padded_command_recognised(empty, k1, empty);
    assert(trimmed(w1) == w1);
    assert forall|k: TestKind| k != k1 implies #[trigger] k.spec_start_word() != w1 by {
        assert(k.spec_start_word()[0] != w1[0] || k.spec_start_word()[1] != w1[1]);
    }
}

/// Reads the command that opens a test on a server for `transport`; `None`
/// for an unknown command.
pub fn parse_command(received: &[u8], transport: Protocol) -> (r: Option<TestKind>)
    ensures
        r == spec_parse_command(received@, transport),
{
    let (lo, hi) = trim_bounds(received);
    let (first, second) = match transport {
        Protocol::TCP => (TestKind::TcpDownload, TestKind::TcpUpload),
        Protocol::UDP => (TestKind::UdpUpload, TestKind::UdpDownload),
    };
    if range_equals(received, lo, hi, first.start_word().as_slice()) {
        Some(first)
    } else if range_equals(received, lo, hi, second.start_word().as_slice()) {
        Some(second)
    } else {
        None
    }
}

/// Whether `received` is exactly the server's answer to the opening of `kind`.
pub fn is_ack(received: &[u8], kind: TestKind) -> (r: bool)
    ensures
        r == (received@ == kind.spec_ack_word()),
{
    assert(received@.subrange(0, received@.len() as int) =~= received@);
    range_equals(received, 0, received.len(), kind.ack_word().as_slice())
}

/// Whether `received` is exactly the client's confirmation for `kind`.
pub fn is_confirmation(received: &[u8], kind: TestKind) -> (r: bool)
    ensures
        r == (received@ == kind.spec_confirm_word()),
{
    assert(received@.subrange(0, received@.len() as int) =~= received@);
    range_equals(received, 0, received.len(), kind.confirm_word().as_slice())
}

} // verus!
