//! The client's side of a UDP test's opening exchange: send the opening
//! word, wait for the server's answer, confirm it; resend on silence, and
//! stop resending after a fixed number of timeouts.
use vstd::prelude::*;
use crate::protocol::{is_ack, lemma_word_bytes, literal_words, TestKind};

verus! {

/// How many timeouts the client waits through before it stops resending.
pub const MAX_HANDSHAKE_RETRIES: u32 = 10;

/// What the client saw after sending the opening word.
#[derive(Debug, Clone, Copy, PartialEq, Eq, Structural)]
pub enum HandshakeEvent {
    /// The server's answer to this test, from the server's address.
    Acknowledged,
    /// Some other datagram.
    OtherDatagram,
    /// Nothing within the read timeout.
    TimedOut,
}

/// What the client does next.
#[derive(Debug, Clone, Copy, PartialEq, Eq, Structural)]
pub enum HandshakeAction {
    /// Send the confirmation word; the opening is complete.
    Confirm,
    /// Send the opening word again and wait.
    SendAgain,
    /// Stop resending and go on with the test unconfirmed.
    GiveUp,
}

/// The event for a datagram received while waiting: an answer only when it
/// came from the server and holds exactly the answer word of `kind`.
pub open spec fn spec_classify_reply(from_server: bool, received: Seq<u8>, kind: TestKind) -> HandshakeEvent {
    if from_server && received == kind.spec_ack_word() {
        HandshakeEvent::Acknowledged
    } else {
        HandshakeEvent::OtherDatagram
    }
}

/// A datagram is the server's answer exactly when it comes from the server
/// and holds the four letters of the answer to this very test (`TUAH`,
/// `TDAH`, `UUAH` or `UDAH`); a received datagram is never a timeout.
pub proof fn lemma_reply_recognised(from_server: bool, received: Seq<u8>, kind: TestKind)
    ensures
        (spec_classify_reply(from_server, received, kind) == HandshakeEvent::Acknowledged) <==> (
        from_server && received == literal_words(kind).1),
        spec_classify_reply(from_server, received, kind) != HandshakeEvent::TimedOut,
        spec_classify_reply(true, kind.spec_ack_word(), kind) == HandshakeEvent::Acknowledged,
{
    lemma_word_bytes(kind);
}

/// Classifies a datagram received while waiting for the server's answer.
pub fn classify_reply(from_server: bool, received: &[u8], kind: TestKind) -> (e: HandshakeEvent)
    ensures
        e == spec_classify_reply(from_server, received@, kind),
{
    if from_server && is_ack(received, kind) {
        HandshakeEvent::Acknowledged
    } else {
        HandshakeEvent::OtherDatagram
    }
}

/// The timeouts counted after `event`, and what to do next, from `retries`
/// timeouts counted before.
pub open spec fn spec_step(retries: u32, event: HandshakeEvent) -> (u32, HandshakeAction) {
    match event {
        HandshakeEvent::Acknowledged => (retries, HandshakeAction::Confirm),
        HandshakeEvent::OtherDatagram => (retries, HandshakeAction::SendAgain),
        HandshakeEvent::TimedOut => if retries + 1 < MAX_HANDSHAKE_RETRIES {
            ((retries + 1) as u32, HandshakeAction::SendAgain)
        } else {
            ((retries + 1) as u32, HandshakeAction::GiveUp)
        },
    }
}

/// The client's progress through the opening exchange.
pub struct UdpHandshake {
    retries: u32,
}

impl UdpHandshake {
    /// The timeouts counted so far.
    pub closed spec fn spec_retries(&self) -> u32 {
        self.retries
    }

    /// The exchange is still under way: fewer timeouts than the limit.
    pub open spec fn live(&self) -> bool {
        self.spec_retries() < MAX_HANDSHAKE_RETRIES
    }

    /// An exchange that has not yet timed out.
    pub fn new() -> (h: UdpHandshake)
        ensures
            h.live(),
            h.spec_retries() == 0,
    {
        UdpHandshake { retries: 0 }
    }

    /// Takes in what was seen after the last send and says what to do.
    pub fn step(&mut self, event: HandshakeEvent) -> (a: HandshakeAction)
        requires
            old(self).live(),
        ensures
            (final(self).spec_retries(), a) == spec_step(old(self).spec_retries(), event),
            a == HandshakeAction::SendAgain ==> final(self).live(),
    {
        match event {
            HandshakeEvent::Acknowledged => HandshakeAction::Confirm,
            HandshakeEvent::OtherDatagram => HandshakeAction::SendAgain,
            HandshakeEvent::TimedOut => {
                self.retries = self.retries + 1;
                if self.retries < MAX_HANDSHAKE_RETRIES {
                    HandshakeAction::SendAgain
                } else {
                    HandshakeAction::GiveUp
                }
            },
        }
    }
}

/// Each step counts a timeout, and only a timeout, as one more retry; an
/// answer is always confirmed, another datagram always resent; and the
/// exchange gives up exactly at the tenth timeout.
pub proof fn lemma_step_counts_timeouts(retries: u32, event: HandshakeEvent)
    requires
        retries < 10,
    ensures
        spec_step(retries, event).0 == retries + (if event == HandshakeEvent::TimedOut {
            1int
        } else {
            0int
        }),
        (spec_step(retries, event).1 == HandshakeAction::Confirm) <==> (event
            == HandshakeEvent::Acknowledged),
        (spec_step(retries, event).1 == HandshakeAction::GiveUp) <==> (event
            == HandshakeEvent::TimedOut && retries == 9),
        MAX_HANDSHAKE_RETRIES == 10,
{
}

/// The timeouts among `events`.
pub open spec fn count_timeouts(events: Seq<HandshakeEvent>) -> nat
    decreases events.len(),
{
    if events.len() == 0 {
        0
    } else {
        count_timeouts(events.drop_last()) + if events.last() == HandshakeEvent::TimedOut {
            1nat
        } else {
            0nat
        }
    }
}

/// The timeouts counted, and the last action, after feeding `events` one by
/// one to a new exchange.
pub open spec fn spec_run(events: Seq<HandshakeEvent>) -> (u32, HandshakeAction)
    decreases events.len(),
{
    if events.len() == 0 {
        (0, HandshakeAction::SendAgain)
    } else {
        spec_step(spec_run(events.drop_last()).0, events.last())
    }
}

/// Without an answer from the server, the client keeps resending until the
/// limit's worth of timeouts, and gives up at exactly that timeout.
pub proof fn lemma_gives_up_at_retry_limit(events: Seq<HandshakeEvent>)
    requires
        events.len() > 0,
        forall|i: int| 0 <= i < events.len() ==> events[i] != HandshakeEvent::Acknowledged,
        count_timeouts(events.drop_last()) < MAX_HANDSHAKE_RETRIES,
    ensures
        spec_run(events).0 == count_timeouts(events),
        spec_run(events).1 == (if count_timeouts(events) == MAX_HANDSHAKE_RETRIES {
            HandshakeAction::GiveUp
        } else {
            HandshakeAction::SendAgain
        }),
    decreases events.len(),
{
    let prefix = events.drop_last();
    if prefix.len() > 0 {
        assert(prefix.drop_last() =~= events.drop_last().drop_last());
        assert forall|i: int| 0 <= i < prefix.len() implies prefix[i]
            != HandshakeEvent::Acknowledged by {
            assert(prefix[i] == events[i]);
        }
        lemma_gives_up_at_retry_limit(prefix);
    }
    assert(events.last() == events[events.len() - 1]);
    assert(spec_run(prefix).0 == count_timeouts(prefix));
    assert(spec_run(events) == spec_step(spec_run(prefix).0, events.last()));
    assert(count_timeouts(events) == count_timeouts(prefix) + if events.last()
        == HandshakeEvent::TimedOut {
        1nat
    } else {
        0nat
    });
}

} // verus!
