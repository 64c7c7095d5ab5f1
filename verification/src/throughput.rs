//! Byte counting for the TCP tests and pacing of the UDP senders.
use vstd::prelude::*;

verus! {

/// How often a receiver reports the bytes of the last window, in nanoseconds.
pub const REPORT_INTERVAL_NANOS: u128 = 500_000_000;

/// The size of the blocks a TCP test writes and reads.
pub const CHUNK_LEN: usize = 8192;

/// Whether a report is due `elapsed_nanos` after the last one.
pub fn report_due(elapsed_nanos: u128) -> (b: bool)
    ensures
        b == (elapsed_nanos >= REPORT_INTERVAL_NANOS),
{
    elapsed_nanos >= REPORT_INTERVAL_NANOS
}

/// Counts the bytes of a transfer: all of them, and those of the current
/// reporting window.
pub struct ByteCounter {
    total: u64,
    window: u64,
}

impl ByteCounter {
    /// All bytes counted so far.
    pub closed spec fn spec_total(&self) -> nat {
        self.total as nat
    }

    /// The bytes counted since the window was last taken.
    pub closed spec fn spec_window(&self) -> nat {
        self.window as nat
    }

    /// The window never holds more than the total.
    pub closed spec fn wf(&self) -> bool {
        self.window <= self.total
    }

    /// A counter at zero.
    pub fn new() -> (c: ByteCounter)
        ensures
            c.wf(),
            c.spec_total() == 0,
            c.spec_window() == 0,
    {
        ByteCounter { total: 0, window: 0 }
    }

    /// Counts `n` more bytes, in the total and in the window.
    pub fn record(&mut self, n: u64)
        requires
            old(self).wf(),
            old(self).spec_total() + n <= u64::MAX,
        ensures
            final(self).wf(),
            final(self).spec_total() == old(self).spec_total() + n,
            final(self).spec_window() == old(self).spec_window() + n,
    {
        self.total = self.total + n;
        self.window = self.window + n;
    }

    /// Returns the bytes of the window and starts a new one.
    pub fn take_window(&mut self) -> (w: u64)
        requires
            old(self).wf(),
        ensures
            final(self).wf(),
            w == old(self).spec_window(),
            final(self).spec_window() == 0,
            final(self).spec_total() == old(self).spec_total(),
    {
        let w = self.window;
        self.window = 0;
        w
    }

    /// Once a reporting interval has passed since the last report
    /// (`elapsed_nanos` at least half a second), returns the bytes of the
    /// window and starts a new one; otherwise changes nothing.
    pub fn take_window_if_due(&mut self, elapsed_nanos: u128) -> (w: Option<u64>)
        requires
            old(self).wf(),
        ensures
            final(self).wf(),
            final(self).spec_total() == old(self).spec_total(),
            elapsed_nanos >= REPORT_INTERVAL_NANOS ==> w == Some(old(self).spec_window() as u64)
                && final(self).spec_window() == 0,
            elapsed_nanos < REPORT_INTERVAL_NANOS ==> w is None && final(self).spec_window()
                == old(self).spec_window(),
    {
        if elapsed_nanos >= REPORT_INTERVAL_NANOS {
            Some(self.take_window())
        } else {
            None
        }
    }

    /// All bytes counted so far.
    pub fn total(&self) -> (t: u64)
        ensures
            t == self.spec_total(),
    {
        self.total
    }
}

/// The number of datagrams per second a UDP sender starts an upload at.
pub const INITIAL_UPLOAD_RATE: u64 = 1000;

/// The drop ratio, in hundredths of a percent, a UDP download starts from:
/// everything lost.
pub const INITIAL_DROP_RATIO: u64 = 10_000;

/// The pause between datagrams, in microseconds, for a sender at `rate`
/// datagrams per second; one second when the rate is zero.
pub open spec fn spec_send_interval_micros(rate: u64) -> u64 {
    if rate > 0 {
        1_000_000u64 / rate
    } else {
        1_000_000
    }
}

/// The pause is the whole number of microseconds that `rate` datagrams fit
/// into a second, rounded down; a sender at rate zero pauses a second.
pub proof fn lemma_interval_fills_a_second(rate: u64)
    ensures
        rate == 0 ==> spec_send_interval_micros(rate) == 1_000_000,
        rate >= 1 ==> spec_send_interval_micros(rate) * rate <= 1_000_000 < (
        spec_send_interval_micros(rate) + 1) * rate,
{
    if rate >= 1 {
        let us = spec_send_interval_micros(rate);
        assert(us * rate <= 1_000_000 < (us + 1) * rate) by (nonlinear_arith)
            requires
                us == 1_000_000u64 / rate,
                rate >= 1,
        ;
    }
}

/// A faster sender never pauses longer between datagrams.
pub proof fn lemma_faster_rate_shorter_interval(slow: u64, fast: u64)
    requires
        1 <= slow <= fast,
    ensures
        spec_send_interval_micros(fast) <= spec_send_interval_micros(slow),
{
    vstd::arithmetic::div_mod::lemma_div_is_ordered_by_denominator(1_000_000, slow as int, fast as int);
}

/// The pause between datagrams, in microseconds, for a sender at `rate`
/// datagrams per second.
pub fn send_interval_micros(rate: u64) -> (us: u64)
    ensures
        us == spec_send_interval_micros(rate),
        1 <= rate <= 1_000_000 ==> us * rate <= 1_000_000 < (us + 1) * rate,
{
    if rate > 0 {
        let us = 1_000_000 / rate;
        proof {
            if rate <= 1_000_000 {
                assert(us * rate <= 1_000_000 < (us + 1) * rate) by (nonlinear_arith)
                    requires
                        us == 1_000_000u64 / rate,
                        rate >= 1,
                ;
            }
        }
        us
    } else {
        1_000_000
    }
}

} // verus!
