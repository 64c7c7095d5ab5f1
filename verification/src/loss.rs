//! Bookkeeping of the sequence numbers that arrive during a UDP test, from
//! which the receiver works out how many datagrams were lost.
use std::collections::HashSet;
use vstd::prelude::*;

verus! {

broadcast use vstd::std_specs::hash::group_hash_axioms;

/// The largest number of `h`, or 0 for an empty history.
pub open spec fn spec_max_seq(h: Seq<i64>) -> i64
    decreases h.len(),
{
    if h.len() == 0 {
        0
    } else if h.len() == 1 {
        h[0]
    } else {
        let m = spec_max_seq(h.drop_last());
        if h.last() > m {
            h.last()
        } else {
            m
        }
    }
}

/// The distinct sequence numbers of `h`.
pub open spec fn spec_distinct(h: Seq<i64>) -> Set<i64> {
    h.to_set()
}

/// How many datagrams the sender must have sent, from the first number
/// received to the largest: `max - first + 1`, or `None` before any arrived.
pub open spec fn spec_expected(h: Seq<i64>) -> Option<int> {
    if h.len() == 0 {
        None
    } else {
        Some(spec_max_seq(h) - h[0] + 1)
    }
}

/// The expected count less the distinct numbers received, or `None` before
/// any arrived.
pub open spec fn spec_lost(h: Seq<i64>) -> Option<int> {
    if h.len() == 0 {
        None
    } else {
        Some(spec_max_seq(h) - h[0] + 1 - spec_distinct(h).len())
    }
}

/// Every number of `h` is at most `spec_max_seq(h)`, and that maximum is one of them.
pub proof fn lemma_max_seq_bounds(h: Seq<i64>)
    ensures
        forall|i: int| 0 <= i < h.len() ==> h[i] <= spec_max_seq(h),
        h.len() > 0 ==> h.contains(spec_max_seq(h)),
    decreases h.len(),
{
    if h.len() > 1 {
        lemma_max_seq_bounds(h.drop_last());
        assert forall|i: int| 0 <= i < h.len() implies h[i] <= spec_max_seq(h) by {
            if i < h.len() - 1 {
                assert(h[i] == h.drop_last()[i]);
            }
        }
        if h.last() <= spec_max_seq(h.drop_last()) {
            let j = choose|j: int|
                0 <= j < h.drop_last().len() && h.drop_last()[j] == spec_max_seq(h.drop_last());
            assert(h[j] == spec_max_seq(h));
        } else {
            assert(h[h.len() - 1] == spec_max_seq(h));
        }
    } else if h.len() == 1 {
        assert(h[0] == spec_max_seq(h));
    }
}

/// The expected count runs from the first number received to the largest one
/// (`m`, any number that was received and is at least every received number),
/// both included, whatever the number of arrivals; the loss count is that
/// less the number of distinct numbers received; and the distinct numbers are
/// exactly those that arrived.
pub proof fn lemma_expected_spans_first_to_largest(h: Seq<i64>, m: i64)
    requires
        h.contains(m),
        forall|i: int| 0 <= i < h.len() ==> h[i] <= m,
    ensures
        spec_expected(h) == Some(m - h[0] + 1),
        spec_lost(h) == Some(m - h[0] + 1 - h.to_set().len()),
        spec_expected(h) == Some(spec_lost(h).unwrap() + spec_distinct(h).len()),
        forall|x: i64| spec_distinct(h).contains(x) <==> (exists|i: int| 0 <= i < h.len() && h[i] == x),
{
    lemma_max_seq_bounds(h);
    let i = choose|i: int| 0 <= i < h.len() && h[i] == m;
    let j = choose|j: int| 0 <= j < h.len() && h[j] == spec_max_seq(h);
    assert(h[i] <= spec_max_seq(h));
    assert(h[j] <= m);
}

/// A stream numbered `0, 1, ..., n - 1` in order expects `n` datagrams and
/// loses none.
pub proof fn lemma_in_order_stream(n: nat)
    requires
        1 <= n <= i64::MAX,
    ensures
        spec_expected(Seq::new(n, |i: int| i as i64)) == Some(n as int),
        spec_lost(Seq::new(n, |i: int| i as i64)) == Some(0int),
{
    let h = Seq::new(n, |i: int| i as i64);
    assert(h[n - 1] == (n - 1) as i64);
    assert(h.contains((n - 1) as i64));
    lemma_expected_spans_first_to_largest(h, (n - 1) as i64);
    assert(h[0] == 0);
    assert forall|x: i64| 0 <= x && x <= spec_max_seq(h) implies h.contains(x) by {
        lemma_max_seq_bounds(h);
        assert(h[x as int] == x);
    }
    lemma_complete_stream_loses_nothing(h);
}

/// A datagram that arrives again changes neither the distinct count nor the
/// expected count, so it changes the loss count not at all.
pub proof fn lemma_duplicate_changes_nothing(h: Seq<i64>, seq: i64)
    requires
        h.contains(seq),
    ensures
        spec_distinct(h.push(seq)) == spec_distinct(h),
        spec_expected(h.push(seq)) == spec_expected(h),
        spec_lost(h.push(seq)) == spec_lost(h),
{
    lemma_max_seq_bounds(h);
    assert(h.push(seq).drop_last() =~= h);
    assert(spec_distinct(h.push(seq)) =~= spec_distinct(h));
    assert(h.push(seq)[0] == h[0]);
}

/// The numbers from the first received to the largest received.
pub open spec fn spec_window(h: Seq<i64>) -> Set<i64> {
    Set::new(|x: i64| h[0] <= x && x <= spec_max_seq(h))
}

/// The numbers from the first received to the largest received that never arrived.
pub open spec fn spec_missing(h: Seq<i64>) -> Set<i64> {
    Set::new(|x: i64| h[0] <= x && x <= spec_max_seq(h) && !h.contains(x))
}

proof fn lemma_window_len(h: Seq<i64>)
    requires
        h.len() > 0,
    ensures
        spec_window(h).finite(),
        spec_window(h).len() == spec_max_seq(h) - h[0] + 1,
{
    lemma_max_seq_bounds(h);
    let lo = h[0] as int;
    let hi = spec_max_seq(h) as int + 1;
    let w = spec_window(h);
    let f = |x: i64| x as int;
    vstd::set_lib::lemma_int_range(lo, hi);
    let r = vstd::set_lib::set_int_range(lo, hi);
    assert(w.map(f) =~= r) by {
        assert forall|y: int| r.contains(y) implies w.map(f).contains(y) by {
            assert(w.contains(y as i64));
            assert(f(y as i64) == y);
        }
    }
    let g = |y: int| y as i64;
    assert(r.map(g) =~= w) by {
        assert forall|x: i64| w.contains(x) implies r.map(g).contains(x) by {
            assert(r.contains(x as int));
            assert(g(x as int) == x);
        }
    }
    vstd::set_lib::lemma_map_size_bound(r, w, g);
    assert(vstd::relations::injective_on(f, w));
    vstd::set_lib::lemma_map_size(w, r, f);
}

/// When no datagram older than the first one arrives, the loss count is the
/// number of sequence numbers, from the first received to the largest, that
/// never arrived.
pub proof fn lemma_lost_counts_missing(h: Seq<i64>)
    requires
        h.len() > 0,
        forall|i: int| 0 <= i < h.len() ==> h[0] <= #[trigger] h[i],
    ensures
        spec_missing(h).finite(),
        spec_lost(h) == Some(spec_missing(h).len() as int),
{
    lemma_max_seq_bounds(h);
    lemma_window_len(h);
    let w = spec_window(h);
    let d = spec_distinct(h);
    let m = spec_missing(h);
    assert(d.subset_of(w)) by {
        assert forall|x: i64| d.contains(x) implies w.contains(x) by {
            let i = choose|i: int| 0 <= i < h.len() && h[i] == x;
        }
    }
    vstd::set_lib::lemma_len_subset(d, w);
    assert(m =~= w.difference(d));
    vstd::set_lib::lemma_set_subset_finite(w, m);
    assert(d.disjoint(m));
    vstd::set_lib::lemma_set_disjoint_lens(d, m);
    assert(d + m =~= w);
}

/// A stream that arrives in full, from its first number to its largest, shows
/// no loss.
pub proof fn lemma_complete_stream_loses_nothing(h: Seq<i64>)
    requires
        h.len() > 0,
        forall|i: int| 0 <= i < h.len() ==> h[0] <= #[trigger] h[i],
        forall|x: i64| h[0] <= x && x <= spec_max_seq(h) ==> h.contains(x),
    ensures
        spec_lost(h) == Some(0int),
{
    lemma_lost_counts_missing(h);
    assert(spec_missing(h) =~= Set::empty());
}

/// Tracks the sequence numbers received in a UDP test.
pub struct LossTracker {
    seen: HashSet<i64>,
    first_seq: Option<i64>,
    max_seq: i64,
    received: u64,
    history: Ghost<Seq<i64>>,
}

impl LossTracker {
    /// The sequence numbers received so far, in order of arrival.
    pub closed spec fn history(&self) -> Seq<i64> {
        self.history@
    }

    /// The tracker's fields agree with its history.
    pub closed spec fn wf(&self) -> bool {
        &&& self.seen@ == spec_distinct(self.history@)
        &&& self.received == self.seen@.len()
        &&& self.first_seq == (if self.history@.len() == 0 {
            None
        } else {
            Some(self.history@[0])
        })
        &&& self.max_seq == spec_max_seq(self.history@)
    }

    /// A tracker that has received nothing.
    pub fn new() -> (t: LossTracker)
        ensures
            t.wf(),
            t.history() == Seq::<i64>::empty(),
    {
        let t = LossTracker {
            seen: HashSet::new(),
            first_seq: None,
            max_seq: 0,
            received: 0,
            history: Ghost(Seq::empty()),
        };
        assert(spec_distinct(Seq::<i64>::empty()) =~= Set::empty());
        t
    }

    /// Records the arrival of the datagram numbered `seq`.
    pub fn observe(&mut self, seq: i64)
        requires
            old(self).wf(),
        ensures
            final(self).wf(),
            final(self).history() == old(self).history().push(seq),
    {
        let ghost old_h = self.history@;
        let ghost new_h = old_h.push(seq);
        proof {
            assert(new_h.drop_last() =~= old_h);
            assert(new_h =~= old_h + seq![seq]);
            Seq::<i64>::lemma_to_set_insert_commutes(old_h, seq);
            assert(spec_distinct(new_h) =~= spec_distinct(old_h).insert(seq));
        }
        match self.first_seq {
            None => {
                self.first_seq = Some(seq);
                self.max_seq = seq;
            },
            Some(_) => {},
        }
        if !self.seen.contains(&seq) {
            self.seen.insert(seq);
            self.received = self.seen.len() as u64;
        }
        if seq > self.max_seq {
            self.max_seq = seq;
        }
        self.history = Ghost(new_h);
        proof {
            if old_h.len() == 0 {
                assert(new_h[0] == seq);
            } else {
                assert(new_h[0] == old_h[0]);
            }
            assert(self.seen@ == spec_distinct(self.history@));
            assert(self.received == self.seen@.len());
            assert(self.max_seq == spec_max_seq(self.history@));
        }
    }

    /// How many distinct sequence numbers have arrived.
    pub fn received(&self) -> (n: u64)
        requires
            self.wf(),
        ensures
            n == spec_distinct(self.history()).len(),
    {
        self.received
    }

    /// Whether any datagram has arrived.
    pub fn started(&self) -> (b: bool)
        requires
            self.wf(),
        ensures
            b == (self.history().len() > 0),
    {
        self.first_seq.is_some()
    }

    /// `max - first + 1` over the numbers received; `None` before any arrived.
    pub fn expected(&self) -> (e: Option<i128>)
        requires
            self.wf(),
        ensures
            e matches Some(v) ==> spec_expected(self.history()) == Some(v as int),
            e is None <==> spec_expected(self.history()) is None,
    {
        match self.first_seq {
            None => None,
            Some(first) => Some(self.max_seq as i128 - first as i128 + 1),
        }
    }

    /// The expected count less the distinct numbers received: the datagrams
    /// lost so far. `None` before any arrived.
    pub fn lost(&self) -> (l: Option<i128>)
        requires
            self.wf(),
        ensures
            l matches Some(v) ==> spec_lost(self.history()) == Some(v as int),
            l is None <==> spec_lost(self.history()) is None,
    {
        match self.first_seq {
            None => None,
            Some(first) => Some(self.max_seq as i128 - first as i128 + 1 - self.received as i128),
        }
    }
}

} // verus!
