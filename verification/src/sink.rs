//! The histogram/counter sink: the accumulator behind a single load run.
//!
//! A sink owns one latency distribution and the two counters `"success"` and
//! `"error"`, scoped to the current accumulation window.  Recording appends a
//! sample; draining computes the 50th/95th/99th percentile values, hands all
//! five numbers out at once and resets the sink — a drain is destructive by
//! design, so a second drain with no intervening records reports zeroes.
//!
//! The latency samples are kept sorted, which makes the percentile lookup a
//! single index computation and the ordering `p50 <= p95 <= p99` a direct
//! consequence of the sink's invariant.  The distribution stores the exact
//! samples rather than logarithmic buckets: a bucketed histogram's quantile
//! lookup is parameterized by a floating-point fraction, which this library
//! cannot hold, and exact samples only sharpen a three-significant-digit
//! resolution — the rank rule below is the same value-at-quantile contract,
//! with zero quantization error.

use vstd::prelude::*;
use vstd::arithmetic::div_mod::{
    lemma_div_by_self, lemma_div_is_ordered, lemma_fundamental_div_mod_converse,
};
use vstd::seq_lib::lemma_multiset_commutative;
use crate::text::str_eq;

verus! {

/// Ascending order over a sequence of samples.
pub open spec fn is_sorted(s: Seq<u64>) -> bool {
    forall|i: int, j: int| 0 <= i <= j < s.len() ==> s[i] <= s[j]
}

/// The one-based rank of the sample that stands at the quantile `num / den`:
/// the ceiling of `len * num / den`.
pub open spec fn quantile_rank(len: nat, num: nat, den: nat) -> int {
    (len * num + den - 1) / (den as int)
}

/// The value at quantile `num / den` of a sorted sample sequence: the sample
/// below which (rounding the rank up) `num / den` of all samples fall, or 0
/// when no sample was recorded.
pub open spec fn quantile_spec(s: Seq<u64>, num: nat, den: nat) -> u64 {
    if s.len() == 0 {
        0
    } else {
        s[quantile_rank(s.len(), num, den) - 1]
    }
}

/// The rank of a non-trivial quantile lies between 1 and `len`.
pub proof fn lemma_rank_bounds(len: nat, num: nat, den: nat)
    requires
        len >= 1,
        1 <= num <= den,
    ensures
        1 <= quantile_rank(len, num, den) <= len,
{
    let x = len * num + den - 1;
    assert(len * num >= 1) by (nonlinear_arith)
        requires
            len >= 1,
            num >= 1,
    ;
    assert(len * num <= len * den) by (nonlinear_arith)
        requires
            num <= den,
            len >= 0,
    ;
    lemma_div_by_self(den as int);
    lemma_div_is_ordered(den as int, x, den as int);
    lemma_fundamental_div_mod_converse(
        (len * den + den - 1) as int,
        den as int,
        len as int,
        (den - 1) as int,
    );
    lemma_div_is_ordered(x, (len * den + den - 1) as int, den as int);
}

/// Percentile ordering: on one sorted sample sequence, a lower quantile never
/// exceeds a higher one.  In particular `p50 <= p95 <= p99` in any snapshot.
pub proof fn lemma_percentile_order(s: Seq<u64>, n1: nat, n2: nat, den: nat)
    requires
        is_sorted(s),
        1 <= n1 <= n2 <= den,
    ensures
        quantile_spec(s, n1, den) <= quantile_spec(s, n2, den),
{
    if s.len() > 0 {
        lemma_rank_bounds(s.len(), n1, den);
        lemma_rank_bounds(s.len(), n2, den);
        assert(s.len() * n1 <= s.len() * n2) by (nonlinear_arith)
            requires
                n1 <= n2,
                s.len() >= 0,
        ;
        lemma_div_is_ordered(
            (s.len() * n1 + den - 1) as int,
            (s.len() * n2 + den - 1) as int,
            den as int,
        );
    }
}

/// The sample at quantile `num / den` of an ascending sample vector.
pub fn value_at_quantile(samples: &Vec<u64>, num: u64, den: u64) -> (r: u64)
    requires
        1 <= num <= den,
    ensures
        r == quantile_spec(samples@, num as nat, den as nat),
{
    let len = samples.len();
    if len == 0 {
        return 0;
    }
    proof {
        lemma_rank_bounds(len as nat, num as nat, den as nat);
        assert((len as int) * (num as int) <= 0xffffffffffffffff * 0xffffffffffffffff)
            by (nonlinear_arith)
            requires
                0 <= len <= 0xffffffffffffffff,
                0 <= num <= 0xffffffffffffffff,
        ;
    }
    let rank: u128 = ((len as u128) * (num as u128) + (den as u128) - 1) / (den as u128);
    let idx: usize = (rank - 1) as usize;
    samples[idx]
}

/// What one drain hands out: the two counters of the window and the three
/// percentile values of the recorded latency distribution, in the raw unit
/// in which the samples were recorded.
pub struct DrainSnapshot {
    pub successes: u64,
    pub failures: u64,
    pub p50: u64,
    pub p95: u64,
    pub p99: u64,
}

/// The concurrency-safe accumulator of one load run (the guarded state; the
/// caller that shares it across tasks holds it under its own lock and calls
/// one sink operation per critical section).
pub struct Sink {
    response_times: Vec<u64>,
    successful: u64,
    error: u64,
}

impl Sink {
    /// The recorded latency samples, in ascending order.
    pub closed spec fn latencies(&self) -> Seq<u64> {
        self.response_times@
    }

    /// The value of the `"success"` counter.
    pub closed spec fn successes(&self) -> u64 {
        self.successful
    }

    /// The value of the `"error"` counter.
    pub closed spec fn errors(&self) -> u64 {
        self.error
    }

    /// The sink's invariant: samples are kept in ascending order.
    pub open spec fn wf(&self) -> bool {
        is_sorted(self.latencies())
    }

    /// An empty accumulation window: no samples, both counters zero.
    pub open spec fn is_reset(&self) -> bool {
        self.latencies() == Seq::<u64>::empty() && self.successes() == 0 && self.errors() == 0
    }

    /// What a drain of a sink in this state returns.
    pub open spec fn drain_spec(&self) -> DrainSnapshot {
        DrainSnapshot {
            successes: self.successes(),
            failures: self.errors(),
            p50: quantile_spec(self.latencies(), 50, 100),
            p95: quantile_spec(self.latencies(), 95, 100),
            p99: quantile_spec(self.latencies(), 99, 100),
        }
    }

    pub fn new() -> (s: Sink)
        ensures
            s.wf(),
            s.is_reset(),
    {
        Sink { response_times: Vec::new(), successful: 0, error: 0 }
    }

    /// Appends one latency sample if `name` is `"response_time"`; any other
    /// name leaves the sink unchanged.  The counters are never touched.
    pub fn record(&mut self, name: &str, value: u64)
        requires
            old(self).wf(),
        ensures
            final(self).wf(),
            final(self).successes() == old(self).successes(),
            final(self).errors() == old(self).errors(),
            name@ == "response_time"@ ==> final(self).latencies().to_multiset() == old(
                self,
            ).latencies().to_multiset().insert(value) && final(self).latencies().len() == old(
                self,
            ).latencies().len() + 1,
            name@ != "response_time"@ ==> final(self).latencies() == old(self).latencies(),
    {
        if str_eq(name, "response_time") {
            let ghost pre = self.response_times@;
            let len = self.response_times.len();
            let mut i: usize = 0;
            while i < len && *self.response_times.get(i).unwrap() <= value
                invariant
                    i <= len,
                    len == self.response_times@.len(),
                    self.response_times@ == pre,
                    forall|j: int| 0 <= j < i ==> pre[j] <= value,
                decreases len - i,
            {
                i += 1;
            }
            self.response_times.insert(i, value);
            proof {
                let post = self.response_times@;
                assert(post == pre.insert(i as int, value));
                pre.insert_ensures(i as int, value);
                assert forall|p: int, q: int| 0 <= p <= q < post.len() implies post[p] <= post[q]
                by {
                    assert(forall|k: int| 0 <= k < i ==> post[k] == pre[k]);
                    assert(forall|k: int| i <= k < pre.len() ==> post[k + 1] == pre[k]);
                }
                lemma_insert_multiset(pre, i as int, value);
            }
        }
    }

    /// Adds one to the counter named `"success"` or `"error"` (saturating at
    /// the type's maximum); any other name leaves the sink unchanged.
    pub fn increment(&mut self, name: &str)
        requires
            old(self).wf(),
        ensures
            final(self).wf(),
            final(self).latencies() == old(self).latencies(),
            name@ == "success"@ ==> final(self).errors() == old(self).errors() && (old(
                self,
            ).successes() < u64::MAX ==> final(self).successes() == old(self).successes() + 1) && (
            old(self).successes() == u64::MAX ==> final(self).successes() == u64::MAX),
            name@ == "error"@ ==> final(self).successes() == old(self).successes() && (old(
                self,
            ).errors() < u64::MAX ==> final(self).errors() == old(self).errors() + 1) && (old(
                self,
            ).errors() == u64::MAX ==> final(self).errors() == u64::MAX),
            name@ != "success"@ && name@ != "error"@ ==> final(self).successes() == old(
                self,
            ).successes() && final(self).errors() == old(self).errors(),
    {
        proof {
            reveal_strlit("success");
            reveal_strlit("error");
            assert("success"@.len() != "error"@.len());
        }
        if str_eq(name, "success") {
            if self.successful < u64::MAX {
                self.successful = self.successful + 1;
            }
        } else if str_eq(name, "error") {
            if self.error < u64::MAX {
                self.error = self.error + 1;
            }
        }
    }

    /// The destructive read: computes the percentile values and the counters
    /// of the current window, resets everything to zero, and returns the
    /// five numbers.  `p50 <= p95 <= p99` holds in every snapshot.
    pub fn drain(&mut self) -> (snap: DrainSnapshot)
        requires
            old(self).wf(),
        ensures
            final(self).wf(),
            final(self).is_reset(),
            snap == old(self).drain_spec(),
            snap.p50 <= snap.p95 <= snap.p99,
    {
        proof {
            lemma_percentile_order(self.latencies(), 50, 95, 100);
            lemma_percentile_order(self.latencies(), 95, 99, 100);
        }
        let p50 = value_at_quantile(&self.response_times, 50, 100);
        let p95 = value_at_quantile(&self.response_times, 95, 100);
        let p99 = value_at_quantile(&self.response_times, 99, 100);
        let snap = DrainSnapshot {
            successes: self.successful,
            failures: self.error,
            p50,
            p95,
            p99,
        };
        self.response_times = Vec::new();
        self.successful = 0;
        self.error = 0;
        snap
    }
}

/// Drain idempotence on emptiness: a drain leaves the sink reset, and the
/// drain of a reset sink reports zero for every field.  So of two drains with
/// no records in between, the second always hands back all zeroes.
pub proof fn lemma_drain_of_reset_is_zero(s: Sink)
    requires
        s.is_reset(),
    ensures
        s.drain_spec() == (DrainSnapshot { successes: 0, failures: 0, p50: 0, p95: 0, p99: 0 }),
{
}

/// Inserting an element anywhere in a sequence adds exactly that element to
/// the sequence's multiset.
proof fn lemma_insert_multiset(s: Seq<u64>, i: int, v: u64)
    requires
        0 <= i <= s.len(),
    ensures
        s.insert(i, v).to_multiset() == s.to_multiset().insert(v),
{
    broadcast use vstd::multiset::group_multiset_axioms;

    let a = s.subrange(0, i);
    let b = s.subrange(i, s.len() as int);
    a.to_multiset_ensures();
    lemma_multiset_commutative(a.push(v), b);
    lemma_multiset_commutative(a, b);
    assert(s =~= a + b);
    assert(s.insert(i, v).to_multiset() =~= s.to_multiset().insert(v));
}

} // verus!
