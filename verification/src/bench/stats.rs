//! Percentiles of the measured times.

use vstd::prelude::*;
use vstd::relations::{sorted_by, total_ordering};
use vstd::seq_lib::lemma_sorted_unique;

verus! {

/// Whether one time is at most another.
pub open spec fn at_most() -> spec_fn(u64, u64) -> bool {
    |a: u64, b: u64| a <= b
}

/// Times in ascending order.
pub open spec fn ascending(times: Seq<u64>) -> Seq<u64> {
    times.sort_by(at_most())
}

/// The place of a percentile among that many ascending times: the nearest, and the
/// later one of two that are as near.
pub open spec fn rank(len: nat, percent: nat) -> int {
    ((len - 1) * percent + 50) / 100
}

/// The percentile of ascending times; zero where there are none.
pub open spec fn percentile(times: Seq<u64>, percent: nat) -> u64 {
    if times.len() == 0 {
        0
    } else {
        times[rank(times.len(), percent)]
    }
}

/// What is reported of the times of good answers, in nanoseconds.
#[derive(Clone, Copy, PartialEq, Eq, Structural, Debug)]
pub struct Summary {
    pub count: usize,
    pub p50: u64,
    pub p95: u64,
    pub p99: u64,
}

pub proof fn lemma_order()
    ensures
        total_ordering(at_most()),
{
}

/// Ascending times with the same occurrences are the times in ascending order.
proof fn lemma_ascending(times: Seq<u64>, out: Seq<u64>)
    requires
        sorted_by(out, at_most()),
        out.to_multiset() == times.to_multiset(),
    ensures
        out == ascending(times),
{
    lemma_order();
    times.lemma_sort_by_ensures(at_most());
    lemma_sorted_unique(out, ascending(times), at_most());
}

/// The place of a percentile is one of the times.
pub proof fn lemma_rank(len: nat, percent: nat)
    requires
        len > 0,
        percent <= 100,
    ensures
        0 <= rank(len, percent) < len,
{
    assert(0 <= (len - 1) * percent <= (len - 1) * 100) by (nonlinear_arith)
        requires
            len > 0,
            percent <= 100,
    ;
}

/// The percentile of ascending times, in nanoseconds.
pub fn percentile_ns(times: &Vec<u64>, percent: u8) -> (r: u64)
    requires
        percent <= 100,
    ensures
        r == percentile(times@, percent as nat),
{
    if times.len() == 0 {
        return 0;
    }
    proof {
        lemma_rank(times@.len(), percent as nat);
        assert(0 <= (times@.len() - 1) * percent <= u64::MAX * 100) by (nonlinear_arith)
            requires
                0 < times@.len() <= u64::MAX,
                percent <= 100,
        ;
    }
    let place: u128 = ((times.len() - 1) as u128 * percent as u128 + 50) / 100;
    times[place as usize]
}

/// Merges two lists of ascending times.
fn merge(a: &Vec<u64>, b: &Vec<u64>) -> (r: Vec<u64>)
    requires
        sorted_by(a@, at_most()),
        sorted_by(b@, at_most()),
    ensures
        sorted_by(r@, at_most()),
        r@.to_multiset() == a@.to_multiset().add(b@.to_multiset()),
{
    broadcast use vstd::seq_lib::group_to_multiset_ensures;
    broadcast use vstd::multiset::group_multiset_axioms;

    let mut out: Vec<u64> = Vec::new();
    let mut i: usize = 0;
    let mut k: usize = 0;
    assert(a@.take(0).to_multiset() == vstd::multiset::Multiset::<u64>::empty()) by {
        assert(a@.take(0) == Seq::<u64>::empty());
    }
    assert(b@.take(0).to_multiset() == vstd::multiset::Multiset::<u64>::empty()) by {
        assert(b@.take(0) == Seq::<u64>::empty());
    }
    while i < a.len() || k < b.len()
        invariant
            i <= a.len(),
            k <= b.len(),
            sorted_by(a@, at_most()),
            sorted_by(b@, at_most()),
            sorted_by(out@, at_most()),
            forall|x: int, y: int| 0 <= x < out@.len() && i <= y < a@.len() ==> out@[x] <= a@[y],
            forall|x: int, y: int| 0 <= x < out@.len() && k <= y < b@.len() ==> out@[x] <= b@[y],
            out@.to_multiset() == a@.take(i as int).to_multiset().add(b@.take(k as int).to_multiset()),
        decreases a.len() - i + b.len() - k,
    {
        proof {
            broadcast use vstd::seq_lib::group_to_multiset_ensures;
            broadcast use vstd::multiset::group_multiset_axioms;

        }
        let ghost before = out@;
        let ghost left = a@.take(i as int).to_multiset();
        let ghost right = b@.take(k as int).to_multiset();
        if k == b.len() || (i < a.len() && a[i] <= b[k]) {
            assert(forall|y: int| i <= y < a@.len() ==> at_most()(a@[i as int], a@[y]));
            assert(forall|y: int| k <= y < b@.len() ==> at_most()(b@[k as int], b@[y]));
            out.push(a[i]);
            assert(a@.take(i + 1) == a@.take(i as int).push(a@[i as int]));
            assert(left.insert(a@[i as int]).add(right) == left.add(right).insert(a@[i as int]));
            i += 1;
        } else {
            assert(forall|y: int| k <= y < b@.len() ==> at_most()(b@[k as int], b@[y]));
            assert(forall|y: int| i <= y < a@.len() ==> at_most()(a@[i as int], a@[y]));
            out.push(b[k]);
            assert(b@.take(k + 1) == b@.take(k as int).push(b@[k as int]));
            assert(left.add(right.insert(b@[k as int])) == left.add(right).insert(b@[k as int]));
            k += 1;
        }
        assert(sorted_by(out@, at_most())) by {
            assert forall|x: int, y: int| 0 <= x < y < out@.len() implies #[trigger] at_most()(
                out@[x],
                out@[y],
            ) by {
                assert(out@[x] == before[x]);
                if y < before.len() {
                    assert(out@[y] == before[y]);
                    assert(at_most()(before[x], before[y]));
                }
            }
        }
    }
    assert(a@.take(i as int) == a@);
    assert(b@.take(k as int) == b@);
    out
}

/// Sorts times.
fn sorted(times: &Vec<u64>) -> (r: Vec<u64>)
    ensures
        sorted_by(r@, at_most()),
        r@.to_multiset() == times@.to_multiset(),
    decreases times@.len(),
{
    let n = times.len();
    if n <= 1 {
        return times.clone();
    }
    let half: usize = n / 2;
    let mut a: Vec<u64> = Vec::new();
    let mut b: Vec<u64> = Vec::new();
    let mut i: usize = 0;
    while i < n
        invariant
            i <= n,
            n == times.len(),
            half <= n,
            a@ == times@.take(if i <= half { i as int } else { half as int }),
            b@ == times@.subrange(half as int, if i <= half { half as int } else { i as int }),
        decreases n - i,
    {
        if i < half {
            a.push(times[i]);
        } else {
            b.push(times[i]);
        }
        i += 1;
    }
    let ghost parts = (a@, b@);
    let r = merge(&sorted(&a), &sorted(&b));
    proof {
        assert(parts.0 + parts.1 == times@);
        vstd::seq_lib::lemma_multiset_commutative(parts.0, parts.1);
    }
    r
}

/// Sorts the times and says how many there are, and their percentiles.
pub fn summarize(latencies: &mut Vec<u64>) -> (r: Summary)
    ensures
        final(latencies)@ == ascending(old(latencies)@),
        final(latencies)@.len() == old(latencies)@.len(),
        r.count == old(latencies)@.len(),
        r.p50 == percentile(ascending(old(latencies)@), 50),
        r.p95 == percentile(ascending(old(latencies)@), 95),
        r.p99 == percentile(ascending(old(latencies)@), 99),
{
    let ghost given = latencies@;
    let out = sorted(latencies);
    proof {
        broadcast use vstd::seq_lib::group_to_multiset_ensures;

        lemma_ascending(given, out@);
        assert(out@.len() == out@.to_multiset().len());
    }
    *latencies = out;
    Summary {
        count: latencies.len(),
        p50: percentile_ns(latencies, 50),
        p95: percentile_ns(latencies, 95),
        p99: percentile_ns(latencies, 99),
    }
}

/// No percentile is above a higher one, and each is one of the times.
pub proof fn law_percentiles_ascend(times: Seq<u64>, low: nat, high: nat)
    requires
        low <= high <= 100,
    ensures
        percentile(ascending(times), low) <= percentile(ascending(times), high),
        times.len() > 0 ==> times.contains(percentile(ascending(times), low)),
{
    broadcast use vstd::seq_lib::group_to_multiset_ensures;

    let s = ascending(times);
    lemma_order();
    times.lemma_sort_by_ensures(at_most());
    assert(s.len() == s.to_multiset().len());
    if s.len() > 0 {
        lemma_rank(s.len(), low);
        lemma_rank(s.len(), high);
        let l = rank(s.len(), low);
        let h = rank(s.len(), high);
        assert((s.len() - 1) * low <= (s.len() - 1) * high) by (nonlinear_arith)
            requires
                s.len() > 0,
                low <= high,
        ;
        if l < h {
            assert(at_most()(s[l], s[h]));
        }
        assert(s.contains(s[l]));
        if !times.contains(s[l]) {
            assert(!s.contains(s[l]));
        }
    }
}

} // verus!
