//! Order statistics of a sample of measurements.

use vstd::prelude::*;
use vstd::arithmetic::div_mod::{lemma_fundamental_div_mod, lemma_fundamental_div_mod_converse};

verus! {

/// Order statistics of a sample: its size, extremes and 50th, 90th and 99th
/// percentiles.
#[derive(Debug, Clone, Copy, PartialEq, Eq)]
pub struct Stats<T> {
    pub count: usize,
    pub min: T,
    pub p50: T,
    pub p90: T,
    pub p99: T,
    pub max: T,
}

/// Ascending order on samples.
pub open spec fn ascending() -> spec_fn(u64, u64) -> bool {
    |a: u64, b: u64| a <= b
}

/// Ascending order is a total order.
pub proof fn lemma_ascending_is_total()
    ensures
        vstd::relations::total_ordering(ascending()),
{
    let leq = ascending();
    assert forall|a: u64, b: u64, c: u64| #[trigger] leq(a, b) && #[trigger] leq(b, c) implies leq(a, c) by {}
    assert forall|a: u64, b: u64| #[trigger] leq(a, b) || #[trigger] leq(b, a) by {}
    assert forall|a: u64, b: u64| #[trigger] leq(a, b) && #[trigger] leq(b, a) implies a == b by {}
}

/// The sample sorted in ascending order.
pub open spec fn sorted_sample(values: Seq<u64>) -> Seq<u64> {
    values.sort_by(ascending())
}

/// The sorted sample holds the same values as the sample, each as often, in
/// ascending order.
pub proof fn lemma_sorted_sample_ascends(values: Seq<u64>)
    ensures
        sorted_sample(values).len() == values.len(),
        sorted_sample(values).to_multiset() == values.to_multiset(),
        forall|i: int, j: int|
            0 <= i < j < values.len() ==> #[trigger] sorted_sample(values)[i] <= #[trigger] sorted_sample(values)[j],
        forall|i: int| 0 <= i < values.len() ==> values.contains(#[trigger] sorted_sample(values)[i]),
        forall|i: int| 0 <= i < values.len() ==> sorted_sample(values).contains(#[trigger] values[i]),
{
    broadcast use vstd::seq_lib::to_multiset_contains;

    let leq = ascending();
    lemma_ascending_is_total();
    values.lemma_sort_by_ensures(leq);
    let sorted = sorted_sample(values);
    vstd::seq_lib::to_multiset_len(values);
    vstd::seq_lib::to_multiset_len(sorted);
    assert forall|i: int, j: int| 0 <= i < j < values.len() implies #[trigger] sorted[i] <= #[trigger] sorted[j] by {
        assert(leq(sorted[i], sorted[j]));
    }
    assert forall|i: int| 0 <= i < values.len() implies values.contains(#[trigger] sorted[i]) by {
        assert(sorted.contains(sorted[i]));
        assert(sorted.to_multiset().count(sorted[i]) > 0);
    }
    assert forall|i: int| 0 <= i < values.len() implies sorted.contains(#[trigger] values[i]) by {
        assert(values.contains(values[i]));
        assert(values.to_multiset().count(values[i]) > 0);
    }
}

/// Rank of the `percent`-th percentile in a sorted sample of `n` values:
/// `(n - 1) * percent / 100`, rounded to the nearest integer, halves up.
pub open spec fn percentile_rank(n: nat, percent: nat) -> int {
    (((n - 1) * percent + 50) / 100) as int
}

/// The rank of a percentile is `(n - 1) * percent / 100` rounded to the
/// nearest integer, halves up: it lies within half a unit of that quotient
/// (on the lower side by at most a half, on the upper side by less). It falls
/// inside the sample; the 0th percentile is the first value and the 100th the
/// last.
pub proof fn lemma_percentile_rank_rounds(n: nat, percent: nat)
    requires
        n > 0,
        percent <= 100,
    ensures
        100 * percentile_rank(n, percent) - 50 <= (n - 1) * percent,
        (n - 1) * percent < 100 * percentile_rank(n, percent) + 50,
        0 <= percentile_rank(n, percent) < n,
        percentile_rank(n, 0) == 0,
        percentile_rank(n, 100) == n - 1,
{
    let x: int = (n - 1) * percent;
    let r = percentile_rank(n, percent);
    assert(x >= 0) by (nonlinear_arith)
        requires
            n > 0,
            x == (n - 1) * percent,
    ;
    assert(x <= (n - 1) * 100) by (nonlinear_arith)
        requires
            n > 0,
            percent <= 100,
            x == (n - 1) * percent,
    ;
    lemma_fundamental_div_mod(x + 50, 100);
    assert(r == (x + 50) / 100);
    assert(0 <= (x + 50) % 100 < 100);
    lemma_fundamental_div_mod_converse((n - 1) * 100 + 50, 100, n - 1, 50);
    lemma_fundamental_div_mod_converse(50, 100, 0, 50);
    assert((n - 1) * 0 == 0);
}

fn percentile_index(n: usize, percent: u64) -> (r: usize)
    requires
        n > 0,
        percent <= 100,
    ensures
        r == percentile_rank(n as nat, percent as nat),
        100 * r - 50 <= (n - 1) * percent < 100 * r + 50,
        r < n,
{
    proof {
        lemma_percentile_rank_rounds(n as nat, percent as nat);
    }
    let m: u128 = (n - 1) as u128;
    let pc: u128 = percent as u128;
    assert(m * pc <= 0xffff_ffff_ffff_ffff * 100) by (nonlinear_arith)
        requires
            m <= 0xffff_ffff_ffff_ffff,
            pc <= 100,
    ;
    let scaled: u128 = m * pc + 50;
    proof {
        assert(((n - 1) as nat) * (percent as nat) <= ((n - 1) as nat) * 100) by (nonlinear_arith)
            requires
                percent <= 100,
        ;
        assert((((n - 1) as nat) * 100 + 50) / 100 < n) by (nonlinear_arith)
            requires
                n > 0,
        ;
    }
    (scaled / 100) as usize
}

/// The sample sorted in ascending order (an insertion sort).
pub fn sort_ascending(values: &Vec<u64>) -> (sorted: Vec<u64>)
    ensures
        sorted@ == sorted_sample(values@),
        sorted@.len() == values@.len(),
        sorted@.to_multiset() == values@.to_multiset(),
        forall|i: int, j: int| 0 <= i < j < sorted@.len() ==> #[trigger] sorted@[i] <= #[trigger] sorted@[j],
{
    broadcast use vstd::seq_lib::group_to_multiset_ensures;

    let ghost leq = ascending();
    let n = values.len();
    let mut out: Vec<u64> = Vec::new();
    for i in 0..n
        invariant
            n == values@.len(),
            leq == ascending(),
            out@.len() == i,
            vstd::relations::sorted_by(out@, leq),
            out@.to_multiset() == values@.take(i as int).to_multiset(),
    {
        let x = values[i];
        let mut pos: usize = out.len();
        while pos > 0 && out[pos - 1] > x
            invariant
                pos <= out@.len(),
                forall|k: int| pos <= k < out@.len() ==> out@[k] > x,
            decreases pos,
        {
            pos = pos - 1;
        }
        let ghost before = out@;
        proof {
            assert forall|k: int| 0 <= k < pos implies before[k] <= x by {
                if k < pos - 1 {
                    assert(leq(before[k], before[pos - 1]));
                }
            }
        }
        out.insert(pos, x);
        proof {
            assert(out@ == before.insert(pos as int, x));
            assert forall|p: int, q: int| 0 <= p < q < out@.len() implies #[trigger] leq(out@[p], out@[q]) by {
                if q < pos {
                    assert(leq(before[p], before[q]));
                } else if q == pos {
                } else if p > pos {
                    assert(leq(before[p - 1], before[q - 1]));
                } else if p == pos {
                } else {
                    assert(leq(before[p], before[q - 1]));
                }
            }
            assert(values@.take(i + 1) == values@.take(i as int).push(x));
            vstd::seq_lib::to_multiset_insert(before, pos as int, x);
            vstd::seq_lib::to_multiset_build(values@.take(i as int), x);
        }
    }
    proof {
        assert(values@.take(n as int) =~= values@);
        lemma_ascending_is_total();
        values@.lemma_sort_by_ensures(leq);
        vstd::seq_lib::lemma_sorted_unique(out@, values@.sort_by(leq), leq);
        lemma_sorted_sample_ascends(values@);
    }
    out
}

impl Stats<u64> {
    /// Order statistics of a non-empty sample. The `p`-th percentile is the
    /// value of rank `round((count - 1) * p / 100)` in the sorted sample.
    pub fn from_values(values: Vec<u64>) -> (s: Self)
        requires
            values@.len() > 0,
        ensures
            s.count == values@.len(),
            s.min == sorted_sample(values@)[0],
            s.p50 == sorted_sample(values@)[percentile_rank(values@.len(), 50)],
            s.p90 == sorted_sample(values@)[percentile_rank(values@.len(), 90)],
            s.p99 == sorted_sample(values@)[percentile_rank(values@.len(), 99)],
            s.max == sorted_sample(values@)[values@.len() - 1],
            forall|i: int| 0 <= i < values@.len() ==> s.min <= #[trigger] values@[i] && values@[i] <= s.max,
            values@.contains(s.min),
            values@.contains(s.max),
            values@.contains(s.p50),
            values@.contains(s.p90),
            values@.contains(s.p99),
            s.min <= s.p50 && s.p50 <= s.p90 && s.p90 <= s.p99 && s.p99 <= s.max,
    {
        let sorted = sort_ascending(&values);
        let n = values.len();
        proof {
            let leq = ascending();
            lemma_ascending_is_total();
            values@.lemma_sort_by_ensures(leq);
            vstd::seq_lib::to_multiset_len(values@);
            vstd::seq_lib::to_multiset_len(sorted@);
            lemma_sorted_sample_ascends(values@);
            lemma_percentile_rank_rounds(n as nat, 50);
            lemma_percentile_rank_rounds(n as nat, 90);
            lemma_percentile_rank_rounds(n as nat, 99);
            let ss = sorted_sample(values@);
            assert forall|i: int| 0 <= i < values@.len() implies ss[0] <= #[trigger] values@[i] && values@[i]
                <= ss[n - 1] by {
                assert(ss.contains(values@[i]));
                let k = choose|k: int| 0 <= k < ss.len() && ss[k] == values@[i];
                if k > 0 {
                    assert(ss[0] <= ss[k]);
                }
                if k < n - 1 {
                    assert(ss[k] <= ss[n - 1]);
                }
            }
            let r50 = percentile_rank(n as nat, 50);
            let r90 = percentile_rank(n as nat, 90);
            let r99 = percentile_rank(n as nat, 99);
            assert(r50 <= r90 && r90 <= r99) by (nonlinear_arith)
                requires
                    r50 == (((n - 1) * 50 + 50) / 100) as int,
                    r90 == (((n - 1) * 90 + 50) / 100) as int,
                    r99 == (((n - 1) * 99 + 50) / 100) as int,
                    n > 0,
            ;
            assert(ss[0] <= ss[r50]) by { if r50 > 0 { assert(ss[0] <= ss[r50]); } }
            assert(ss[r50] <= ss[r90]) by { if r50 < r90 { assert(ss[r50] <= ss[r90]); } }
            assert(ss[r90] <= ss[r99]) by { if r90 < r99 { assert(ss[r90] <= ss[r99]); } }
            assert(ss[r99] <= ss[n - 1]) by { if r99 < n - 1 { assert(ss[r99] <= ss[n - 1]); } }
            assert(values@.contains(ss[0]));
            assert(values@.contains(ss[n - 1]));
            assert(values@.contains(ss[r50]));
            assert(values@.contains(ss[r90]));
            assert(values@.contains(ss[r99]));
        }
        Stats {
            count: n,
            min: sorted[0],
            p50: sorted[percentile_index(n, 50)],
            p90: sorted[percentile_index(n, 90)],
            p99: sorted[percentile_index(n, 99)],
            max: sorted[n - 1],
        }
    }
}

} // verus!
