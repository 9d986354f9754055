//! Descriptive statistics of a sample given by ordering keys: the variation
//! series (the sample in ascending order), the statistical series (distinct
//! values with their frequencies) and the empirical distribution function.
//!
//! Frequencies are kept as counts; dividing by the sample size is left to
//! the caller.
use vstd::prelude::*;
use crate::ranking::{comes_before, is_stable_order, stable_sort_order};

verus! {

/// Sum of a sequence of counts.
pub open spec fn total(s: Seq<usize>) -> nat
    decreases s.len(),
{
    if s.len() == 0 {
        0
    } else {
        total(s.drop_last()) + s.last() as nat
    }
}

/// The keys are in ascending order.
pub open spec fn is_ascending(keys: Seq<i64>) -> bool {
    forall|i: int, j: int| 0 <= i <= j < keys.len() ==> #[trigger] keys[i] <= #[trigger] keys[j]
}

/// `starts` and `counts` split the first `n` keys into maximal runs of
/// equal consecutive keys: run `k` begins at `starts[k]` and holds
/// `counts[k]` keys, runs follow one another without gaps, and two
/// neighbouring runs hold different keys.
pub open spec fn is_run_split(keys: Seq<i64>, n: int, starts: Seq<usize>, counts: Seq<usize>) -> bool {
    &&& starts.len() == counts.len()
    &&& starts.len() > 0
    &&& starts[0] == 0
    &&& forall|k: int| 0 <= k < counts.len() ==> #[trigger] counts[k] > 0
    &&& forall|k: int| 0 <= k < starts.len() - 1 ==> starts[k + 1] == starts[k] + #[trigger] counts[k]
    &&& starts.last() + counts.last() == n
    &&& forall|k: int| 0 <= k < starts.len() ==> #[trigger] starts[k] + counts[k] <= n
    &&& forall|k: int, p: int|
        0 <= k < starts.len() && starts[k] <= p < starts[k] + counts[k] ==> #[trigger] keys[p] == keys[
            #[trigger] starts[k] as int]
    &&& forall|k: int| 0 < k < starts.len() ==> keys[#[trigger] starts[k] - 1] != keys[starts[k] as int]
}

/// Number of keys in `s` that are at most `v`.
pub open spec fn count_at_most(s: Seq<i64>, v: i64) -> nat
    decreases s.len(),
{
    if s.len() == 0 {
        0
    } else {
        count_at_most(s.drop_last(), v) + if s.last() <= v {
            1nat
        } else {
            0nat
        }
    }
}

/// The variation series: the stable ascending order of the sample's
/// positions, and the keys taken in that order.
pub fn variation_series(keys: &Vec<i64>) -> (res: (Vec<usize>, Vec<i64>))
    ensures
        is_stable_order(keys@, res.0@),
        forall|x: usize| x < keys.len() ==> #[trigger] res.0@.contains(x),
        res.1.len() == keys.len(),
        forall|i: int| 0 <= i < res.1.len() ==> #[trigger] res.1@[i] == keys@[res.0@[i] as int],
        is_ascending(res.1@),
{
    let order = stable_sort_order(keys);
    let mut sorted: Vec<i64> = Vec::new();
    let mut i: usize = 0;
    while i < order.len()
        invariant
            is_stable_order(keys@, order@),
            forall|x: usize| x < keys.len() ==> #[trigger] order@.contains(x),
            i <= order.len(),
            sorted.len() == i,
            forall|q: int| 0 <= q < i ==> #[trigger] sorted@[q] == keys@[order@[q] as int],
        decreases order.len() - i,
    {
        sorted.push(keys[order[i]]);
        i = i + 1;
    }
    proof {
        assert forall|a: int, b: int| 0 <= a <= b < sorted.len() implies #[trigger] sorted@[a] <= #[trigger] sorted@[b] by {
            if a < b {
                assert(comes_before(keys@, order@[a] as int, order@[b] as int));
            }
        }
    }
    (order, sorted)
}

/// The statistical series: the maximal runs of equal consecutive keys, as
/// the position where each run starts and the number of keys it holds.
/// Applied to a variation series, the runs are the distinct values of the
/// sample with their frequencies.
pub fn statistical_series(keys: &Vec<i64>) -> (res: (Vec<usize>, Vec<usize>))
    requires
        keys.len() > 0,
    ensures
        is_run_split(keys@, keys.len() as int, res.0@, res.1@),
{
    let n = keys.len();
    let mut starts: Vec<usize> = Vec::new();
    let mut counts: Vec<usize> = Vec::new();
    starts.push(0);
    counts.push(1);
    let mut i: usize = 1;
    while i < n
        invariant
            n == keys.len(),
            1 <= i <= n,
            is_run_split(keys@, i as int, starts@, counts@),
        decreases n - i,
    {
        let last = counts.len() - 1;
        if keys[i] == keys[i - 1] {
            let ghost prev_counts = counts@;
            let c = counts[last];
            counts.set(last, c + 1);
            proof {
                assert forall|k: int, p: int|
                    0 <= k < starts.len() && starts[k] <= p < starts[k] + counts[k] implies #[trigger] keys@[p]
                    == keys@[#[trigger] starts@[k] as int] by {
                    if k == last && p == i {
                        assert(keys@[p - 1] == keys@[starts@[k] as int]);
                    } else {
                        assert(counts@[k] == prev_counts[k] || p < i);
                    }
                }
            }
        } else {
            starts.push(i);
            counts.push(1);
        }
        i = i + 1;
    }
    (starts, counts)
}

/// The empirical distribution function at the distinct values: entry `k`
/// is the sum of the counts up to and including `k`.
pub fn distribution_function(counts: &Vec<usize>) -> (cumulative: Vec<usize>)
    requires
        total(counts@) <= usize::MAX,
    ensures
        cumulative.len() == counts.len(),
        forall|k: int| 0 <= k < counts.len() ==> #[trigger] cumulative@[k] == total(counts@.take(k + 1)),
{
    let mut cumulative: Vec<usize> = Vec::new();
    let mut sum: usize = 0;
    let mut i: usize = 0;
    proof {
        assert(counts@.take(0) =~= Seq::<usize>::empty());
    }
    while i < counts.len()
        invariant
            total(counts@) <= usize::MAX,
            i <= counts.len(),
            cumulative.len() == i,
            sum == total(counts@.take(i as int)),
            forall|k: int| 0 <= k < i ==> #[trigger] cumulative@[k] == total(counts@.take(k + 1)),
        decreases counts.len() - i,
    {
        proof {
            assert(counts@.take(i + 1).drop_last() =~= counts@.take(i as int));
            lemma_total_prefix_bounded(counts@, i + 1);
        }
        sum = sum + counts[i];
        cumulative.push(sum);
        i = i + 1;
    }
    cumulative
}

/// A prefix never sums to more than the whole sequence.
pub proof fn lemma_total_prefix_bounded(s: Seq<usize>, k: int)
    requires
        0 <= k <= s.len(),
    ensures
        total(s.take(k)) <= total(s),
    decreases s.len(),
{
    if k < s.len() {
        lemma_total_prefix_bounded(s.drop_last(), k);
        assert(s.drop_last().take(k) =~= s.take(k));
    } else {
        assert(s.take(k) =~= s);
    }
}

/// Up to run `k`, the counts add up to the start of run `k`.
proof fn lemma_runs_prefix_total(keys: Seq<i64>, n: int, starts: Seq<usize>, counts: Seq<usize>, k: int)
    requires
        is_run_split(keys, n, starts, counts),
        0 <= k < starts.len(),
    ensures
        total(counts.take(k)) == starts[k],
    decreases k,
{
    if k == 0 {
        assert(counts.take(0) =~= Seq::<usize>::empty());
    } else {
        lemma_runs_prefix_total(keys, n, starts, counts, k - 1);
        assert(counts.take(k).drop_last() =~= counts.take(k - 1));
    }
}

/// The frequencies of the statistical series add up to the sample size:
/// every key lies in exactly one run.
pub proof fn lemma_frequencies_sum_to_size(keys: Seq<i64>, n: int, starts: Seq<usize>, counts: Seq<usize>)
    requires
        is_run_split(keys, n, starts, counts),
    ensures
        total(counts) == n,
{
    let last = starts.len() - 1;
    lemma_runs_prefix_total(keys, n, starts, counts, last);
    assert(counts.take(last + 1).drop_last() =~= counts.take(last));
    assert(counts.take(last + 1) =~= counts);
}

/// Where exactly the first `m` keys are at most `v`, `m` keys are at most `v`.
proof fn lemma_count_at_most_prefix(s: Seq<i64>, v: i64, m: int)
    requires
        0 <= m <= s.len(),
        forall|p: int| 0 <= p < s.len() ==> (#[trigger] s[p] <= v <==> p < m),
    ensures
        count_at_most(s, v) == m,
    decreases s.len(),
{
    if s.len() > 0 {
        let t = s.drop_last();
        assert forall|p: int| 0 <= p < t.len() implies (#[trigger] t[p] <= v <==> p < (if m == s.len() {
            m - 1
        } else {
            m
        })) by {
            assert(t[p] == s[p]);
        }
        if m == s.len() {
            lemma_count_at_most_prefix(t, v, m - 1);
        } else {
            lemma_count_at_most_prefix(t, v, m);
        }
    }
}

/// The empirical distribution function of an ascending sample: at the
/// distinct value of run `k` it equals the number of sample keys that are
/// at most that value, so at the last value it equals the sample size.
pub proof fn lemma_distribution_counts_keys_at_most(keys: Seq<i64>, starts: Seq<usize>, counts: Seq<usize>, k: int)
    requires
        is_ascending(keys),
        is_run_split(keys, keys.len() as int, starts, counts),
        0 <= k < starts.len(),
    ensures
        total(counts.take(k + 1)) == count_at_most(keys, keys[starts[k] as int]),
        k == starts.len() - 1 ==> total(counts.take(k + 1)) == keys.len(),
{
    let v = keys[starts[k] as int];
    let m = starts[k] + counts[k];
    if k + 1 < starts.len() {
        lemma_runs_prefix_total(keys, keys.len() as int, starts, counts, k + 1);
        assert(starts[k + 1] == starts[k] + counts[k]);
    } else {
        lemma_frequencies_sum_to_size(keys, keys.len() as int, starts, counts);
        assert(counts.take(k + 1) =~= counts);
    }
    assert forall|p: int| 0 <= p < keys.len() implies (#[trigger] keys[p] <= v <==> p < m) by {
        if p < starts[k] {
            assert(keys[p] <= keys[starts[k] as int]);
        } else if p < m {
            assert(keys[p] == keys[starts[k] as int]);
        } else {
            assert(k + 1 < starts.len());
            assert(starts[k + 1] == starts[k] + counts[k]);
            assert(keys[m - 1] == v);
            assert(keys[m - 1] != keys[starts[k + 1] as int]);
            assert(keys[m - 1] <= keys[m]);
            assert(keys[m] <= keys[p]);
        }
    }
    lemma_count_at_most_prefix(keys, v, m);
}

/// In the statistical series of an ascending sample the distinct values
/// strictly increase from one run to the next.
pub proof fn lemma_distinct_values_increase(keys: Seq<i64>, starts: Seq<usize>, counts: Seq<usize>, k: int)
    requires
        is_ascending(keys),
        is_run_split(keys, keys.len() as int, starts, counts),
        0 < k < starts.len(),
    ensures
        keys[starts[k - 1] as int] < keys[starts[k] as int],
{
    let s = starts[k] as int;
    assert(starts[k] == starts[k - 1] + counts[k - 1]);
    assert(keys[s - 1] == keys[starts[k - 1] as int]);
    assert(keys[s - 1] <= keys[s]);
}

/// The empirical distribution function never decreases: a longer prefix of
/// the counts sums to at least as much as a shorter one.
pub proof fn lemma_distribution_nondecreasing(counts: Seq<usize>, i: int, j: int)
    requires
        0 <= i <= j <= counts.len(),
    ensures
        total(counts.take(i)) <= total(counts.take(j)),
{
    lemma_total_prefix_bounded(counts.take(j), i);
    assert(counts.take(j).take(i) =~= counts.take(i));
}

} // verus!
