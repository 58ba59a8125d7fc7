use vstd::arithmetic::div_mod::{lemma_div_is_ordered, lemma_fundamental_div_mod_converse};
use vstd::prelude::*;

verus! {

/// How the bucket boundaries of a histogram are spaced; the value is the number of buckets.
#[derive(Clone, Copy, Debug, PartialEq, Eq, Structural)]
pub enum HistogramConfig {
    Logarithmic(usize),
    Linear(usize),
}

/// Bucket within a histogram: the number of nodes whose point counts fall within `range`.
#[derive(Debug)]
pub struct HistogramBucket {
    pub count: usize,
    pub range: std::ops::Range<usize>,
}

impl HistogramBucket {
    /// Creates a bucket holding `count` entries over `range`.
    pub fn new(count: usize, range: std::ops::Range<usize>) -> (r: Self)
        ensures
            r.count == count,
            r.range == range,
    {
        HistogramBucket { count, range }
    }

    /// The number of entries within this bucket.
    pub fn count(&self) -> (r: usize)
        ensures
            r == self.count,
    {
        self.count
    }

    /// The half-open range of point counts covered by this bucket.
    pub fn range(&self) -> (r: &std::ops::Range<usize>)
        ensures
            r == self.range,
    {
        &self.range
    }
}

/// Every element is at most each element after it.
pub open spec fn ascending(s: Seq<usize>) -> bool {
    forall|i: int, j: int| 0 <= i <= j < s.len() ==> s[i] <= s[j]
}

/// The number of elements of `s` below `v`.
pub open spec fn count_below(s: Seq<usize>, v: int) -> nat
    decreases s.len(),
{
    if s.len() == 0 {
        0
    } else {
        count_below(s.drop_last(), v) + if (s.last() as int) < v {
            1nat
        } else {
            0nat
        }
    }
}

/// The number of elements of `s` in the half-open interval `[lo, hi)`.
pub open spec fn count_within(s: Seq<usize>, lo: int, hi: int) -> nat
    decreases s.len(),
{
    if s.len() == 0 {
        0
    } else {
        count_within(s.drop_last(), lo, hi) + if lo <= s.last() < hi {
            1nat
        } else {
            0nat
        }
    }
}

/// `b` is the bucket `[start, end)` holding the elements of `s` that fall in it.
pub open spec fn bucket_over(b: HistogramBucket, s: Seq<usize>, start: int, end: int) -> bool {
    &&& b.count == count_within(s, start, end)
    &&& b.range.start == start
    &&& b.range.end == end
}

/// `r` has one bucket between each two neighbouring boundaries of `bounds`, counting `s`.
pub open spec fn buckets_over(r: Seq<HistogramBucket>, s: Seq<usize>, bounds: Seq<int>) -> bool {
    &&& r.len() + 1 == bounds.len()
    &&& forall|i: int| 0 <= i < r.len() ==> bucket_over(#[trigger] r[i], s, bounds[i], bounds[i + 1])
}

/// `a / b` rounded to the nearest integer, halves rounded up.
pub open spec fn round_div(a: int, b: int) -> int {
    (2 * a + b) / (2 * b)
}

/// Boundary `i` of `n` linear buckets over `[0, m)`: `round(m * i / n)`.
pub open spec fn linear_bound(m: int, i: int, n: int) -> int {
    round_div(m * i, n)
}

/// The `n + 1` boundaries of `n` linear buckets over `[0, m)`.
pub open spec fn linear_bounds(m: int, n: int) -> Seq<int> {
    Seq::new((n + 1) as nat, |i: int| linear_bound(m, i, n))
}

/// The sum of the counts of the buckets.
pub open spec fn total_count(r: Seq<HistogramBucket>) -> int
    decreases r.len(),
{
    if r.len() == 0 {
        0
    } else {
        total_count(r.drop_last()) + r.last().count
    }
}

/// Each bucket ends where the next one starts.
pub open spec fn contiguous(r: Seq<HistogramBucket>) -> bool {
    forall|i: int| 0 <= i < r.len() - 1 ==> #[trigger] r[i].range.end == r[i + 1].range.start
}

/// Every boundary is at most each boundary after it.
pub open spec fn ascending_bounds(b: Seq<int>) -> bool {
    forall|i: int, j: int| 0 <= i <= j < b.len() ==> b[i] <= b[j]
}

proof fn lemma_count_below_partition(s: Seq<usize>, v: int, p: int)
    requires
        0 <= p <= s.len(),
        forall|i: int| 0 <= i < p ==> (s[i] as int) < v,
        forall|i: int| p <= i < s.len() ==> s[i] >= v,
    ensures
        count_below(s, v) == p,
    decreases s.len(),
{
    if s.len() > 0 {
        let t = s.drop_last();
        if p == s.len() {
            lemma_count_below_partition(t, v, p - 1);
        } else {
            lemma_count_below_partition(t, v, p);
        }
    }
}

proof fn lemma_count_within_difference(s: Seq<usize>, lo: int, hi: int)
    ensures
        lo <= hi ==> count_within(s, lo, hi) == count_below(s, hi) - count_below(s, lo),
        hi <= lo ==> count_within(s, lo, hi) == 0,
    decreases s.len(),
{
    if s.len() > 0 {
        lemma_count_within_difference(s.drop_last(), lo, hi);
    }
}

/// The smallest index whose element is at least `v`, found by binary search.
pub fn partition_below(s: &Vec<usize>, v: usize) -> (p: usize)
    requires
        ascending(s@),
    ensures
        p <= s.len(),
        forall|i: int| 0 <= i < p ==> s@[i] < v,
        forall|i: int| p <= i < s.len() ==> s@[i] >= v,
        p == count_below(s@, v as int),
{
    let mut lo: usize = 0;
    let mut hi: usize = s.len();
    while lo < hi
        invariant
            lo <= hi <= s.len(),
            ascending(s@),
            forall|i: int| 0 <= i < lo ==> s@[i] < v,
            forall|i: int| hi <= i < s.len() ==> s@[i] >= v,
        decreases hi - lo,
    {
        let mid = lo + (hi - lo) / 2;
        if s[mid] < v {
            lo = mid + 1;
        } else {
            hi = mid;
        }
    }
    proof {
        lemma_count_below_partition(s@, v as int, lo as int);
    }
    lo
}

/// The bucket `[start, end)` over the sorted counts.
pub fn bucket_between(counts: &Vec<usize>, start: usize, end: usize) -> (r: HistogramBucket)
    requires
        ascending(counts@),
    ensures
        bucket_over(r, counts@, start as int, end as int),
{
    let first = partition_below(counts, start);
    let last = partition_below(counts, end);
    proof {
        lemma_count_within_difference(counts@, start as int, end as int);
        if start <= end {
            if first > last {
                assert(counts@[last as int] >= start);
                assert(counts@[last as int] < end);
            }
        } else if last > first {
            assert(counts@[first as int] < end);
            assert(counts@[first as int] >= start);
        }
    }
    let count = if last >= first {
        last - first
    } else {
        0
    };
    HistogramBucket::new(count, start..end)
}

/// Buckets between each two neighbouring boundaries, over sorted counts; none for no counts.
/// The boundaries of logarithmic buckets, `round(2^(log2(1 + max) * i / n))` for `i` in `0..=n`,
/// are real powers and are computed by the caller.
pub fn log_histogram(counts: &Vec<usize>, bounds: &Vec<usize>) -> (r: Vec<HistogramBucket>)
    requires
        ascending(counts@),
    ensures
        counts@.len() == 0 || bounds@.len() == 0 ==> r@.len() == 0,
        counts@.len() > 0 && bounds@.len() > 0 ==> buckets_over(
            r@,
            counts@,
            bounds@.map_values(|b: usize| b as int),
        ),
{
    let mut r: Vec<HistogramBucket> = Vec::new();
    if counts.len() == 0 || bounds.len() == 0 {
        return r;
    }
    let ghost bs = bounds@.map_values(|b: usize| b as int);
    let n = bounds.len() - 1;
    let mut i: usize = 0;
    while i < n
        invariant
            n + 1 == bounds.len(),
            i <= n,
            ascending(counts@),
            bs == bounds@.map_values(|b: usize| b as int),
            r@.len() == i,
            forall|k: int| 0 <= k < i ==> bucket_over(#[trigger] r@[k], counts@, bs[k], bs[k + 1]),
        decreases n - i,
    {
        let b = bucket_between(counts, bounds[i], bounds[i + 1]);
        r.push(b);
        i = i + 1;
    }
    r
}

proof fn lemma_round_div(a: int, b: int, q: int, m: int)
    requires
        b > 0,
        a >= 0,
        q == a / b,
        m == a % b,
    ensures
        round_div(a, b) == q + if 2 * m >= b {
            1int
        } else {
            0int
        },
{
    vstd::arithmetic::div_mod::lemma_fundamental_div_mod(a, b);
    let rem = 2 * m + b;
    assert(2 * a + b == q * (2 * b) + rem) by (nonlinear_arith)
        requires
            a == b * q + m,
            rem == 2 * m + b,
    ;
    if 2 * m >= b {
        assert(2 * a + b == (q + 1) * (2 * b) + (rem - 2 * b)) by (nonlinear_arith)
            requires
                2 * a + b == q * (2 * b) + rem,
        ;
        lemma_fundamental_div_mod_converse(2 * a + b, 2 * b, q + 1, rem - 2 * b);
    } else {
        lemma_fundamental_div_mod_converse(2 * a + b, 2 * b, q, rem);
    }
}

proof fn lemma_linear_bound_range(m: int, i: int, j: int, n: int)
    requires
        m >= 0,
        n > 0,
        0 <= i <= j <= n,
    ensures
        0 <= linear_bound(m, i, n) <= linear_bound(m, j, n) <= m,
        linear_bound(m, 0, n) == 0,
        linear_bound(m, n, n) == m,
{
    assert(2 * (m * i) + n <= 2 * (m * j) + n) by (nonlinear_arith)
        requires
            m >= 0,
            i <= j,
    ;
    assert(0 <= 2 * (m * i) + n) by (nonlinear_arith)
        requires
            m >= 0,
            i >= 0,
            n > 0,
    ;
    lemma_div_is_ordered(2 * (m * i) + n, 2 * (m * j) + n, 2 * n);
    assert(2 * (m * n) + n == m * (2 * n) + n) by (nonlinear_arith);
    lemma_fundamental_div_mod_converse(2 * (m * n) + n, 2 * n, m, n);
    assert(2 * (m * j) + n <= 2 * (m * n) + n) by (nonlinear_arith)
        requires
            m >= 0,
            j <= n,
    ;
    lemma_div_is_ordered(2 * (m * j) + n, 2 * (m * n) + n, 2 * n);
    lemma_fundamental_div_mod_converse(2 * (m * 0) + n, 2 * n, 0, n);
    vstd::arithmetic::div_mod::lemma_div_pos_is_pos(2 * (m * i) + n, 2 * n);
}

/// Boundary `i` of `n` linear buckets over `[0, m)`, computed without overflow.
pub fn linear_bucket_bound(m: usize, i: usize, n: usize) -> (r: usize)
    requires
        n > 0,
        i <= n,
    ensures
        r == linear_bound(m as int, i as int, n as int),
{
    assert((m as int) * (i as int) <= u128::MAX) by (nonlinear_arith)
        requires
            m <= u64::MAX,
            i <= u64::MAX,
    ;
    let x: u128 = (m as u128) * (i as u128);
    let q: u128 = x / (n as u128);
    let rem: u128 = x % (n as u128);
    proof {
        lemma_round_div(x as int, n as int, q as int, rem as int);
        lemma_linear_bound_range(m as int, i as int, n as int, n as int);
    }
    if 2 * rem >= n as u128 {
        (q + 1) as usize
    } else {
        q as usize
    }
}

/// Histogram of sorted counts with `num_buckets` equally wide buckets over `[0, max + 1)`.
pub fn lin_histogram(counts: &Vec<usize>, num_buckets: usize) -> (r: Vec<HistogramBucket>)
    requires
        ascending(counts@),
        counts@.len() > 0 ==> counts@.last() < usize::MAX,
    ensures
        counts@.len() == 0 || num_buckets == 0 ==> r@.len() == 0,
        counts@.len() > 0 && num_buckets > 0 ==> buckets_over(
            r@,
            counts@,
            linear_bounds(counts@.last() + 1, num_buckets as int),
        ),
{
    let mut r: Vec<HistogramBucket> = Vec::new();
    if counts.len() == 0 || num_buckets == 0 {
        return r;
    }
    let m = counts[counts.len() - 1] + 1;
    let ghost bs = linear_bounds(m as int, num_buckets as int);
    let mut i: usize = 0;
    while i < num_buckets
        invariant
            i <= num_buckets,
            num_buckets > 0,
            ascending(counts@),
            m == counts@.last() + 1,
            bs == linear_bounds(m as int, num_buckets as int),
            r@.len() == i,
            forall|k: int| 0 <= k < i ==> bucket_over(#[trigger] r@[k], counts@, bs[k], bs[k + 1]),
        decreases num_buckets - i,
    {
        let start = linear_bucket_bound(m, i, num_buckets);
        let end = linear_bucket_bound(m, i + 1, num_buckets);
        let b = bucket_between(counts, start, end);
        r.push(b);
        i = i + 1;
    }
    r
}

proof fn lemma_total_telescopes(r: Seq<HistogramBucket>, s: Seq<usize>, b: Seq<int>)
    requires
        buckets_over(r, s, b),
        ascending_bounds(b),
    ensures
        total_count(r) == count_below(s, b.last()) - count_below(s, b[0]),
    decreases r.len(),
{
    if r.len() > 0 {
        let k = r.len() - 1;
        let r2 = r.drop_last();
        let b2 = b.drop_last();
        assert forall|i: int| 0 <= i < r2.len() implies bucket_over(
            #[trigger] r2[i],
            s,
            b2[i],
            b2[i + 1],
        ) by {
            assert(bucket_over(r[i], s, b[i], b[i + 1]));
        }
        lemma_total_telescopes(r2, s, b2);
        assert(bucket_over(r[k], s, b[k], b[k + 1]));
        lemma_count_within_difference(s, b[k], b[k + 1]);
    }
}

/// Buckets over ascending boundaries that enclose every count are contiguous, and their counts
/// add up to the number of counts.
pub proof fn lemma_enclosing_buckets_cover(
    counts: Seq<usize>,
    bounds: Seq<int>,
    r: Seq<HistogramBucket>,
)
    requires
        ascending(counts),
        counts.len() > 0,
        ascending_bounds(bounds),
        buckets_over(r, counts, bounds),
        bounds[0] <= counts[0],
        counts.last() < bounds.last(),
    ensures
        contiguous(r),
        total_count(r) == counts.len(),
{
    assert forall|i: int| 0 <= i < r.len() - 1 implies #[trigger] r[i].range.end == r[i
        + 1].range.start by {
        assert(bucket_over(r[i], counts, bounds[i], bounds[i + 1]));
        assert(bucket_over(r[i + 1], counts, bounds[i + 1], bounds[i + 2]));
    }
    lemma_total_telescopes(r, counts, bounds);
    lemma_count_below_partition(counts, bounds[0], 0);
    lemma_count_below_partition(counts, bounds.last(), counts.len() as int);
}

/// Linear buckets over sorted counts are contiguous and their counts add up to the number of
/// counts.
pub proof fn lemma_linear_buckets_cover(
    counts: Seq<usize>,
    num_buckets: usize,
    r: Seq<HistogramBucket>,
)
    requires
        ascending(counts),
        num_buckets > 0,
        counts.len() == 0 ==> r.len() == 0,
        counts.len() > 0 ==> buckets_over(
            r,
            counts,
            linear_bounds(counts.last() + 1, num_buckets as int),
        ),
    ensures
        contiguous(r),
        total_count(r) == counts.len(),
{
    if counts.len() > 0 {
        let m = counts.last() + 1;
        let n = num_buckets as int;
        let b = linear_bounds(m, n);
        assert forall|i: int, j: int| 0 <= i <= j < b.len() implies b[i] <= b[j] by {
            lemma_linear_bound_range(m, i, j, n);
        }
        lemma_linear_bound_range(m, 0, n, n);
        assert(counts[0] <= counts.last());
        lemma_enclosing_buckets_cover(counts, b, r);
    }
}

/// The number of buckets that a configuration asks for.
pub open spec fn bucket_count(config: HistogramConfig) -> int {
    match config {
        HistogramConfig::Linear(n) => n as int,
        HistogramConfig::Logarithmic(n) => n as int,
    }
}

/// `log_bounds` fits the configuration: for `n > 0` logarithmic buckets, `n + 1` ascending
/// boundaries; for none, no boundaries. Linear buckets take no boundaries from outside.
pub open spec fn log_bounds_fit(config: HistogramConfig, log_bounds: Seq<usize>) -> bool {
    match config {
        HistogramConfig::Linear(_) => true,
        HistogramConfig::Logarithmic(n) => if n == 0 {
            log_bounds.len() == 0
        } else {
            log_bounds.len() == n + 1 && ascending(log_bounds)
        },
    }
}

/// The histogram of sorted counts in the given spacing: one bucket per requested bucket, none
/// for no counts. Logarithmic buckets take their boundaries from `log_bounds`.
pub fn build_histogram(
    counts: &Vec<usize>,
    config: HistogramConfig,
    log_bounds: &Vec<usize>,
) -> (r: Vec<HistogramBucket>)
    requires
        ascending(counts@),
        counts@.len() > 0 ==> counts@.last() < usize::MAX,
        counts@.len() > 0 ==> log_bounds_fit(config, log_bounds@),
    ensures
        counts@.len() == 0 ==> r@.len() == 0,
        counts@.len() > 0 ==> r@.len() == bucket_count(config),
        counts@.len() > 0 ==> match config {
            HistogramConfig::Linear(n) => n == 0 || buckets_over(
                r@,
                counts@,
                linear_bounds(counts@.last() + 1, n as int),
            ),
            HistogramConfig::Logarithmic(n) => n == 0 || buckets_over(
                r@,
                counts@,
                log_bounds@.map_values(|b: usize| b as int),
            ),
        },
{
    match config {
        HistogramConfig::Linear(n) => lin_histogram(counts, n),
        HistogramConfig::Logarithmic(_) => log_histogram(counts, log_bounds),
    }
}

} // verus!
