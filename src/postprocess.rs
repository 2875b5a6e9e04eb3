//! Contrast normalization of a raw field: global min/max reduction,
//! linear recalibration onto the display range, a 256-bucket histogram, its
//! cumulative distribution, and histogram equalization.
//!
//! A canvas is a vector of texel values, row after row.

use vstd::prelude::*;

verus! {

/// Top of the display range: recalibrated values lie in `0..=DISPLAY_MAX`.
pub const DISPLAY_MAX: i64 = 255;

/// Number of histogram buckets, one per display value.
pub const NUM_BUCKETS: usize = 256;

/// Global minimum and maximum of a canvas.
#[derive(Clone, Copy, Debug, PartialEq, Eq, Structural)]
pub struct GlobalStats {
    pub value_min: i64,
    pub value_max: i64,
}

/// Frequency of each display value among the texels above a threshold.
#[derive(Debug)]
pub struct Histogram {
    pub counts: Vec<usize>,
    pub total_included: usize,
}

/// Cumulative distribution of a histogram, scaled to the display range: the
/// lookup table that equalization applies.
#[derive(Debug)]
pub struct Cdf {
    pub table: Vec<i64>,
}

pub open spec fn min_int(a: int, b: int) -> int {
    if a <= b {
        a
    } else {
        b
    }
}

pub open spec fn max_int(a: int, b: int) -> int {
    if a >= b {
        a
    } else {
        b
    }
}

/// Smallest value of `s`; `i64::MAX` (the identity of `min`) when empty.
pub open spec fn seq_min(s: Seq<i64>) -> int
    decreases s.len(),
{
    if s.len() == 0 {
        i64::MAX as int
    } else {
        min_int(seq_min(s.drop_last()), s.last() as int)
    }
}

/// Largest value of `s`; `i64::MIN` (the identity of `max`) when empty.
pub open spec fn seq_max(s: Seq<i64>) -> int
    decreases s.len(),
{
    if s.len() == 0 {
        i64::MIN as int
    } else {
        max_int(seq_max(s.drop_last()), s.last() as int)
    }
}

pub open spec fn stats_of(s: Seq<i64>) -> GlobalStats {
    GlobalStats { value_min: seq_min(s) as i64, value_max: seq_max(s) as i64 }
}

/// Every value of `s` lies within the stats.
pub open spec fn bounded_by(s: Seq<i64>, st: GlobalStats) -> bool {
    forall|k: int| 0 <= k < s.len() ==> st.value_min <= #[trigger] s[k] <= st.value_max
}

/// A texel value moved linearly so that the minimum maps to 0 and the
/// maximum to `DISPLAY_MAX`, rounded down; a flat field maps to 0.
pub open spec fn recalibrated(v: i64, st: GlobalStats) -> i64 {
    if st.value_max == st.value_min {
        0
    } else {
        ((v - st.value_min) * DISPLAY_MAX / (st.value_max - st.value_min)) as i64
    }
}

pub open spec fn recalibrated_seq(s: Seq<i64>, st: GlobalStats) -> Seq<i64> {
    Seq::new(s.len(), |k: int| recalibrated(s[k], st))
}

/// The histogram bucket of a value: the value clamped to `0..=DISPLAY_MAX`.
pub open spec fn bucket_of(v: int) -> int {
    if v < 0 {
        0
    } else if v > DISPLAY_MAX {
        DISPLAY_MAX as int
    } else {
        v
    }
}

/// Number of values of `s` above `threshold` that fall in bucket `b`.
pub open spec fn bucket_count(s: Seq<i64>, threshold: i64, b: int) -> nat
    decreases s.len(),
{
    if s.len() == 0 {
        0
    } else {
        bucket_count(s.drop_last(), threshold, b) + if s.last() > threshold && bucket_of(
            s.last() as int,
        ) == b {
            1nat
        } else {
            0nat
        }
    }
}

/// Number of values of `s` above `threshold`.
pub open spec fn included_count(s: Seq<i64>, threshold: i64) -> nat
    decreases s.len(),
{
    if s.len() == 0 {
        0
    } else {
        included_count(s.drop_last(), threshold) + if s.last() > threshold {
            1nat
        } else {
            0nat
        }
    }
}

/// Sum of the first `n` entries of `c`.
pub open spec fn prefix_sum(c: Seq<usize>, n: int) -> int
    decreases n,
{
    if n <= 0 {
        0
    } else {
        prefix_sum(c, n - 1) + c[n - 1]
    }
}

/// Sum of the bucket counts of buckets `0..n`.
pub open spec fn bucket_prefix(s: Seq<i64>, threshold: i64, n: int) -> int
    decreases n,
{
    if n <= 0 {
        0
    } else {
        bucket_prefix(s, threshold, n - 1) + bucket_count(s, threshold, n - 1)
    }
}

/// Entry `i` of the CDF table: the share of included texels in buckets
/// `0..=i`, scaled to `DISPLAY_MAX` and rounded to the nearest integer
/// (halves up); all zero when nothing is included.
pub open spec fn cdf_entry(c: Seq<usize>, total: int, i: int) -> int {
    if total == 0 {
        0
    } else {
        (2 * DISPLAY_MAX * prefix_sum(c, i + 1) + total) / (2 * total)
    }
}

/// The bucket counts of `s` as a table of `NUM_BUCKETS` entries.
pub open spec fn histogram_counts(s: Seq<i64>, threshold: i64) -> Seq<usize> {
    Seq::new(NUM_BUCKETS as nat, |b: int| bucket_count(s, threshold, b) as usize)
}

pub open spec fn cdf_table(c: Seq<usize>, total: int) -> Seq<i64> {
    Seq::new(NUM_BUCKETS as nat, |i: int| cdf_entry(c, total, i) as i64)
}

/// Each value replaced by the table entry of its bucket.
pub open spec fn equalized(s: Seq<i64>, table: Seq<i64>) -> Seq<i64> {
    Seq::new(s.len(), |k: int| table[bucket_of(s[k] as int)])
}

impl Histogram {
    /// One count per bucket, summing to the number of included texels.
    pub open spec fn wf(&self) -> bool {
        &&& self.counts@.len() == NUM_BUCKETS
        &&& prefix_sum(self.counts@, NUM_BUCKETS as int) == self.total_included
    }
}

proof fn lemma_stats_bound(s: Seq<i64>)
    ensures
        bounded_by(s, stats_of(s)),
        i64::MIN <= seq_min(s) <= i64::MAX,
        i64::MIN <= seq_max(s) <= i64::MAX,
        s.len() > 0 ==> seq_min(s) <= seq_max(s),
    decreases s.len(),
{
    if s.len() > 0 {
        lemma_stats_bound(s.drop_last());
        assert forall|k: int| 0 <= k < s.len() implies seq_min(s) <= #[trigger] s[k] <= seq_max(
            s,
        ) by {
            if k < s.len() - 1 {
                assert(s[k] == s.drop_last()[k]);
            }
        }
    }
}

/// The reduction stage: the global minimum and maximum of the canvas, each
/// folded from its identity.
pub fn stats_reduction(canvas: &Vec<i64>) -> (r: GlobalStats)
    ensures
        r.value_min == seq_min(canvas@),
        r.value_max == seq_max(canvas@),
{
    let mut lo: i64 = i64::MAX;
    let mut hi: i64 = i64::MIN;
    let mut i: usize = 0;
    while i < canvas.len()
        invariant
            i <= canvas@.len(),
            lo == seq_min(canvas@.take(i as int)),
            hi == seq_max(canvas@.take(i as int)),
        decreases canvas@.len() - i,
    {
        let v = canvas[i];
        assert(canvas@.take(i + 1).drop_last() == canvas@.take(i as int));
        if v < lo {
            lo = v;
        }
        if v > hi {
            hi = v;
        }
        i = i + 1;
    }
    assert(canvas@.take(i as int) == canvas@);
    GlobalStats { value_min: lo, value_max: hi }
}

/// The recalibration stage: every texel moved linearly onto
/// `0..=DISPLAY_MAX` from the range given by `stats`; a flat field becomes 0.
pub fn recalibrate(canvas: &mut Vec<i64>, stats: &GlobalStats)
    requires
        bounded_by(old(canvas)@, *stats),
    ensures
        final(canvas)@ == recalibrated_seq(old(canvas)@, *stats),
{
    let n = canvas.len();
    let mut i: usize = 0;
    while i < n
        invariant
            n == old(canvas)@.len(),
            canvas@.len() == n,
            i <= n,
            bounded_by(old(canvas)@, *stats),
            forall|k: int| 0 <= k < i ==> canvas@[k] == recalibrated(old(canvas)@[k], *stats),
            forall|k: int| i <= k < n ==> canvas@[k] == old(canvas)@[k],
        decreases n - i,
    {
        let v = canvas[i];
        assert(stats.value_min <= old(canvas)@[i as int] <= stats.value_max);
        let nv: i64 = if stats.value_max == stats.value_min {
            0
        } else {
            let num: u128 = (v as i128 - stats.value_min as i128) as u128 * 255;
            let den: u128 = (stats.value_max as i128 - stats.value_min as i128) as u128;
            let q: u128 = num / den;
            proof {
                let ni = num as int;
                let di = den as int;
                assert(ni <= di * 255);
                assert(ni / di <= 255) by (nonlinear_arith)
                    requires
                        0 <= ni <= di * 255,
                        di > 0,
                ;
            }
            q as i64
        };
        canvas.set(i, nv);
        i = i + 1;
    }
    assert(canvas@ =~= recalibrated_seq(old(canvas)@, *stats));
}

proof fn lemma_counts_bounded(s: Seq<i64>, threshold: i64, b: int)
    ensures
        bucket_count(s, threshold, b) <= included_count(s, threshold) <= s.len(),
    decreases s.len(),
{
    if s.len() > 0 {
        lemma_counts_bounded(s.drop_last(), threshold, b);
    }
}

/// Splitting off the last value of `s` changes the bucket prefix sum by one
/// exactly where that value is included and its bucket is below `n`.
proof fn lemma_bucket_prefix_step(s: Seq<i64>, threshold: i64, n: int)
    requires
        s.len() > 0,
    ensures
        bucket_prefix(s, threshold, n) == bucket_prefix(s.drop_last(), threshold, n) + if s.last()
            > threshold && bucket_of(s.last() as int) < n {
            1int
        } else {
            0int
        },
    decreases n,
{
    if n > 0 {
        lemma_bucket_prefix_step(s, threshold, n - 1);
    }
}

/// The bucket counts over all buckets sum to the number of included values:
/// each included value is counted in exactly one bucket.
pub proof fn lemma_histogram_total(s: Seq<i64>, threshold: i64)
    ensures
        bucket_prefix(s, threshold, NUM_BUCKETS as int) == included_count(s, threshold),
    decreases s.len(),
{
    if s.len() == 0 {
        lemma_bucket_prefix_empty(s, threshold, NUM_BUCKETS as int);
    } else {
        lemma_histogram_total(s.drop_last(), threshold);
        lemma_bucket_prefix_step(s, threshold, NUM_BUCKETS as int);
    }
}

proof fn lemma_bucket_prefix_empty(s: Seq<i64>, threshold: i64, n: int)
    requires
        s.len() == 0,
    ensures
        bucket_prefix(s, threshold, n) == 0,
    decreases n,
{
    if n > 0 {
        lemma_bucket_prefix_empty(s, threshold, n - 1);
    }
}

proof fn lemma_prefix_sum_matches(c: Seq<usize>, s: Seq<i64>, threshold: i64, n: int)
    requires
        0 <= n <= c.len(),
        forall|b: int| 0 <= b < c.len() ==> c[b] == bucket_count(s, threshold, b),
    ensures
        prefix_sum(c, n) == bucket_prefix(s, threshold, n),
    decreases n,
{
    if n > 0 {
        lemma_prefix_sum_matches(c, s, threshold, n - 1);
    }
}

/// The histogram stage: for every texel above `threshold`, one count in the
/// bucket of its value clamped to `0..=DISPLAY_MAX`.
pub fn build_histogram(canvas: &Vec<i64>, threshold: i64) -> (r: Histogram)
    ensures
        r.wf(),
        r.total_included == included_count(canvas@, threshold),
        r.counts@ == histogram_counts(canvas@, threshold),
{
    let mut counts: Vec<usize> = Vec::new();
    let mut b: usize = 0;
    while b < NUM_BUCKETS
        invariant
            b <= NUM_BUCKETS,
            counts@.len() == b,
            forall|k: int| 0 <= k < b ==> counts@[k] == 0,
        decreases NUM_BUCKETS - b,
    {
        counts.push(0);
        b = b + 1;
    }
    let mut total: usize = 0;
    let mut i: usize = 0;
    while i < canvas.len()
        invariant
            i <= canvas@.len(),
            counts@.len() == NUM_BUCKETS,
            total == included_count(canvas@.take(i as int), threshold),
            forall|k: int|
                0 <= k < NUM_BUCKETS ==> counts@[k] == bucket_count(
                    canvas@.take(i as int),
                    threshold,
                    k,
                ),
        decreases canvas@.len() - i,
    {
        let v = canvas[i];
        let ghost prev = canvas@.take(i as int);
        let ghost next = canvas@.take(i + 1);
        assert(next.drop_last() == prev);
        if v > threshold {
            let bucket: usize = if v < 0 {
                0
            } else if v > DISPLAY_MAX {
                255
            } else {
                v as usize
            };
            proof {
                lemma_counts_bounded(prev, threshold, bucket as int);
            }
            let c = counts[bucket];
            counts.set(bucket, c + 1);
            total = total + 1;
        }
        i = i + 1;
    }
    assert(canvas@.take(i as int) == canvas@);
    proof {
        lemma_prefix_sum_matches(counts@, canvas@, threshold, NUM_BUCKETS as int);
        lemma_histogram_total(canvas@, threshold);
    }
    assert(counts@ =~= histogram_counts(canvas@, threshold));
    Histogram { counts, total_included: total }
}

proof fn lemma_prefix_sum_monotone(c: Seq<usize>, i: int, j: int)
    requires
        0 <= i <= j,
    ensures
        prefix_sum(c, i) <= prefix_sum(c, j),
    decreases j - i,
{
    if i < j {
        lemma_prefix_sum_monotone(c, i, j - 1);
    }
}

proof fn lemma_cdf_entry_bounds(c: Seq<usize>, total: int, i: int, j: int)
    requires
        0 <= i <= j < NUM_BUCKETS,
        c.len() == NUM_BUCKETS,
        prefix_sum(c, NUM_BUCKETS as int) == total,
    ensures
        0 <= cdf_entry(c, total, i) <= cdf_entry(c, total, j) <= DISPLAY_MAX,
        total > 0 ==> cdf_entry(c, total, NUM_BUCKETS - 1) == DISPLAY_MAX,
{
    lemma_prefix_sum_monotone(c, 0, i + 1);
    lemma_prefix_sum_monotone(c, i + 1, j + 1);
    lemma_prefix_sum_monotone(c, j + 1, NUM_BUCKETS as int);
    if total > 0 {
        let pi = prefix_sum(c, i + 1);
        let pj = prefix_sum(c, j + 1);
        assert(0 <= (510 * pi + total) / (2 * total) <= (510 * pj + total) / (2 * total) <= 255)
            by (nonlinear_arith)
            requires
                0 <= pi <= pj <= total,
                total > 0,
        ;
        assert((510 * total + total) / (2 * total) == 255) by (nonlinear_arith)
            requires
                total > 0,
        ;
    }
}

/// The CDF stage: entry `i` is the rounded share of included texels in
/// buckets `0..=i`, scaled to `DISPLAY_MAX`; all zero when nothing is
/// included.
pub fn build_cdf(histogram: &Histogram) -> (r: Cdf)
    requires
        histogram.wf(),
    ensures
        r.table@ == cdf_table(histogram.counts@, histogram.total_included as int),
{
    let ghost c = histogram.counts@;
    let total = histogram.total_included;
    let mut table: Vec<i64> = Vec::new();
    let mut prefix: usize = 0;
    let mut i: usize = 0;
    while i < NUM_BUCKETS
        invariant
            histogram.wf(),
            c == histogram.counts@,
            total == histogram.total_included,
            i <= NUM_BUCKETS,
            prefix == prefix_sum(c, i as int),
            table@.len() == i,
            forall|k: int| 0 <= k < i ==> table@[k] == cdf_entry(c, total as int, k),
        decreases NUM_BUCKETS - i,
    {
        proof {
            lemma_prefix_sum_monotone(c, i + 1, NUM_BUCKETS as int);
            lemma_cdf_entry_bounds(c, total as int, i as int, i as int);
        }
        prefix = prefix + histogram.counts[i];
        let entry: i64 = if total == 0 {
            0
        } else {
            assert(prefix <= total <= usize::MAX <= 0xffff_ffff_ffff_ffff);
            let p: u128 = prefix as u128;
            let t: u128 = total as u128;
            assert(p <= t <= 0xffff_ffff_ffff_ffff);
            assert(510 * p + t <= 511 * 0xffff_ffff_ffff_ffffu128) by (nonlinear_arith)
                requires
                    p <= t <= 0xffff_ffff_ffff_ffffu128,
            ;
            let num: u128 = 510 * p + t;
            let den: u128 = 2 * t;
            (num / den) as i64
        };
        table.push(entry);
        i = i + 1;
    }
    assert(table@ =~= cdf_table(c, total as int));
    Cdf { table }
}

/// The equalization stage: every texel replaced by the table entry of its
/// value clamped to `0..=DISPLAY_MAX`.
pub fn equalize(canvas: &mut Vec<i64>, cdf: &Cdf)
    requires
        cdf.table@.len() == NUM_BUCKETS,
    ensures
        final(canvas)@ == equalized(old(canvas)@, cdf.table@),
{
    let n = canvas.len();
    let mut i: usize = 0;
    while i < n
        invariant
            n == old(canvas)@.len(),
            canvas@.len() == n,
            i <= n,
            cdf.table@.len() == NUM_BUCKETS,
            forall|k: int|
                0 <= k < i ==> canvas@[k] == cdf.table@[bucket_of(old(canvas)@[k] as int)],
            forall|k: int| i <= k < n ==> canvas@[k] == old(canvas)@[k],
        decreases n - i,
    {
        let v = canvas[i];
        let bucket: usize = if v < 0 {
            0
        } else if v > DISPLAY_MAX {
            255
        } else {
            v as usize
        };
        let nv = cdf.table[bucket];
        canvas.set(i, nv);
        i = i + 1;
    }
    assert(canvas@ =~= equalized(old(canvas)@, cdf.table@));
}

proof fn lemma_stats_attained(s: Seq<i64>)
    requires
        s.len() > 0,
    ensures
        exists|k: int| 0 <= k < s.len() && s[k] == seq_min(s),
        exists|k: int| 0 <= k < s.len() && s[k] == seq_max(s),
    decreases s.len(),
{
    let last = s.len() - 1;
    if s.len() > 1 {
        lemma_stats_attained(s.drop_last());
        let i = choose|k: int| 0 <= k < s.drop_last().len() && s.drop_last()[k] == seq_min(s.drop_last());
        let j = choose|k: int| 0 <= k < s.drop_last().len() && s.drop_last()[k] == seq_max(s.drop_last());
        if seq_min(s) == s.last() {
            assert(s[last] == seq_min(s));
        } else {
            assert(s[i] == seq_min(s));
        }
        if seq_max(s) == s.last() {
            assert(s[last] == seq_max(s));
        } else {
            assert(s[j] == seq_max(s));
        }
    } else {
        assert(s.drop_last().len() == 0);
        assert(seq_min(s.drop_last()) == i64::MAX);
        assert(seq_max(s.drop_last()) == i64::MIN);
        assert(s[last] == seq_min(s));
        assert(s[last] == seq_max(s));
    }
}

/// After recalibration with the field's own stats, a field that is not flat
/// spans the display range exactly: every value lies in `0..=DISPLAY_MAX`,
/// the minimum maps to 0 and the maximum to `DISPLAY_MAX`.
pub proof fn lemma_recalibrate_extremes(s: Seq<i64>)
    requires
        s.len() > 0,
        seq_min(s) < seq_max(s),
    ensures
        forall|k: int|
            0 <= k < s.len() ==> 0 <= #[trigger] recalibrated_seq(s, stats_of(s))[k]
                <= DISPLAY_MAX,
        exists|k: int| 0 <= k < s.len() && recalibrated_seq(s, stats_of(s))[k] == 0,
        exists|k: int| 0 <= k < s.len() && recalibrated_seq(s, stats_of(s))[k] == DISPLAY_MAX,
{
    let st = stats_of(s);
    let r = recalibrated_seq(s, st);
    lemma_stats_bound(s);
    lemma_stats_attained(s);
    let lo = st.value_min as int;
    let hi = st.value_max as int;
    assert forall|k: int| 0 <= k < s.len() implies 0 <= #[trigger] r[k] <= DISPLAY_MAX by {
        let v = s[k] as int;
        assert(lo <= v <= hi);
        assert(0 <= (v - lo) * 255 / (hi - lo) <= 255) by (nonlinear_arith)
            requires
                lo <= v <= hi,
                lo < hi,
        ;
    }
    let i = choose|k: int| 0 <= k < s.len() && s[k] == seq_min(s);
    let j = choose|k: int| 0 <= k < s.len() && s[k] == seq_max(s);
    assert(r[i] == 0);
    assert((hi - lo) * 255 / (hi - lo) == 255) by (nonlinear_arith)
        requires
            lo < hi,
    ;
    assert(r[j] == DISPLAY_MAX);
}

/// After recalibration with its own stats, a flat field (all values equal)
/// is zero everywhere: nothing is divided by the empty range.
pub proof fn lemma_recalibrate_flat(s: Seq<i64>)
    requires
        forall|k: int| 0 <= k < s.len() ==> #[trigger] s[k] == s[0],
    ensures
        recalibrated_seq(s, stats_of(s)) == Seq::new(s.len(), |k: int| 0i64),
{
    if s.len() > 0 {
        lemma_stats_attained(s);
        let i = choose|k: int| 0 <= k < s.len() && s[k] == seq_min(s);
        let j = choose|k: int| 0 <= k < s.len() && s[k] == seq_max(s);
        assert(s[i] == s[0] && s[j] == s[0]);
        lemma_stats_bound(s);
    }
    assert(recalibrated_seq(s, stats_of(s)) =~= Seq::new(s.len(), |k: int| 0i64));
}

/// The CDF table of a well-formed histogram is non-decreasing, within the
/// display range, and ends at `DISPLAY_MAX` when some texel is included.
pub proof fn lemma_cdf_monotone(h: Histogram)
    requires
        h.wf(),
    ensures
        forall|i: int, j: int|
            0 <= i <= j < NUM_BUCKETS ==> 0 <= #[trigger] cdf_table(
                h.counts@,
                h.total_included as int,
            )[i] <= #[trigger] cdf_table(h.counts@, h.total_included as int)[j] <= DISPLAY_MAX,
        h.total_included > 0 ==> cdf_table(h.counts@, h.total_included as int)[NUM_BUCKETS - 1]
            == DISPLAY_MAX,
{
    let c = h.counts@;
    let t = h.total_included as int;
    assert forall|i: int, j: int| 0 <= i <= j < NUM_BUCKETS implies 0 <= #[trigger] cdf_table(
        c,
        t,
    )[i] <= #[trigger] cdf_table(c, t)[j] <= DISPLAY_MAX by {
        lemma_cdf_entry_bounds(c, t, i, j);
    }
    lemma_cdf_entry_bounds(c, t, NUM_BUCKETS - 1, NUM_BUCKETS - 1);
}

/// Equalizing through the CDF table of any well-formed histogram, in
/// particular one rebuilt from an already equalized field, keeps the order
/// of the texels: it only remaps values monotonically.
pub proof fn lemma_equalize_preserves_order(s: Seq<i64>, h: Histogram)
    requires
        h.wf(),
    ensures
        forall|i: int, j: int|
            0 <= i < s.len() && 0 <= j < s.len() && s[i] <= s[j] ==> #[trigger] equalized(
                s,
                cdf_table(h.counts@, h.total_included as int),
            )[i] <= #[trigger] equalized(s, cdf_table(h.counts@, h.total_included as int))[j],
{
    let c = h.counts@;
    let t = h.total_included as int;
    assert forall|i: int, j: int|
        0 <= i < s.len() && 0 <= j < s.len() && s[i] <= s[j] implies #[trigger] equalized(
        s,
        cdf_table(c, t),
    )[i] <= #[trigger] equalized(s, cdf_table(c, t))[j] by {
        lemma_cdf_entry_bounds(c, t, bucket_of(s[i] as int), bucket_of(s[j] as int));
    }
}

/// All post-processing records of one compute run.
#[derive(Debug)]
pub struct PostProcessingData {
    pub stats: GlobalStats,
    pub histogram: Histogram,
    pub cdf: Cdf,
}

impl Default for PostProcessingData {
    /// The identity record that a compute run starts from: stats at the
    /// identities of min and max, all counts and table entries zero.
    fn default() -> (r: Self)
        ensures
            r.stats == (GlobalStats { value_min: i64::MAX, value_max: i64::MIN }),
            r.histogram.wf(),
            r.histogram.counts@ == Seq::new(NUM_BUCKETS as nat, |b: int| 0usize),
            r.histogram.total_included == 0,
            r.cdf.table@ == Seq::new(NUM_BUCKETS as nat, |b: int| 0i64),
    {
        let mut counts: Vec<usize> = Vec::new();
        let mut table: Vec<i64> = Vec::new();
        let mut b: usize = 0;
        while b < NUM_BUCKETS
            invariant
                b <= NUM_BUCKETS,
                counts@.len() == b,
                table@.len() == b,
                forall|k: int| 0 <= k < b ==> counts@[k] == 0,
                forall|k: int| 0 <= k < b ==> table@[k] == 0,
            decreases NUM_BUCKETS - b,
        {
            counts.push(0);
            table.push(0);
            b = b + 1;
        }
        proof {
            lemma_prefix_sum_zeros(counts@, NUM_BUCKETS as int);
        }
        assert(counts@ =~= Seq::new(NUM_BUCKETS as nat, |b: int| 0usize));
        assert(table@ =~= Seq::new(NUM_BUCKETS as nat, |b: int| 0i64));
        PostProcessingData {
            stats: GlobalStats { value_min: i64::MAX, value_max: i64::MIN },
            histogram: Histogram { counts, total_included: 0 },
            cdf: Cdf { table },
        }
    }
}

proof fn lemma_prefix_sum_zeros(c: Seq<usize>, n: int)
    requires
        0 <= n <= c.len(),
        forall|k: int| 0 <= k < n ==> c[k] == 0,
    ensures
        prefix_sum(c, n) == 0,
    decreases n,
{
    if n > 0 {
        lemma_prefix_sum_zeros(c, n - 1);
    }
}

/// Runs the post-processing stages in order on a raw field: reduction,
/// recalibration, histogram of the texels above `threshold`, CDF and
/// equalization. Returns the records the stages produced.
pub fn post_process(canvas: &mut Vec<i64>, threshold: i64) -> (r: PostProcessingData)
    ensures
        r.stats == stats_of(old(canvas)@),
        r.histogram.wf(),
        r.histogram.counts@ == histogram_counts(
            recalibrated_seq(old(canvas)@, stats_of(old(canvas)@)),
            threshold,
        ),
        r.histogram.total_included == included_count(
            recalibrated_seq(old(canvas)@, stats_of(old(canvas)@)),
            threshold,
        ),
        r.cdf.table@ == cdf_table(r.histogram.counts@, r.histogram.total_included as int),
        final(canvas)@ == equalized(
            recalibrated_seq(old(canvas)@, stats_of(old(canvas)@)),
            r.cdf.table@,
        ),
{
    let stats = stats_reduction(canvas);
    proof {
        lemma_stats_bound(canvas@);
    }
    recalibrate(canvas, &stats);
    let histogram = build_histogram(canvas, threshold);
    let cdf = build_cdf(&histogram);
    equalize(canvas, &cdf);
    PostProcessingData { stats, histogram, cdf }
}

} // verus!
