//! Assigning observations to buckets, and the scale at which counts are drawn.
use crate::number::{le_bits, lt_bits, num_le, num_lt};
use crate::stream::{total, DataPoint};
use vstd::prelude::*;

verus! {

/// The most glyphs that the busiest row is drawn with, up to rounding.
pub const MAX_DOT_COUNT: usize = 50;

/// The bucket of `v` when scanning from index `i`: the first boundary at
/// least `v`, and the last bucket when no earlier boundary is.
pub open spec fn bucket_from(v: u64, bs: Seq<u64>, i: int) -> int
    decreases bs.len() - i,
{
    if i >= bs.len() - 1 {
        bs.len() - 1
    } else if num_le(v, bs[i]) {
        i
    } else {
        bucket_from(v, bs, i + 1)
    }
}

pub open spec fn bucket_spec(v: u64, bs: Seq<u64>) -> int {
    bucket_from(v, bs, 0)
}

/// Whether `v` lies outside `[lo, hi]`; NaN lies inside no bound's reach and
/// is never outside.
pub open spec fn outside(v: u64, lo: u64, hi: u64) -> bool {
    num_lt(v, lo) || num_lt(hi, v)
}

/// The total count of the points that lie outside `[lo, hi]`.
pub open spec fn excluded_total(ps: Seq<DataPoint>, lo: u64, hi: u64) -> nat
    decreases ps.len(),
{
    if ps.len() == 0 {
        0
    } else {
        excluded_total(ps.drop_last(), lo, hi) + if outside(ps.last().value, lo, hi) {
            ps.last().count as nat
        } else {
            0
        }
    }
}

/// The total count of the points inside `[lo, hi]` that fall in bucket `b`.
pub open spec fn bucket_total(ps: Seq<DataPoint>, lo: u64, hi: u64, bs: Seq<u64>, b: int) -> nat
    decreases ps.len(),
{
    if ps.len() == 0 {
        0
    } else {
        let p = ps.last();
        bucket_total(ps.drop_last(), lo, hi, bs, b) + if !outside(p.value, lo, hi) && bucket_spec(
            p.value,
            bs,
        ) == b {
            p.count as nat
        } else {
            0
        }
    }
}

/// The largest of `cs`, 0 for none.
pub open spec fn max_count(cs: Seq<usize>) -> nat
    decreases cs.len(),
{
    if cs.len() == 0 {
        0
    } else if cs.last() > max_count(cs.drop_last()) {
        cs.last() as nat
    } else {
        max_count(cs.drop_last())
    }
}

/// What each glyph stands for when the largest count is `m`.
pub open spec fn scale_for(m: nat) -> nat {
    if m <= MAX_DOT_COUNT {
        1
    } else {
        m / MAX_DOT_COUNT as nat
    }
}

/// The counts of one histogram run.
#[derive(Debug)]
pub struct Report {
    /// Total count of all points.
    pub samples: usize,
    /// Total count of the points outside the range.
    pub excluded: usize,
    /// Count per bucket.
    pub bucket_counts: Vec<usize>,
}

/// The index of the bucket of `value`: the first boundary at least `value`,
/// else the last bucket.
pub fn bucket_of(value: u64, boundaries: &Vec<u64>) -> (r: usize)
    requires
        boundaries@.len() > 0,
    ensures
        r == bucket_spec(value, boundaries@),
        r < boundaries@.len(),
{
    let last = boundaries.len() - 1;
    let mut i: usize = 0;
    while i < last
        invariant
            last == boundaries@.len() - 1,
            i <= last,
            bucket_from(value, boundaries@, i as int) == bucket_spec(value, boundaries@),
        decreases last - i,
    {
        if le_bits(value, boundaries[i]) {
            return i;
        }
        i = i + 1;
    }
    last
}

/// Each part of the points is at most their total.
proof fn lemma_parts_within(ps: Seq<DataPoint>, lo: u64, hi: u64, bs: Seq<u64>, b: int)
    ensures
        bucket_total(ps, lo, hi, bs, b) <= total(ps),
        excluded_total(ps, lo, hi) <= total(ps),
    decreases ps.len(),
{
    if ps.len() > 0 {
        lemma_parts_within(ps.drop_last(), lo, hi, bs, b);
    }
}

/// The total of a prefix is at most the whole total.
proof fn lemma_prefix_total(ps: Seq<DataPoint>, k: int)
    requires
        0 <= k <= ps.len(),
    ensures
        total(ps.take(k)) <= total(ps),
    decreases ps.len() - k,
{
    if k < ps.len() {
        lemma_prefix_total(ps, k + 1);
        assert(ps.take(k + 1).drop_last() =~= ps.take(k));
    } else {
        assert(ps.take(k) =~= ps);
    }
}

/// Counts the points: in total, outside `[minimum, maximum]`, and per bucket
/// for those inside. Points of count 0 count nowhere.
pub fn aggregate(points: &Vec<DataPoint>, minimum: u64, maximum: u64, boundaries: &Vec<u64>) -> (r:
    Report)
    requires
        boundaries@.len() > 0,
        total(points@) <= usize::MAX,
    ensures
        r.samples == total(points@),
        r.excluded == excluded_total(points@, minimum, maximum),
        r.bucket_counts@.len() == boundaries@.len(),
        forall|b: int|
            0 <= b < boundaries@.len() ==> #[trigger] r.bucket_counts@[b] == bucket_total(
                points@,
                minimum,
                maximum,
                boundaries@,
                b,
            ),
{
    let n = boundaries.len();
    let mut counts: Vec<usize> = Vec::new();
    while counts.len() < n
        invariant
            counts@.len() <= n,
            forall|b: int| 0 <= b < counts@.len() ==> #[trigger] counts@[b] == 0,
        decreases n - counts@.len(),
    {
        counts.push(0);
    }
    let mut samples: usize = 0;
    let mut excluded: usize = 0;
    let mut k: usize = 0;
    while k < points.len()
        invariant
            n == boundaries@.len() > 0,
            k <= points@.len(),
            total(points@) <= usize::MAX,
            counts@.len() == n,
            samples == total(points@.take(k as int)),
            excluded == excluded_total(points@.take(k as int), minimum, maximum),
            forall|b: int|
                0 <= b < n ==> #[trigger] counts@[b] == bucket_total(
                    points@.take(k as int),
                    minimum,
                    maximum,
                    boundaries@,
                    b,
                ),
        decreases points@.len() - k,
    {
        let p = points[k];
        let ghost before = points@.take(k as int);
        let ghost after = points@.take(k as int + 1);
        proof {
            assert(after.drop_last() =~= before);
            assert(after.last() == p);
            lemma_prefix_total(points@, k as int + 1);
            lemma_parts_within(after, minimum, maximum, boundaries@, bucket_spec(p.value, boundaries@));
        }
        if p.count > 0 {
            samples = samples + p.count;
            if lt_bits(p.value, minimum) || lt_bits(maximum, p.value) {
                excluded = excluded + p.count;
            } else {
                let b = bucket_of(p.value, boundaries);
                let c = counts[b] + p.count;
                counts.set(b, c);
            }
        }
        k = k + 1;
    }
    assert(points@.take(points@.len() as int) =~= points@);
    Report { samples, excluded, bucket_counts: counts }
}

/// What each glyph stands for: 1 while the largest count is at most
/// [`MAX_DOT_COUNT`], else the largest count divided by it.
pub fn display_scale(counts: &Vec<usize>) -> (r: usize)
    ensures
        r == scale_for(max_count(counts@)),
        r >= 1,
{
    let mut m: usize = 0;
    let mut i: usize = 0;
    while i < counts.len()
        invariant
            i <= counts@.len(),
            m == max_count(counts@.take(i as int)),
        decreases counts@.len() - i,
    {
        proof {
            assert(counts@.take(i as int + 1).drop_last() =~= counts@.take(i as int));
        }
        if counts[i] > m {
            m = counts[i];
        }
        i = i + 1;
    }
    assert(counts@.take(counts@.len() as int) =~= counts@);
    if m > MAX_DOT_COUNT {
        m / MAX_DOT_COUNT
    } else {
        1
    }
}

/// How many glyphs a count is drawn with: none for a count of 0.
pub fn glyphs(count: usize, scale: usize) -> (r: usize)
    requires
        scale >= 1,
    ensures
        r == count / scale,
        count == 0 ==> r == 0,
{
    if count > 0 {
        count / scale
    } else {
        0
    }
}

} // verus!
