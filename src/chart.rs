//! The two charts: counts per key (bar) and counts per bucket (histogram).
use crate::bucket::{
    aggregate, bucket_total, display_scale, excluded_total, glyphs, max_count, scale_for, Report,
    MAX_DOT_COUNT,
};
use crate::counts::{as_map, keys_unique, KeyCounts};
use crate::format::LineFormat;
use crate::number::{le_bits, num_le};
use crate::stream::{total, StreamResult};
use vstd::prelude::*;

verus! {

/// Settings of the bar chart.
#[derive(Clone, Copy, Debug, PartialEq, Eq, Structural)]
pub struct BarArgs {
    pub format: LineFormat,
}

/// One row of the bar chart.
#[derive(Debug)]
pub struct BarRow {
    pub key: String,
    pub count: usize,
    /// How many glyphs the bar is drawn with.
    pub dots: usize,
}

/// A bar chart: one row per key, and what each glyph stands for.
#[derive(Debug)]
pub struct BarChart {
    pub scale: usize,
    pub rows: Vec<BarRow>,
}

pub open spec fn empty_input() -> Seq<char> {
    "empty input"@
}

pub open spec fn row_pairs(rows: Seq<BarRow>) -> Seq<(Seq<char>, nat)> {
    rows.map_values(|r: BarRow| (r.key@, r.count as nat))
}

pub open spec fn row_counts(rows: Seq<BarRow>) -> Seq<usize> {
    rows.map_values(|r: BarRow| r.count)
}

/// Lays counts per key out as bars, the busiest drawn with about
/// [`MAX_DOT_COUNT`] glyphs. No counts at all is an error.
pub fn bar(values: &KeyCounts) -> (r: Result<BarChart, String>)
    requires
        values.wf(),
    ensures
        if values@ == Map::<Seq<char>, nat>::empty() {
            r matches Err(e) && e@ == empty_input()
        } else {
            r matches Ok(c) && keys_unique(row_pairs(c.rows@)) && as_map(row_pairs(c.rows@))
                == values@ && c.scale == scale_for(max_count(row_counts(c.rows@))) && forall|i: int|
                0 <= i < c.rows@.len() ==> #[trigger] c.rows@[i].dots == c.rows@[i].count / c.scale
        },
{
    if values.is_empty() {
        return Err(String::from_str("empty input"));
    }
    let n = values.entries.len();
    let mut counts: Vec<usize> = Vec::new();
    let mut i: usize = 0;
    while i < n
        invariant
            n == values.entries@.len(),
            i <= n,
            counts@.len() == i,
            forall|j: int| 0 <= j < i ==> #[trigger] counts@[j] == values.entries@[j].1,
        decreases n - i,
    {
        counts.push(values.entries[i].1);
        i = i + 1;
    }
    let scale = display_scale(&counts);
    let mut rows: Vec<BarRow> = Vec::new();
    let mut i: usize = 0;
    while i < n
        invariant
            n == values.entries@.len() == counts@.len(),
            i <= n,
            scale >= 1,
            rows@.len() == i,
            forall|j: int| 0 <= j < n ==> #[trigger] counts@[j] == values.entries@[j].1,
            forall|j: int|
                #![trigger rows@[j]]
                0 <= j < i ==> rows@[j].key@ == values.entries@[j].0@ && rows@[j].count
                    == values.entries@[j].1 && rows@[j].dots == rows@[j].count / scale,
        decreases n - i,
    {
        let key = values.entries[i].0.clone();
        let count = values.entries[i].1;
        rows.push(BarRow { key, count, dots: glyphs(count, scale) });
        i = i + 1;
    }
    assert forall|j: int| 0 <= j < n implies #[trigger] row_counts(rows@)[j] == counts@[j] by {
        assert(rows@[j].count == values.entries@[j].1);
    }
    assert forall|j: int| 0 <= j < n implies #[trigger] row_pairs(rows@)[j] == values.pairs()[j] by {
        assert(rows@[j].count == values.entries@[j].1);
    }
    assert(row_pairs(rows@) =~= values.pairs());
    assert(row_counts(rows@) =~= counts@);
    Ok(BarChart { scale, rows })
}

/// The counts of a histogram run, and how they are drawn.
#[derive(Debug)]
pub struct HistogramReport {
    pub report: Report,
    /// What each glyph stands for.
    pub scale: usize,
    /// How many glyphs each bucket is drawn with.
    pub dots: Vec<usize>,
}

/// Counts the observations per bucket of `boundaries` over the range
/// `[minimum, maximum]` (all bit patterns of binary64 values), and scales the
/// bucket counts for drawing. No observations at all is an error.
pub fn histogram(data: &StreamResult, minimum: u64, maximum: u64, boundaries: &Vec<u64>) -> (r:
    Result<HistogramReport, String>)
    requires
        boundaries@.len() > 0,
        total(data.points@) <= usize::MAX,
    ensures
        if data.points@.len() == 0 {
            r matches Err(e) && e@ == empty_input()
        } else {
            r matches Ok(h) && h.report.samples == total(data.points@) && h.report.excluded
                == excluded_total(data.points@, minimum, maximum)
                && h.report.bucket_counts@.len() == boundaries@.len() && (forall|b: int|
                0 <= b < boundaries@.len() ==> #[trigger] h.report.bucket_counts@[b]
                    == bucket_total(data.points@, minimum, maximum, boundaries@, b)) && h.scale
                == scale_for(max_count(h.report.bucket_counts@)) && h.dots@.len()
                == boundaries@.len() && forall|b: int|
                0 <= b < boundaries@.len() ==> #[trigger] h.dots@[b] == h.report.bucket_counts@[b]
                    / h.scale
        },
{
    if data.points.len() == 0 {
        return Err(String::from_str("empty input"));
    }
    let report = aggregate(&data.points, minimum, maximum, boundaries);
    let scale = display_scale(&report.bucket_counts);
    let n = report.bucket_counts.len();
    let mut dots: Vec<usize> = Vec::new();
    let mut i: usize = 0;
    while i < n
        invariant
            n == report.bucket_counts@.len(),
            scale >= 1,
            i <= n,
            dots@.len() == i,
            forall|b: int| 0 <= b < i ==> #[trigger] dots@[b] == report.bucket_counts@[b] / scale,
        decreases n - i,
    {
        dots.push(glyphs(report.bucket_counts[i], scale));
        i = i + 1;
    }
    Ok(HistogramReport { report, scale, dots })
}

/// Bit pattern of the binary64 value 3.
pub const THREE: u64 = 0x4008_0000_0000_0000;

/// Bit pattern of the binary64 value 10.
pub const TEN: u64 = 0x4024_0000_0000_0000;

/// Bit pattern of the binary64 value 25.
pub const TWENTY_FIVE: u64 = 0x4039_0000_0000_0000;

/// Decimals shown for the bucket boundaries of a histogram.
pub open spec fn precision_for(log: bool, minimum: u64, span: u64) -> usize {
    if log {
        if num_le(minimum, TEN) {
            2
        } else if num_le(minimum, TWENTY_FIVE) {
            1
        } else {
            0
        }
    } else if num_le(span, THREE) {
        3
    } else if num_le(span, TEN) {
        2
    } else if num_le(span, TWENTY_FIVE) {
        1
    } else {
        0
    }
}

/// How many decimals the bucket boundaries are shown with: on a log scale
/// chosen by the minimum, else by the span (all bit patterns of binary64
/// values); finer for smaller numbers.
pub fn precision(log: bool, minimum: u64, span: u64) -> (r: usize)
    ensures
        r == precision_for(log, minimum, span),
{
    if log {
        if le_bits(minimum, TEN) {
            2
        } else if le_bits(minimum, TWENTY_FIVE) {
            1
        } else {
            0
        }
    } else if le_bits(span, THREE) {
        3
    } else if le_bits(span, TEN) {
        2
    } else if le_bits(span, TWENTY_FIVE) {
        1
    } else {
        0
    }
}

} // verus!
