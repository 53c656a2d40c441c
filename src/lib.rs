//! Streaming aggregation for text-mode histograms and bar charts.
//!
//! Numbers are IEEE-754 binary64 values held as their bit patterns (`u64`):
//! the library orders them, truncates them to counts and buckets them, while
//! arithmetic on them is left to the caller.
pub mod bucket;
pub mod chart;
pub mod counts;
pub mod format;
pub mod median;
pub mod number;
pub mod stream;
pub mod text;
