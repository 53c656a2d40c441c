//! Decoding a stream of lines into weighted observations.
//!
//! Numeric fields are read by the caller, who hands over, for each line, the
//! bit pattern of every field that [`numeric_fields`] names (`None` where the
//! text is no float literal). Everything else is decided here.
use crate::counts::{count_in, KeyCounts};
use crate::format::LineFormat;
use crate::number::{count_of, count_value, lt_bits, num_lt, LARGEST_FINITE, SMALLEST_FINITE};
use crate::text::{blank, is_blank, line_error, line_message, trim, trimmed, tuple, two_words};
use vstd::prelude::*;

verus! {

/// One observation: a value and how many times it was seen.
#[derive(Clone, Copy, Debug, PartialEq, Eq, Structural)]
pub struct DataPoint {
    /// Bit pattern of the binary64 value.
    pub value: u64,
    pub count: usize,
}

/// All observations of a stream, with the least and greatest value among
/// those of count above 0.
#[derive(Debug)]
pub struct StreamResult {
    pub points: Vec<DataPoint>,
    /// Bit pattern of the least value of a point of count above 0 (the largest
    /// finite binary64 for none).
    pub min: u64,
    /// Bit pattern of the greatest value of a point of count above 0 (the most
    /// negative finite binary64 for none).
    pub max: u64,
}

/// The message of a numeric field that holds no float literal.
pub open spec fn invalid_number() -> Seq<char> {
    "invalid float literal"@
}

/// The message of a line whose total weight no longer fits a `usize`.
pub open spec fn count_overflow() -> Seq<char> {
    "count overflow"@
}

/// The texts of a line that are read as numbers, in the order they are read.
/// With `keyed`, the value field is an opaque key and only the weight is a number.
pub open spec fn numeric_texts(s: Seq<char>, format: LineFormat, keyed: bool) -> Seq<Seq<char>> {
    if is_blank(s) {
        Seq::empty()
    } else {
        match format {
            LineFormat::Single => if keyed { Seq::empty() } else { seq![trimmed(s)] },
            _ => match two_words(s) {
                None => Seq::empty(),
                Some((a, b)) => if !keyed {
                    seq![a, b]
                } else if format == LineFormat::KeyValue {
                    seq![b]
                } else {
                    seq![a]
                },
            },
        }
    }
}

/// The `k`-th reading handed over for a line; a missing one reads as `None`.
pub open spec fn reading(rs: Seq<Option<u64>>, k: int) -> Option<u64> {
    if 0 <= k < rs.len() {
        rs[k]
    } else {
        None
    }
}

/// The readings handed over for line `i`; none for a missing line.
pub open spec fn line_readings(readings: Seq<Vec<Option<u64>>>, i: int) -> Seq<Option<u64>> {
    if 0 <= i < readings.len() {
        readings[i]@
    } else {
        Seq::empty()
    }
}

/// What one line contributes: nothing for a blank line, else the observation
/// or the error message.
pub open spec fn point_of(s: Seq<char>, format: LineFormat, rs: Seq<Option<u64>>) -> Option<
    Result<DataPoint, Seq<char>>,
> {
    if is_blank(s) {
        None
    } else {
        match format {
            LineFormat::Single => match reading(rs, 0) {
                None => Some(Err(invalid_number())),
                Some(v) => Some(Ok(DataPoint { value: v, count: 1 })),
            },
            _ => match two_words(s) {
                None => Some(Err("expecting two values"@)),
                Some(_) => match (reading(rs, 0), reading(rs, 1)) {
                    (Some(a), Some(b)) => Some(
                        Ok(
                            if format == LineFormat::KeyValue {
                                DataPoint { value: a, count: count_value(b) as usize }
                            } else {
                                DataPoint { value: b, count: count_value(a) as usize }
                            },
                        ),
                    ),
                    _ => Some(Err(invalid_number())),
                },
            },
        }
    }
}

/// The sum of the counts of `ps`.
pub open spec fn total(ps: Seq<DataPoint>) -> nat
    decreases ps.len(),
{
    if ps.len() == 0 {
        0
    } else {
        total(ps.drop_last()) + ps.last().count as nat
    }
}

/// The observations of the first `n` lines, or the error of the first line
/// that fails; a line that takes the total count past `usize::MAX` fails.
pub open spec fn points_of(
    lines: Seq<String>,
    format: LineFormat,
    readings: Seq<Vec<Option<u64>>>,
    n: int,
) -> Result<Seq<DataPoint>, Seq<char>>
    decreases n,
{
    if n <= 0 {
        Ok(Seq::empty())
    } else {
        match points_of(lines, format, readings, n - 1) {
            Err(e) => Err(e),
            Ok(ps) => match point_of(lines[n - 1]@, format, line_readings(readings, n - 1)) {
                None => Ok(ps),
                Some(Err(msg)) => Err(line_message((n - 1) as nat, msg)),
                Some(Ok(p)) => if total(ps) + p.count > usize::MAX {
                    Err(line_message((n - 1) as nat, count_overflow()))
                } else {
                    Ok(ps.push(p))
                },
            },
        }
    }
}

/// `min` of binary64 values, for a running minimum that is never NaN: a NaN
/// `v` leaves it as it is.
pub open spec fn lower(m: u64, v: u64) -> u64 {
    if num_lt(v, m) {
        v
    } else {
        m
    }
}

/// `max` of binary64 values, for a running maximum that is never NaN.
pub open spec fn upper(m: u64, v: u64) -> u64 {
    if num_lt(m, v) {
        v
    } else {
        m
    }
}

/// The least value of the points of `ps` whose count is above 0, starting
/// from the largest finite binary64; points of count 0 are discarded.
pub open spec fn least(ps: Seq<DataPoint>) -> u64
    decreases ps.len(),
{
    if ps.len() == 0 {
        LARGEST_FINITE
    } else {
        if ps.last().count > 0 {
            lower(least(ps.drop_last()), ps.last().value)
        } else {
            least(ps.drop_last())
        }
    }
}

/// The greatest value of the points of `ps` whose count is above 0, starting
/// from the most negative finite binary64; points of count 0 are discarded.
pub open spec fn greatest(ps: Seq<DataPoint>) -> u64
    decreases ps.len(),
{
    if ps.len() == 0 {
        SMALLEST_FINITE
    } else {
        if ps.last().count > 0 {
            upper(greatest(ps.drop_last()), ps.last().value)
        } else {
            greatest(ps.drop_last())
        }
    }
}

/// The texts of `line` that the decoder reads as numbers, in order.
pub fn numeric_fields<'a>(line: &'a str, format: LineFormat, keyed: bool) -> (r: Vec<&'a str>)
    ensures
        r@.len() == numeric_texts(line@, format, keyed).len(),
        forall|k: int| 0 <= k < r@.len() ==> #[trigger] r@[k]@ == numeric_texts(line@, format, keyed)[k],
{
    let mut r: Vec<&'a str> = Vec::new();
    if blank(line) {
        return r;
    }
    match format {
        LineFormat::Single => {
            if !keyed {
                r.push(trim(line));
            }
        },
        _ => {
            if let Ok((a, b)) = tuple(line) {
                if !keyed {
                    r.push(a);
                    r.push(b);
                } else if format == LineFormat::KeyValue {
                    r.push(b);
                } else {
                    r.push(a);
                }
            }
        },
    }
    r
}

fn take_reading(rs: &Vec<Option<u64>>, k: usize) -> (r: Option<u64>)
    ensures
        r == reading(rs@, k as int),
{
    if k < rs.len() {
        rs[k]
    } else {
        None
    }
}

/// `r` is what decoding line `s` gives.
pub open spec fn decoded(
    s: Seq<char>,
    format: LineFormat,
    rs: Seq<Option<u64>>,
    r: Option<Result<DataPoint, String>>,
) -> bool {
    match point_of(s, format, rs) {
        None => r is None,
        Some(Ok(p)) => r == Some(Ok::<DataPoint, String>(p)),
        Some(Err(msg)) => r matches Some(Err(e)) && e@ == msg,
    }
}

/// Decoding the same line twice, with the same format and the same readings,
/// gives the same observation both times, or fails with the same message.
pub proof fn lemma_decode_repeatable(
    s: Seq<char>,
    format: LineFormat,
    rs: Seq<Option<u64>>,
    r1: Option<Result<DataPoint, String>>,
    r2: Option<Result<DataPoint, String>>,
)
    requires
        decoded(s, format, rs, r1),
        decoded(s, format, rs, r2),
    ensures
        r1 is None <==> r2 is None,
        r1 matches Some(Ok(p1)) ==> r2 == Some(Ok::<DataPoint, String>(p1)),
        r1 matches Some(Err(e1)) ==> r2 matches Some(Err(e2)) && e1@ == e2@,
{
}

/// Decodes one line into an observation.
pub fn decode_point(line: &str, format: LineFormat, rs: &Vec<Option<u64>>) -> (r: Option<
    Result<DataPoint, String>,
>)
    ensures
        decoded(line@, format, rs@, r),
{
    if blank(line) {
        return None;
    }
    match format {
        LineFormat::Single => match take_reading(rs, 0) {
            None => Some(Err(String::from_str("invalid float literal"))),
            Some(v) => Some(Ok(DataPoint { value: v, count: 1 })),
        },
        _ => {
            match tuple(line) {
                Err(e) => Some(Err(e)),
                Ok(_) => match (take_reading(rs, 0), take_reading(rs, 1)) {
                    (Some(a), Some(b)) => if format == LineFormat::KeyValue {
                        Some(Ok(DataPoint { value: a, count: count_of(b) }))
                    } else {
                        Some(Ok(DataPoint { value: b, count: count_of(a) }))
                    },
                    _ => Some(Err(String::from_str("invalid float literal"))),
                },
            }
        },
    }
}

/// Decodes every line, in order, into observations, and finds the least and
/// greatest value among those of count above 0. Stops at the first line that fails, with its message.
pub fn stream_data_points(
    lines: &Vec<String>,
    format: LineFormat,
    readings: &Vec<Vec<Option<u64>>>,
) -> (r: Result<StreamResult, String>)
    ensures
        match points_of(lines@, format, readings@, lines@.len() as int) {
            Ok(ps) => r matches Ok(s) && s.points@ == ps && s.min == least(ps) && s.max == greatest(
                ps,
            ),
            Err(msg) => r matches Err(e) && e@ == msg,
        },
{
    let mut points: Vec<DataPoint> = Vec::new();
    let mut min = LARGEST_FINITE;
    let mut max = SMALLEST_FINITE;
    let mut sum: usize = 0;
    let mut i: usize = 0;
    while i < lines.len()
        invariant
            i <= lines@.len(),
            points_of(lines@, format, readings@, i as int) == Ok::<Seq<DataPoint>, Seq<char>>(
                points@,
            ),
            sum == total(points@),
            min == least(points@),
            max == greatest(points@),
        decreases lines@.len() - i,
    {
        let empty: Vec<Option<u64>> = Vec::new();
        let rs = if i < readings.len() { &readings[i] } else { &empty };
        assert(rs@ == line_readings(readings@, i as int));
        match decode_point(lines[i].as_str(), format, rs) {
            None => {},
            Some(Err(msg)) => {
                proof {
                    lemma_points_fail(lines@, format, readings@, i as int + 1);
                }
                return Err(line_error(i, msg.as_str()));
            },
            Some(Ok(p)) => {
                if p.count > usize::MAX - sum {
                    proof {
                        lemma_points_fail(lines@, format, readings@, i as int + 1);
                    }
                    return Err(line_error(i, "count overflow"));
                }
                proof {
                    assert(points@.push(p).drop_last() =~= points@);
                }
                sum = sum + p.count;
                if p.count > 0 {
                    if lt_bits(p.value, min) {
                        min = p.value;
                    }
                    if lt_bits(max, p.value) {
                        max = p.value;
                    }
                }
                points.push(p);
            },
        }
        i = i + 1;
    }
    Ok(StreamResult { points, min, max })
}

/// Once a prefix of the lines fails, every longer prefix fails the same way.
proof fn lemma_points_fail(
    lines: Seq<String>,
    format: LineFormat,
    readings: Seq<Vec<Option<u64>>>,
    n: int,
)
    requires
        0 <= n <= lines.len(),
        points_of(lines, format, readings, n) is Err,
    ensures
        points_of(lines, format, readings, lines.len() as int) == points_of(lines, format, readings, n),
    decreases lines.len() - n,
{
    if n < lines.len() {
        lemma_points_fail(lines, format, readings, n + 1);
    }
}

/// What one line contributes to the counts per key: nothing for a blank
/// line, else a key with its count, or the error message.
pub open spec fn entry_of(s: Seq<char>, format: LineFormat, rs: Seq<Option<u64>>) -> Option<
    Result<(Seq<char>, nat), Seq<char>>,
> {
    if is_blank(s) {
        None
    } else {
        match format {
            LineFormat::Single => Some(Ok((trimmed(s), 1))),
            _ => match two_words(s) {
                None => Some(Err("expecting two values"@)),
                Some((a, b)) => match reading(rs, 0) {
                    None => Some(Err(invalid_number())),
                    Some(c) => Some(
                        Ok(
                            if format == LineFormat::KeyValue {
                                (a, count_value(c))
                            } else {
                                (b, count_value(c))
                            },
                        ),
                    ),
                },
            },
        }
    }
}

/// The counts per key of the first `n` lines, or the error of the first line
/// that fails; a line of count 0 is discarded, and a line that takes its
/// key's count past `usize::MAX` fails.
pub open spec fn tally_of(
    lines: Seq<String>,
    format: LineFormat,
    readings: Seq<Vec<Option<u64>>>,
    n: int,
) -> Result<Map<Seq<char>, nat>, Seq<char>>
    decreases n,
{
    if n <= 0 {
        Ok(Map::empty())
    } else {
        match tally_of(lines, format, readings, n - 1) {
            Err(e) => Err(e),
            Ok(m) => match entry_of(lines[n - 1]@, format, line_readings(readings, n - 1)) {
                None => Ok(m),
                Some(Err(msg)) => Err(line_message((n - 1) as nat, msg)),
                Some(Ok((k, c))) => if c == 0 {
                    Ok(m)
                } else if count_in(m, k) + c > usize::MAX {
                    Err(line_message((n - 1) as nat, count_overflow()))
                } else {
                    Ok(m.insert(k, count_in(m, k) + c))
                },
            },
        }
    }
}

/// Decoding depends on a line's text and readings alone: a stream of `n`
/// copies of one line, with the same readings each time, counts that line's
/// key `n` times its count (and nothing at all for a count of 0).
pub proof fn lemma_repeated_line_tally(
    lines: Seq<String>,
    format: LineFormat,
    readings: Seq<Vec<Option<u64>>>,
    t: Seq<char>,
    rs: Seq<Option<u64>>,
    k: Seq<char>,
    c: nat,
    n: int,
)
    requires
        0 <= n <= lines.len(),
        forall|i: int|
            0 <= i < lines.len() ==> #[trigger] lines[i]@ == t && line_readings(readings, i) == rs,
        entry_of(t, format, rs) == Some(Ok::<(Seq<char>, nat), Seq<char>>((k, c))),
        n * c <= usize::MAX,
    ensures
        tally_of(lines, format, readings, n) == Ok::<Map<Seq<char>, nat>, Seq<char>>(
            if c == 0 || n == 0 {
                Map::empty()
            } else {
                Map::empty().insert(k, (n * c) as nat)
            },
        ),
    decreases n,
{
    if n > 0 {
        assert((n - 1) * c <= n * c) by (nonlinear_arith)
            requires
                n > 0,
        ;
        lemma_repeated_line_tally(lines, format, readings, t, rs, k, c, n - 1);
        assert(lines[n - 1]@ == t);
        if c > 0 {
            assert((n - 1) * c + c == n * c) by (nonlinear_arith);
            let m = if n - 1 == 0 {
                Map::<Seq<char>, nat>::empty()
            } else {
                Map::empty().insert(k, ((n - 1) * c) as nat)
            };
            assert(m.insert(k, (count_in(m, k) + c) as nat) =~= Map::empty().insert(
                k,
                (n * c) as nat,
            ));
        }
    }
}

/// Decodes one line into a key and its count.
pub fn decode_entry(line: &str, format: LineFormat, rs: &Vec<Option<u64>>) -> (r: Option<
    Result<(String, usize), String>,
>)
    ensures
        match entry_of(line@, format, rs@) {
            None => r is None,
            Some(Ok((k, c))) => r matches Some(Ok((key, count))) && key@ == k && count == c,
            Some(Err(msg)) => r matches Some(Err(e)) && e@ == msg,
        },
{
    if blank(line) {
        return None;
    }
    match format {
        LineFormat::Single => Some(Ok((String::from_str(trim(line)), 1))),
        _ => {
            match tuple(line) {
                Err(e) => Some(Err(e)),
                Ok((a, b)) => match take_reading(rs, 0) {
                    None => Some(Err(String::from_str("invalid float literal"))),
                    Some(c) => if format == LineFormat::KeyValue {
                        Some(Ok((String::from_str(a), count_of(c))))
                    } else {
                        Some(Ok((String::from_str(b), count_of(c))))
                    },
                },
            }
        },
    }
}

/// Once a prefix of the lines fails, every longer prefix fails the same way.
proof fn lemma_tally_fail(
    lines: Seq<String>,
    format: LineFormat,
    readings: Seq<Vec<Option<u64>>>,
    n: int,
)
    requires
        0 <= n <= lines.len(),
        tally_of(lines, format, readings, n) is Err,
    ensures
        tally_of(lines, format, readings, lines.len() as int) == tally_of(lines, format, readings, n),
    decreases lines.len() - n,
{
    if n < lines.len() {
        lemma_tally_fail(lines, format, readings, n + 1);
    }
}

/// Decodes every line, in order, into keys with counts, and sums the counts
/// per key; lines of count 0 are discarded. Stops at the first line that
/// fails, with its message.
pub fn stream_unique_values(
    lines: &Vec<String>,
    format: LineFormat,
    readings: &Vec<Vec<Option<u64>>>,
) -> (r: Result<KeyCounts, String>)
    ensures
        match tally_of(lines@, format, readings@, lines@.len() as int) {
            Ok(m) => r matches Ok(c) && c.wf() && c@ == m,
            Err(msg) => r matches Err(e) && e@ == msg,
        },
{
    let mut map = KeyCounts::new();
    let mut i: usize = 0;
    while i < lines.len()
        invariant
            i <= lines@.len(),
            map.wf(),
            tally_of(lines@, format, readings@, i as int) == Ok::<Map<Seq<char>, nat>, Seq<char>>(
                map@,
            ),
        decreases lines@.len() - i,
    {
        let empty: Vec<Option<u64>> = Vec::new();
        let rs = if i < readings.len() { &readings[i] } else { &empty };
        assert(rs@ == line_readings(readings@, i as int));
        match decode_entry(lines[i].as_str(), format, rs) {
            None => {},
            Some(Err(msg)) => {
                proof {
                    lemma_tally_fail(lines@, format, readings@, i as int + 1);
                }
                return Err(line_error(i, msg.as_str()));
            },
            Some(Ok((key, count))) => if count > 0 {
                if count > usize::MAX - map.get(key.as_str()) {
                    proof {
                        lemma_tally_fail(lines@, format, readings@, i as int + 1);
                    }
                    return Err(line_error(i, "count overflow"));
                }
                map.add(key.as_str(), count);
            },
        }
        i = i + 1;
    }
    Ok(map)
}

} // verus!
