use datahist::bucket::{aggregate, bucket_of, display_scale, glyphs, MAX_DOT_COUNT};
use datahist::chart::{bar, histogram, precision, TEN, THREE, TWENTY_FIVE};
use datahist::format::LineFormat;
use datahist::stream::{
    decode_point, numeric_fields, stream_data_points, stream_unique_values, DataPoint,
};

fn lines(texts: &[&str]) -> Vec<String> {
    texts.iter().map(|t| t.to_string()).collect()
}

fn readings(lines: &[String], format: LineFormat, keyed: bool) -> Vec<Vec<Option<u64>>> {
    lines
        .iter()
        .map(|line| {
            numeric_fields(line, format, keyed)
                .iter()
                .map(|text| text.parse::<f64>().ok().map(f64::to_bits))
                .collect()
        })
        .collect()
}

fn bits(values: &[f64]) -> Vec<u64> {
    values.iter().map(|v| v.to_bits()).collect()
}

#[test]
fn numeric_fields_per_format() {
    assert_eq!(numeric_fields("  4.5 ", LineFormat::Single, false), vec!["4.5"]);
    assert!(numeric_fields("key", LineFormat::Single, true).is_empty());
    assert_eq!(numeric_fields("a 3", LineFormat::KeyValue, false), vec!["a", "3"]);
    assert_eq!(numeric_fields("a 3", LineFormat::KeyValue, true), vec!["3"]);
    assert_eq!(numeric_fields("3 a", LineFormat::ValueKey, true), vec!["3"]);
    assert!(numeric_fields("   ", LineFormat::KeyValue, false).is_empty());
    assert!(numeric_fields("lonely", LineFormat::KeyValue, false).is_empty());
}

#[test]
fn decode_key_value_and_value_key() {
    let kv = decode_point("2.5 3", LineFormat::KeyValue, &bits(&[2.5, 3.0]).into_iter().map(Some).collect());
    assert_eq!(kv, Some(Ok(DataPoint { value: 2.5f64.to_bits(), count: 3 })));
    let vk = decode_point("3 2.5", LineFormat::ValueKey, &bits(&[3.0, 2.5]).into_iter().map(Some).collect());
    assert_eq!(vk, Some(Ok(DataPoint { value: 2.5f64.to_bits(), count: 3 })));
    let single = decode_point("7", LineFormat::Single, &vec![Some(7f64.to_bits())]);
    assert_eq!(single, Some(Ok(DataPoint { value: 7f64.to_bits(), count: 1 })));
    assert_eq!(decode_point("  ", LineFormat::Single, &vec![]), None);
}

#[test]
fn decode_errors() {
    assert_eq!(
        decode_point("1", LineFormat::KeyValue, &vec![]),
        Some(Err(String::from("expecting two values")))
    );
    assert_eq!(
        decode_point("x 1", LineFormat::KeyValue, &vec![None, Some(1f64.to_bits())]),
        Some(Err(String::from("invalid float literal")))
    );
    assert_eq!(
        decode_point("abc", LineFormat::Single, &vec![None]),
        Some(Err(String::from("invalid float literal")))
    );
}

#[test]
fn decoding_twice_gives_the_same_observation() {
    let rs = vec![Some(4f64.to_bits()), Some(2f64.to_bits())];
    let first = decode_point("4 2", LineFormat::KeyValue, &rs);
    let second = decode_point("4 2", LineFormat::KeyValue, &rs);
    assert_eq!(first, second);
    assert_eq!(first, Some(Ok(DataPoint { value: 4f64.to_bits(), count: 2 })));
}

#[test]
fn stream_finds_extremes_and_skips_blank_lines() {
    let input = lines(&["5", "", "  -2.5 ", "9", "\t"]);
    let data = stream_data_points(&input, LineFormat::Single, &readings(&input, LineFormat::Single, false)).unwrap();
    assert_eq!(data.points.len(), 3);
    assert_eq!(f64::from_bits(data.min), -2.5);
    assert_eq!(f64::from_bits(data.max), 9.0);
    assert_eq!(data.points[1], DataPoint { value: (-2.5f64).to_bits(), count: 1 });
}

#[test]
fn stream_reports_the_failing_line() {
    let input = lines(&["1", "", "oops"]);
    let result = stream_data_points(&input, LineFormat::Single, &readings(&input, LineFormat::Single, false));
    assert_eq!(result.unwrap_err(), "line 3: invalid float literal");
    let input = lines(&["1 2", "3"]);
    let result = stream_data_points(&input, LineFormat::KeyValue, &readings(&input, LineFormat::KeyValue, false));
    assert_eq!(result.unwrap_err(), "line 2: expecting two values");
}

#[test]
fn stream_rejects_a_total_past_usize() {
    let input = lines(&["1 1e30", "2 1"]);
    let result = stream_data_points(&input, LineFormat::KeyValue, &readings(&input, LineFormat::KeyValue, false));
    assert_eq!(result.unwrap_err(), "line 2: count overflow");
}

#[test]
fn end_to_end_histogram() {
    let input = lines(&["1", "2", "3", "100"]);
    let data = stream_data_points(&input, LineFormat::Single, &readings(&input, LineFormat::Single, false)).unwrap();
    let hist = histogram(&data, 0f64.to_bits(), 100f64.to_bits(), &bits(&[50.0, 100.0])).unwrap();
    assert_eq!(hist.report.bucket_counts, vec![3, 1]);
    assert_eq!(hist.report.excluded, 0);
    assert_eq!(hist.report.samples, 4);
    assert_eq!(hist.scale, 1);
    assert_eq!(hist.dots, vec![3, 1]);
}

#[test]
fn values_outside_the_range_are_excluded() {
    let points = vec![
        DataPoint { value: (-1f64).to_bits(), count: 2 },
        DataPoint { value: 5f64.to_bits(), count: 3 },
        DataPoint { value: 11f64.to_bits(), count: 4 },
        DataPoint { value: 10f64.to_bits(), count: 0 },
    ];
    let report = aggregate(&points, 0f64.to_bits(), 10f64.to_bits(), &bits(&[5.0, 10.0]));
    assert_eq!(report.samples, 9);
    assert_eq!(report.excluded, 6);
    assert_eq!(report.bucket_counts, vec![3, 0]);
}

#[test]
fn empty_input_is_an_error() {
    let input = lines(&["", "  ", "\t"]);
    let data = stream_data_points(&input, LineFormat::Single, &readings(&input, LineFormat::Single, false)).unwrap();
    assert!(data.points.is_empty());
    assert_eq!(
        histogram(&data, 0f64.to_bits(), 1f64.to_bits(), &bits(&[1.0])).unwrap_err(),
        "empty input"
    );
    let values = stream_unique_values(&input, LineFormat::Single, &readings(&input, LineFormat::Single, true)).unwrap();
    assert_eq!(bar(&values).unwrap_err(), "empty input");
}

#[test]
fn bucket_of_scans_for_the_first_boundary() {
    let bs = bits(&[25.0, 50.0, 75.0, 100.0]);
    assert_eq!(bucket_of(0f64.to_bits(), &bs), 0);
    assert_eq!(bucket_of(25f64.to_bits(), &bs), 0);
    assert_eq!(bucket_of(25.5f64.to_bits(), &bs), 1);
    assert_eq!(bucket_of(100f64.to_bits(), &bs), 3);
    assert_eq!(bucket_of(1000f64.to_bits(), &bs), 3);
    assert_eq!(bucket_of(f64::NAN.to_bits(), &bs), 3);
    assert_eq!(bucket_of(7f64.to_bits(), &bits(&[1.0])), 0);
}

#[test]
fn display_scale_and_glyphs() {
    assert_eq!(MAX_DOT_COUNT, 50);
    assert_eq!(display_scale(&vec![]), 1);
    assert_eq!(display_scale(&vec![10, 50, 3]), 1);
    assert_eq!(display_scale(&vec![51]), 1);
    assert_eq!(display_scale(&vec![7, 100]), 2);
    assert_eq!(display_scale(&vec![1234, 5]), 24);
    assert_eq!(glyphs(0, 24), 0);
    assert_eq!(glyphs(1234, 24), 51);
    assert_eq!(glyphs(5, 1), 5);
}

#[test]
fn bar_counts_per_key() {
    let input = lines(&["apple 2", "pear 1", "", "apple 3.7", "fig 0"]);
    let values = stream_unique_values(&input, LineFormat::KeyValue, &readings(&input, LineFormat::KeyValue, true)).unwrap();
    assert_eq!(values.get("apple"), 5);
    assert_eq!(values.get("pear"), 1);
    assert_eq!(values.get("fig"), 0);
    assert_eq!(values.get("plum"), 0);
    let chart = bar(&values).unwrap();
    assert_eq!(chart.scale, 1);
    assert_eq!(chart.rows.len(), 2);
    assert_eq!(chart.rows[0].key, "apple");
    assert_eq!(chart.rows[0].count, 5);
    assert_eq!(chart.rows[0].dots, 5);
    assert_eq!(chart.rows[1].key, "pear");
    assert_eq!(chart.rows[1].dots, 1);
    assert!(chart.rows.iter().all(|row| row.key != "fig"));
}

#[test]
fn bar_single_and_value_key() {
    let input = lines(&[" a ", "b", "a"]);
    let values = stream_unique_values(&input, LineFormat::Single, &readings(&input, LineFormat::Single, true)).unwrap();
    assert_eq!(values.get("a"), 2);
    assert_eq!(values.get("b"), 1);
    let input = lines(&["120 x", "30 y"]);
    let values = stream_unique_values(&input, LineFormat::ValueKey, &readings(&input, LineFormat::ValueKey, true)).unwrap();
    let chart = bar(&values).unwrap();
    assert_eq!(chart.scale, 2);
    assert_eq!(chart.rows[0].dots, 60);
    assert_eq!(chart.rows[1].dots, 15);
}

#[test]
fn bar_errors_name_the_line() {
    let input = lines(&["a 1", "b"]);
    let result = stream_unique_values(&input, LineFormat::KeyValue, &readings(&input, LineFormat::KeyValue, true));
    assert_eq!(result.unwrap_err(), "line 2: expecting two values");
    let input = lines(&["a x"]);
    let result = stream_unique_values(&input, LineFormat::KeyValue, &readings(&input, LineFormat::KeyValue, true));
    assert_eq!(result.unwrap_err(), "line 1: invalid float literal");
    let input = lines(&["a 1e30", "b 1", "a 1e30"]);
    let result = stream_unique_values(&input, LineFormat::KeyValue, &readings(&input, LineFormat::KeyValue, true));
    assert_eq!(result.unwrap_err(), "line 3: count overflow");
}

#[test]
fn boundary_precision_follows_the_range() {
    assert_eq!(THREE, 3f64.to_bits());
    assert_eq!(TEN, 10f64.to_bits());
    assert_eq!(TWENTY_FIVE, 25f64.to_bits());
    let p = |log: bool, minimum: f64, span: f64| precision(log, minimum.to_bits(), span.to_bits());
    assert_eq!(p(false, 0.0, 3.0), 3);
    assert_eq!(p(false, 0.0, 0.0), 3);
    assert_eq!(p(false, 0.0, 3.5), 2);
    assert_eq!(p(false, 0.0, 10.0), 2);
    assert_eq!(p(false, 0.0, 24.9), 1);
    assert_eq!(p(false, 0.0, 100.0), 0);
    assert_eq!(p(false, 0.0, f64::NAN), 0);
    assert_eq!(p(true, -5.0, 1000.0), 2);
    assert_eq!(p(true, 10.0, 1000.0), 2);
    assert_eq!(p(true, 20.0, 1.0), 1);
    assert_eq!(p(true, 30.0, 1.0), 0);
}

#[test]
fn weight_zero_lines_are_discarded() {
    let input = lines(&["fig 0", "kiwi -3"]);
    let values = stream_unique_values(&input, LineFormat::KeyValue, &readings(&input, LineFormat::KeyValue, true)).unwrap();
    assert!(values.entries.is_empty());
    assert_eq!(bar(&values).unwrap_err(), "empty input");

    let input = lines(&["-50 0", "4 1", "7 2", "99 0.5"]);
    let data = stream_data_points(&input, LineFormat::KeyValue, &readings(&input, LineFormat::KeyValue, false)).unwrap();
    assert_eq!(data.points.len(), 4);
    assert_eq!(f64::from_bits(data.min), 4.0);
    assert_eq!(f64::from_bits(data.max), 7.0);

    let input = lines(&["3 0"]);
    let data = stream_data_points(&input, LineFormat::KeyValue, &readings(&input, LineFormat::KeyValue, false)).unwrap();
    assert_eq!(data.min, f64::MAX.to_bits());
    assert_eq!(data.max, f64::MIN.to_bits());
}

#[test]
fn repeated_lines_add_up() {
    let input = lines(&["k 3", "k 3", "k 3", "k 3"]);
    let values = stream_unique_values(&input, LineFormat::KeyValue, &readings(&input, LineFormat::KeyValue, true)).unwrap();
    assert_eq!(values.get("k"), 12);
    assert_eq!(values.entries.len(), 1);
}
