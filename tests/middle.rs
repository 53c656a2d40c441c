use datahist::median::middle_values;

fn middle_of(values: &[f64]) -> Vec<f64> {
    middle_values(values.iter().map(|v| v.to_bits()).collect())
        .into_iter()
        .map(f64::from_bits)
        .collect()
}

fn median_of(values: &[f64]) -> f64 {
    let middle = middle_of(values);
    if middle.is_empty() {
        0.0
    } else {
        middle.iter().sum::<f64>() / middle.len() as f64
    }
}

#[test]
fn middle_of_odd_count() {
    assert_eq!(middle_of(&[8.0, 7.0, 9.0, 1.0, 2.0, 6.0, 3.0]), vec![6.0]);
}

#[test]
fn middle_of_even_count() {
    assert_eq!(middle_of(&[4.0, 5.0, 2.0, 1.0, 9.0, 10.0]), vec![4.0, 5.0]);
}

#[test]
fn middle_of_nothing() {
    assert!(middle_of(&[]).is_empty());
    assert_eq!(median_of(&[]), 0.0);
}

#[test]
fn middle_orders_negative_values() {
    assert_eq!(middle_of(&[-1.0, -3.0, 2.0, -10.0, 0.5]), vec![-1.0]);
    assert_eq!(middle_of(&[f64::NEG_INFINITY, -0.25, f64::INFINITY, -0.5]), vec![-0.5, -0.25]);
}

#[test]
fn correct_median() {
    assert_eq!(median_of(&[8.0, 7.0, 9.0, 1.0, 2.0, 6.0, 3.0]), 6.0);
    assert_eq!(median_of(&[4.0, 5.0, 2.0, 1.0, 9.0, 10.0]), 4.5);
}
