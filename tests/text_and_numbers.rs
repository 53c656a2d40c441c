use datahist::format::{same_text, LineFormat};
use datahist::number::{count_of, le_bits, lt_bits, nan_bits};
use datahist::text::{blank, decimal_string, line_error, trim, tuple};

#[test]
fn tuple_takes_first_two_words() {
    assert_eq!(tuple("  alpha \t beta gamma "), Ok(("alpha", "beta")));
    assert_eq!(tuple("x y"), Ok(("x", "y")));
}

#[test]
fn tuple_needs_two_words() {
    assert_eq!(tuple("alone"), Err(String::from("expecting two values")));
    assert_eq!(tuple("   "), Err(String::from("expecting two values")));
    assert_eq!(tuple(""), Err(String::from("expecting two values")));
}

#[test]
fn trim_and_blank() {
    assert_eq!(trim("  a b \t"), "a b");
    assert_eq!(trim("\u{3000}x\u{a0}"), "x");
    assert_eq!(trim(" \t "), "");
    assert!(blank(" \t\u{2003}"));
    assert!(blank(""));
    assert!(!blank(" 1 "));
}

#[test]
fn decimal_notation() {
    assert_eq!(decimal_string(0), "0");
    assert_eq!(decimal_string(7), "7");
    assert_eq!(decimal_string(1234), "1234");
    assert_eq!(decimal_string(100), "100");
}

#[test]
fn line_error_counts_from_one() {
    assert_eq!(line_error(0, "bad"), "line 1: bad");
    assert_eq!(line_error(41, "expecting two values"), "line 42: expecting two values");
}

#[test]
fn line_format_names() {
    assert_eq!(LineFormat::from_name("single"), Ok(LineFormat::Single));
    assert_eq!(LineFormat::from_name("kv"), Ok(LineFormat::KeyValue));
    assert_eq!(LineFormat::from_name("vk"), Ok(LineFormat::ValueKey));
    assert_eq!(
        LineFormat::from_name("tsv"),
        Err(String::from("unknown line format: 'tsv'"))
    );
    assert_eq!("kv".parse::<LineFormat>(), Ok(LineFormat::KeyValue));
    assert!("KV".parse::<LineFormat>().is_err());
}

#[test]
fn same_text_compares_characters() {
    assert!(same_text("abc", "abc"));
    assert!(!same_text("abc", "abd"));
    assert!(!same_text("abc", "ab"));
    assert!(same_text("", ""));
}

fn samples() -> Vec<f64> {
    vec![
        0.0,
        -0.0,
        1.0,
        -1.0,
        0.5,
        -0.5,
        2.75,
        1e-310,
        -1e-310,
        1e300,
        -1e300,
        f64::MAX,
        f64::MIN,
        f64::INFINITY,
        f64::NEG_INFINITY,
        f64::NAN,
        -f64::NAN,
        3.0,
        100.0,
    ]
}

#[test]
fn comparisons_match_binary64() {
    for a in samples() {
        for b in samples() {
            assert_eq!(le_bits(a.to_bits(), b.to_bits()), a <= b, "{} <= {}", a, b);
            assert_eq!(lt_bits(a.to_bits(), b.to_bits()), a < b, "{} < {}", a, b);
        }
        assert_eq!(nan_bits(a.to_bits()), a.is_nan());
    }
}

#[test]
fn counts_match_the_cast() {
    let mut values = samples();
    values.extend([
        1.9999,
        2.0,
        12345.678,
        4503599627370496.0,
        9007199254740993.0,
        1.8446744073709552e19,
        1.8e19,
        9.3e18,
        -7.0,
    ]);
    for v in values {
        assert_eq!(count_of(v.to_bits()), v as usize, "{}", v);
    }
    assert_eq!(count_of(2.9_f64.to_bits()), 2);
    assert_eq!(count_of(f64::NAN.to_bits()), 0);
    assert_eq!(count_of(f64::INFINITY.to_bits()), usize::MAX);
}

#[test]
fn white_space_matches_std() {
    for c in (0u32..0x11_0000).filter_map(char::from_u32) {
        assert_eq!(blank(&c.to_string()), c.is_whitespace(), "{:?}", c);
    }
}
