use stockshark::text::{chars_of, parse_decimal, split_words};

fn words(s: &str) -> Vec<String> {
    split_words(&chars_of(s)).into_iter().map(|w| w.into_iter().collect()).collect()
}

#[test]
fn splitting_on_white_space() {
    assert_eq!(words("  a  bc\td \n"), vec!["a", "bc", "d"]);
    assert!(words("").is_empty());
    assert!(words(" \t ").is_empty());
    assert_eq!(words("x\u{3000}y"), vec!["x", "y"]);
    assert_eq!(words("one"), vec!["one"]);
}

#[test]
fn decimal_parsing() {
    let p = |s: &str, max: u64| parse_decimal(&chars_of(s), max);
    assert_eq!(p("12", 100), Some(12));
    assert_eq!(p("+12", 100), Some(12));
    assert_eq!(p("007", 100), Some(7));
    assert_eq!(p("", 100), None);
    assert_eq!(p("+", 100), None);
    assert_eq!(p("-1", 100), None);
    assert_eq!(p("1a", 100), None);
    assert_eq!(p("4294967295", u32::MAX as u64), Some(4294967295));
    assert_eq!(p("4294967296", u32::MAX as u64), None);
    assert_eq!(p("18446744073709551615", u64::MAX), Some(u64::MAX));
    assert_eq!(p("18446744073709551616", u64::MAX), None);
}
