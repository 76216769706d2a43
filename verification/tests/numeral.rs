use nautilus_oracle::numeral::{parse_numeral, Decimal};

fn chars(s: &str) -> Vec<char> {
    s.chars().collect()
}

fn read(s: &str) -> Option<(bool, String, String)> {
    parse_numeral(&chars(s))
        .map(|d| (d.is_negative(), d.whole().iter().collect(), d.fraction().iter().collect()))
}

fn fixed2(s: &str) -> String {
    parse_numeral(&chars(s)).unwrap().fixed2().iter().collect()
}

#[test]
fn numerals_are_read() {
    assert_eq!(read("105000"), Some((false, "105000".to_string(), "".to_string())));
    assert_eq!(read("95000.5"), Some((false, "95000".to_string(), "5".to_string())));
    assert_eq!(read("-0.25"), Some((true, "0".to_string(), "25".to_string())));
    assert_eq!(read("5."), Some((false, "5".to_string(), "".to_string())));
    assert_eq!(read(".5"), Some((false, "".to_string(), "5".to_string())));
}

#[test]
fn what_is_no_numeral_is_refused() {
    for s in ["", ".", "-", "-.", "1,000", "12x", "+5", "1e", "1e+", "1e5x", "1.2.3", " 1", "e5", "1e12345"] {
        assert_eq!(read(s), None, "{}", s);
    }
}

#[test]
fn exponents_move_the_point() {
    assert_eq!(read("1.5e3"), Some((false, "1500".to_string(), "".to_string())));
    assert_eq!(read("1.2345e2"), Some((false, "123".to_string(), "45".to_string())));
    assert_eq!(read("12.5E+1"), Some((false, "125".to_string(), "".to_string())));
    assert_eq!(read("1234.5e-2"), Some((false, "12".to_string(), "345".to_string())));
    assert_eq!(read("1.5e-3"), Some((false, "".to_string(), "0015".to_string())));
    assert_eq!(read("15e-2"), Some((false, "".to_string(), "15".to_string())));
    assert_eq!(read("-2e0"), Some((true, "2".to_string(), "".to_string())));
    assert_eq!(read("1e9999").unwrap().1.len(), 10000);
}

#[test]
fn two_fraction_digits_are_shown() {
    assert_eq!(fixed2("105000"), "105000.00");
    assert_eq!(fixed2("95000.5"), "95000.50");
    assert_eq!(fixed2("0.994"), "0.99");
    assert_eq!(fixed2("007.10"), "7.10");
    assert_eq!(fixed2(".5"), "0.50");
    assert_eq!(fixed2("000"), "0.00");
    assert_eq!(fixed2("-3.14159"), "-3.14");
    assert_eq!(fixed2("-0.0"), "-0.00");
    assert_eq!(fixed2("1.5e-7"), "0.00");
}

#[test]
fn third_fraction_digit_rounds() {
    assert_eq!(fixed2("0.999"), "1.00");
    assert_eq!(fixed2("0.005"), "0.01");
    assert_eq!(fixed2("0.0049999"), "0.00");
    assert_eq!(fixed2("9.995"), "10.00");
    assert_eq!(fixed2("999.999"), "1000.00");
    assert_eq!(fixed2("43250.678901"), "43250.68");
    assert_eq!(fixed2("43250.674"), "43250.67");
    assert_eq!(fixed2("1.295"), "1.30");
    // ties go up, whatever the binary value next to the text would do
    assert_eq!(fixed2("0.125"), "0.13");
    assert_eq!(fixed2("0.375"), "0.38");
    assert_eq!(fixed2("1.005"), "1.01");
    assert_eq!(fixed2("2.675"), "2.68");
    assert_eq!(fixed2("0.145"), "0.15");
    assert_eq!(fixed2("-0.006"), "-0.01");
    assert_eq!(fixed2("-2.999"), "-3.00");
    assert_eq!(fixed2(".999"), "1.00");
    assert_eq!(fixed2("0099.996"), "100.00");
}

#[test]
fn naturals_compare_by_value() {
    let ge = |a: &str, b: &str| {
        let a: Decimal = parse_numeral(&chars(&format!("{}.0", a))).unwrap();
        let b: Decimal = parse_numeral(&chars(&format!("{}.0", b))).unwrap();
        a.at_least(&b)
    };
    assert!(ge("100", "99"));
    assert!(!ge("99", "100"));
    assert!(ge("100", "100"));
    assert!(ge("0100", "100"));
    assert!(ge("100", "00100"));
    assert!(!ge("0099", "100"));
    assert!(ge("", "0"));
    assert!(ge("0", ""));
    assert!(!ge("", "1"));
    assert!(ge("123456789012345678901234567890123456789012", "123456789012345678901234567890123456789011"));
    assert!(!ge("123456789012345678901234567890123456789011", "123456789012345678901234567890123456789012"));
}

#[test]
fn decimals_compare_against_naturals() {
    let at_least = |d: &str, t: &str| {
        parse_numeral(&chars(d)).unwrap().at_least(&parse_numeral(&chars(t)).unwrap())
    };
    assert!(at_least("100.0", "100"));
    assert!(!at_least("99.999", "100"));
    assert!(at_least("100.001", "100"));
    assert!(at_least("0.5", "0"));
    assert!(!at_least("-0.5", "0"));
    assert!(at_least("-0.0", "0"));
    assert!(!at_least("-0.0", "1"));
    assert!(!at_least("-5", "0"));
    assert!(at_least("1e3", "1000"));
    assert!(!at_least("9.99e2", "1000"));
}

#[test]
fn only_the_integer_part_of_a_bound_counts() {
    let bound = parse_numeral(&chars("100.75")).unwrap();
    assert!(parse_numeral(&chars("100.5")).unwrap().at_least(&bound));
    assert!(!parse_numeral(&chars("99.9")).unwrap().at_least(&bound));
}
