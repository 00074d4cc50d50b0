use tinygraph::decimal::parse_usize;

fn chars(s: &str) -> Vec<char> {
    s.chars().collect()
}

#[test]
fn reads_plain_and_signed_numbers() {
    assert_eq!(parse_usize(&chars("0")), Some(0));
    assert_eq!(parse_usize(&chars("42")), Some(42));
    assert_eq!(parse_usize(&chars("+7")), Some(7));
    assert_eq!(parse_usize(&chars("007")), Some(7));
}

#[test]
fn refuses_what_is_not_a_usize() {
    assert_eq!(parse_usize(&chars("")), None);
    assert_eq!(parse_usize(&chars("+")), None);
    assert_eq!(parse_usize(&chars("-1")), None);
    assert_eq!(parse_usize(&chars("1.0")), None);
    assert_eq!(parse_usize(&chars("12a")), None);
    assert_eq!(parse_usize(&chars("++1")), None);
}

#[test]
fn largest_value_and_overflow() {
    let max = usize::MAX.to_string();
    assert_eq!(parse_usize(&chars(&max)), Some(usize::MAX));
    let over = format!("{}0", max);
    assert_eq!(parse_usize(&chars(&over)), None);
    let over_by_one = (usize::MAX as u128 + 1).to_string();
    assert_eq!(parse_usize(&chars(&over_by_one)), None);
}

#[test]
fn agrees_with_std_parse() {
    for s in ["", "+", "0", "+0", "-0", "123", " 1", "1 ", "99", "+99", "x"] {
        assert_eq!(parse_usize(&chars(s)), s.parse::<usize>().ok(), "token {:?}", s);
    }
}
