use calendar_rs::event::SimpleTimes;
use calendar_rs::simple_times::{parse_number, parse_simple_times, parse_simple_times_checked};

#[test]
fn parses_each_unit() {
    let v = parse_simple_times("1y,2m,3w,4d,5h,6M,7x");
    assert_eq!(v.len(), 7);
    assert!(matches!(v[0], SimpleTimes::Year(1)));
    assert!(matches!(v[1], SimpleTimes::Month(2)));
    assert!(matches!(v[2], SimpleTimes::Week(3)));
    assert!(matches!(v[3], SimpleTimes::Day(4)));
    assert!(matches!(v[4], SimpleTimes::Hour(5)));
    assert!(matches!(v[5], SimpleTimes::Minuite(6)));
    assert!(matches!(v[6], SimpleTimes::NoTime));
}

#[test]
fn empty_rule_has_no_amounts() {
    assert!(parse_simple_times("").is_empty());
    assert!(parse_simple_times_checked("").unwrap().is_empty());
}

#[test]
fn plus_sign_and_large_numbers() {
    let v = parse_simple_times("+3h,18446744073709551615d");
    assert!(matches!(v[0], SimpleTimes::Hour(3)));
    assert!(matches!(v[1], SimpleTimes::Day(18446744073709551615)));
}

#[test]
fn malformed_rules_are_refused() {
    assert!(parse_simple_times_checked("1d,").is_none());
    assert!(parse_simple_times_checked("d").is_none());
    assert!(parse_simple_times_checked("+d").is_none());
    assert!(parse_simple_times_checked("1 d").is_none());
    assert!(parse_simple_times_checked("-1d").is_none());
    assert!(parse_simple_times_checked("18446744073709551616d").is_none());
    assert!(parse_simple_times_checked(",").is_none());
}

#[test]
fn one_amount_per_piece() {
    let rule = "1d,2d,3d,4w";
    let commas = rule.chars().filter(|c| *c == ',').count();
    assert_eq!(parse_simple_times(rule).len(), commas + 1);
}

#[test]
fn numbers_parse_like_std() {
    for s in ["0", "12", "+7", "", "+", "-1", "1a", "18446744073709551615", "18446744073709551616", "007"] {
        assert_eq!(parse_number(s), s.parse::<u64>().ok(), "{}", s);
    }
}
