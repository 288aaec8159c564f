use textutils::numbers::parse;
use textutils::numbers::parse_decimal;
use textutils::numbers::parse_positive_int;
use textutils::numbers::parse_usize;
use textutils::selector::parse_selector;
use textutils::text::split_fields;

#[test]
fn test_parse_list() {
    let s = String::from("1");
    assert_eq!(parse_selector(&s).unwrap(), vec![0]);
    let s = String::from("1,2,3");
    assert_eq!(parse_selector(&s).unwrap(), vec![0, 1, 2]);
    let s = String::from("1-4");
    assert_eq!(parse_selector(&s).unwrap(), vec![0, 1, 2, 3]);
}

#[test]
fn test_answer() {
    let range = "1-2";
    assert_eq!(range.starts_with('+'), false);
    let a = "1,3";
    let b = a.chars().collect::<Vec<_>>();
    let c = b.get(0..2);
    assert_eq!(c, Some(&['1', ','][..]));
}

#[test]
fn selector_keeps_order_and_duplicates() {
    assert_eq!(parse_selector("3,3,1").unwrap(), vec![2, 2, 0]);
    assert_eq!(parse_selector("5").unwrap(), vec![4]);
}

#[test]
fn selector_range_is_inclusive_and_ascending() {
    assert_eq!(parse_selector("2-4").unwrap(), vec![1, 2, 3]);
    assert_eq!(parse_selector("7-7").unwrap(), vec![6]);
    // an inverted range selects nothing, but is not an error
    assert_eq!(parse_selector("5-3").unwrap(), Vec::<usize>::new());
}

#[test]
fn selector_rejects_bad_tokens() {
    assert!(parse_selector("0").is_err());
    assert!(parse_selector("-1").is_err());
    assert!(parse_selector("abc").is_err());
    assert!(parse_selector("1,0").is_err());
    assert!(parse_selector("1,x,3").is_err());
    assert!(parse_selector("1-2-3").is_err());
    assert!(parse_selector("").is_err());
    assert!(parse_selector("99999999999999999999999").is_err());
}

#[test]
fn parse_usize_accepts_positive_only() {
    assert_eq!(parse_usize("42").unwrap(), 42);
    assert!(parse_usize("0").is_err());
    assert!(parse_usize("-3").is_err());
    assert!(parse_usize("ten").is_err());
    let e = parse_usize("abc").unwrap_err();
    assert_eq!(e.token, "abc");
}

#[test]
fn parse_positive_int_matches_parse_usize() {
    assert_eq!(parse_positive_int("7").unwrap(), 7);
    assert!(parse_positive_int("0").is_err());
    assert!(parse_positive_int("7.5").is_err());
}

#[test]
fn bounded_parse_enforces_range() {
    assert_eq!(parse("5", 12).unwrap(), 5);
    assert_eq!(parse("12", 12).unwrap(), 12);
    assert!(parse("13", 12).is_err());
    assert!(parse("0", 9999).is_err());
    assert!(parse("x", 9999).is_err());
}

#[test]
fn decimal_parsing_covers_the_whole_range() {
    let max = format!("{}", usize::MAX);
    assert_eq!(parse_decimal(&max), Some(usize::MAX));
    let too_big = format!("{}0", usize::MAX);
    assert_eq!(parse_decimal(&too_big), None);
    assert_eq!(parse_decimal("007"), Some(7));
    assert_eq!(parse_decimal(""), None);
    assert_eq!(parse_decimal("1 2"), None);
}

#[test]
fn splitting_keeps_every_piece() {
    assert_eq!(split_fields("a:b:c", ':'), vec!["a", "b", "c"]);
    assert_eq!(split_fields("", ','), vec![""]);
    assert_eq!(split_fields("x,", ','), vec!["x", ""]);
    assert_eq!(split_fields(",,", ','), vec!["", "", ""]);
    assert_eq!(split_fields("plain", ','), vec!["plain"]);
}
