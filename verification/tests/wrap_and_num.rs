use receiptd::num::{format_cents, parse_decimal_cents};
use receiptd::wrap::split_into_lines;

fn chars(s: &str) -> Vec<char> {
    s.chars().collect()
}

fn strip_breaks(s: &str) -> String {
    s.chars().filter(|c| *c != ' ' && *c != '-').collect()
}

#[test]
fn wrap_empty_yields_no_lines() {
    assert_eq!(split_into_lines("", 10), Vec::<String>::new());
}

#[test]
fn wrap_compliant_is_identity() {
    assert_eq!(split_into_lines("hi", 5), vec!["hi".to_string()]);
    assert_eq!(split_into_lines("12345", 5), vec!["12345".to_string()]);
}

#[test]
fn wrap_splits_at_last_break() {
    assert_eq!(split_into_lines("aaa bbb", 4), vec!["aaa ".to_string(), " bbb".to_string()]);
}

#[test]
fn wrap_keeps_hyphen_breaks() {
    let lines = split_into_lines("well-known value", 6);
    assert_eq!(lines[0], "well-");
    assert!(lines.iter().all(|l| l.len() <= 8));
}

#[test]
fn wrap_forces_split_of_unbreakable_run() {
    let lines = split_into_lines("abcdefghij", 3);
    assert_eq!(lines[0], "abcd-");
    assert!(lines[0].ends_with('-'));
    for line in &lines {
        assert!(line.len() <= 5);
    }
}

#[test]
fn wrap_round_trip_preserves_content() {
    for (text, max) in [
        ("the quick brown fox jumps over the lazy dog", 10),
        ("abcdefghijklmnopqrstuvwxyz", 7),
        ("a-b-c-d-e-f", 3),
        ("  leading and trailing  ", 5),
        ("one", 1),
    ] {
        let lines = split_into_lines(text, max);
        let joined: String = lines.concat();
        assert_eq!(strip_breaks(&joined), strip_breaks(text), "input {text:?} max {max}");
        // the final line always fits; every line fits in max + 2
        assert!(lines.last().map_or(true, |l| l.len() <= max));
        assert!(lines.iter().all(|l| l.len() <= max + 2));
    }
}

#[test]
fn wrap_long_description_example() {
    let lines = split_into_lines("Interior-crocodile-alligator I drive a chevrolet-movie-theater.", 25);
    let joined: String = lines.concat();
    assert_eq!(
        strip_breaks(&joined),
        strip_breaks("Interior-crocodile-alligator I drive a chevrolet-movie-theater.")
    );
    assert!(lines.len() > 1);
}

#[test]
fn parse_plain_decimals() {
    assert_eq!(parse_decimal_cents(&chars("123.45")), Some(12345));
    assert_eq!(parse_decimal_cents(&chars("600.00")), Some(60000));
    assert_eq!(parse_decimal_cents(&chars("0.99")), Some(99));
    assert_eq!(parse_decimal_cents(&chars("7")), Some(700));
}

#[test]
fn parse_takes_absolute_value() {
    assert_eq!(parse_decimal_cents(&chars("-600.00")), Some(60000));
    assert_eq!(parse_decimal_cents(&chars("+12.50")), Some(1250));
}

#[test]
fn parse_partial_fractions() {
    assert_eq!(parse_decimal_cents(&chars(".5")), Some(50));
    assert_eq!(parse_decimal_cents(&chars("1.")), Some(100));
    assert_eq!(parse_decimal_cents(&chars("1.5")), Some(150));
}

#[test]
fn parse_rounds_half_up_on_third_digit() {
    assert_eq!(parse_decimal_cents(&chars("1.005")), Some(101));
    assert_eq!(parse_decimal_cents(&chars("1.004")), Some(100));
    assert_eq!(parse_decimal_cents(&chars("0.999")), Some(100));
}

#[test]
fn parse_rejects_non_decimals() {
    assert_eq!(parse_decimal_cents(&chars("")), None);
    assert_eq!(parse_decimal_cents(&chars(".")), None);
    assert_eq!(parse_decimal_cents(&chars("-")), None);
    assert_eq!(parse_decimal_cents(&chars("12a")), None);
    assert_eq!(parse_decimal_cents(&chars("1.2.3")), None);
    assert_eq!(parse_decimal_cents(&chars("1e3")), None);
}

#[test]
fn format_cents_two_decimals() {
    let s: String = format_cents(60000).into_iter().collect();
    assert_eq!(s, "600.00");
    let s: String = format_cents(101).into_iter().collect();
    assert_eq!(s, "1.01");
    let s: String = format_cents(5).into_iter().collect();
    assert_eq!(s, "0.05");
    let s: String = format_cents(0).into_iter().collect();
    assert_eq!(s, "0.00");
}
