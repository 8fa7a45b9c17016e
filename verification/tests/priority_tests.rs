use todo_reminder::priority::{parse_i32, parse_priority};

fn p(s: &str) -> Option<String> {
    Some(s.to_string())
}

#[test]
fn keyword_ranks() {
    assert_eq!(parse_priority(&p("high")), 1);
    assert_eq!(parse_priority(&p("urgent")), 1);
    assert_eq!(parse_priority(&p("High")), 1);
    assert_eq!(parse_priority(&p("URGENT")), 1);
    assert_eq!(parse_priority(&p("\u{9ad8}")), 1);
    assert_eq!(parse_priority(&p("\u{7d27}\u{6025}")), 1);
    assert_eq!(parse_priority(&p("medium")), 2);
    assert_eq!(parse_priority(&p("Normal")), 2);
    assert_eq!(parse_priority(&p("\u{4e2d}")), 2);
    assert_eq!(parse_priority(&p("\u{666e}\u{901a}")), 2);
    assert_eq!(parse_priority(&p("low")), 3);
    assert_eq!(parse_priority(&p("minor")), 3);
    assert_eq!(parse_priority(&p("\u{4f4e}")), 3);
    assert_eq!(parse_priority(&p("\u{6b21}\u{8981}")), 3);
}

#[test]
fn digit_keywords() {
    assert_eq!(parse_priority(&p("1")), 1);
    assert_eq!(parse_priority(&p("2")), 2);
    assert_eq!(parse_priority(&p("3")), 3);
}

#[test]
fn numeric_fallback() {
    assert_eq!(parse_priority(&p("7")), 7);
    assert_eq!(parse_priority(&p("42")), 42);
    assert_eq!(parse_priority(&p("-4")), -4);
    assert_eq!(parse_priority(&p("+9")), 9);
}

#[test]
fn unrecognized_texts_sort_last() {
    assert_eq!(parse_priority(&None), 999);
    assert_eq!(parse_priority(&p("")), 999);
    assert_eq!(parse_priority(&p("someday")), 999);
    assert_eq!(parse_priority(&p("1.5")), 999);
    assert_eq!(parse_priority(&p("99999999999")), 999);
}

#[test]
fn parse_i32_grammar() {
    assert_eq!(parse_i32("0"), Some(0));
    assert_eq!(parse_i32("007"), Some(7));
    assert_eq!(parse_i32("+12"), Some(12));
    assert_eq!(parse_i32("-12"), Some(-12));
    assert_eq!(parse_i32("2147483647"), Some(i32::MAX));
    assert_eq!(parse_i32("-2147483648"), Some(i32::MIN));
    assert_eq!(parse_i32("2147483648"), None);
    assert_eq!(parse_i32("-2147483649"), None);
    assert_eq!(parse_i32(""), None);
    assert_eq!(parse_i32("-"), None);
    assert_eq!(parse_i32("+"), None);
    assert_eq!(parse_i32("12a"), None);
    assert_eq!(parse_i32(" 12"), None);
    assert_eq!(parse_i32("12345678901234567890123"), None);
}
