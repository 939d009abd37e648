use kill_timer::duration::{parse_duration, parse_timer_input, ParseError};

fn cv(s: &str) -> Vec<char> {
    s.chars().collect()
}

#[test]
fn minutes_and_seconds() {
    assert_eq!(parse_timer_input(&cv("5:30")), Ok(330));
    assert_eq!(parse_timer_input(&cv("0:05")), Ok(5));
    assert_eq!(parse_timer_input(&cv("0:75")), Ok(75));
}

#[test]
fn bare_seconds() {
    assert_eq!(parse_timer_input(&cv("300")), Ok(300));
    assert_eq!(parse_timer_input(&cv("0")), Ok(0));
    assert_eq!(parse_timer_input(&cv("+7")), Ok(7));
}

#[test]
fn rejected_texts() {
    assert_eq!(parse_timer_input(&cv("")), Err(ParseError));
    assert_eq!(parse_timer_input(&cv("abc")), Err(ParseError));
    assert_eq!(parse_timer_input(&cv("-1")), Err(ParseError));
    assert_eq!(parse_timer_input(&cv("1:2:3")), Err(ParseError));
    assert_eq!(parse_timer_input(&cv(":30")), Err(ParseError));
    assert_eq!(parse_timer_input(&cv("5:")), Err(ParseError));
    assert_eq!(parse_timer_input(&cv("+")), Err(ParseError));
    assert_eq!(parse_timer_input(&cv("1 2")), Err(ParseError));
}

#[test]
fn surrounding_whitespace_is_ignored() {
    assert_eq!(parse_timer_input(&cv("  5:30 \t")), Ok(330));
    assert_eq!(parse_duration(&cv(" 5:30")), Err(ParseError));
}

#[test]
fn limits_of_u64() {
    assert_eq!(parse_duration(&cv("18446744073709551615")), Ok(u64::MAX));
    assert_eq!(parse_duration(&cv("18446744073709551616")), Err(ParseError));
    assert_eq!(parse_duration(&cv("307445734561825860:15")), Ok(u64::MAX));
    assert_eq!(parse_duration(&cv("307445734561825860:16")), Err(ParseError));
}
