use kemuri::duration::{parse_duration, parse_duration_millis, split_duration, DurationParseError};
use std::time::Duration;

#[test]
fn milliseconds() {
    assert_eq!(parse_duration("250ms").unwrap(), Duration::from_millis(250));
}

#[test]
fn seconds() {
    assert_eq!(parse_duration("5s").unwrap(), Duration::from_secs(5));
}

#[test]
fn minutes() {
    assert_eq!(parse_duration("1m").unwrap(), Duration::from_secs(60));
}

#[test]
fn hours() {
    assert_eq!(parse_duration("24h").unwrap(), Duration::from_secs(86400));
}

#[test]
fn days() {
    assert_eq!(
        parse_duration("14d").unwrap(),
        Duration::from_secs(14 * 86400)
    );
}

#[test]
fn empty_string() {
    assert!(parse_duration("").is_err());
}

#[test]
fn no_unit() {
    assert!(parse_duration("100").is_err());
}

#[test]
fn unknown_unit() {
    assert!(parse_duration("5w").is_err());
}

#[test]
fn invalid_number() {
    assert!(parse_duration("abcs").is_err());
}

#[test]
fn duration_error_variants() {
    assert_eq!(parse_duration("   "), Err(DurationParseError::Empty));
    assert_eq!(
        parse_duration("100"),
        Err(DurationParseError::NoUnit("100".to_string()))
    );
    assert_eq!(
        parse_duration("5w"),
        Err(DurationParseError::UnknownUnit("w".to_string()))
    );
    assert_eq!(
        parse_duration("99999999999999999999s"),
        Err(DurationParseError::InvalidNumber("99999999999999999999".to_string()))
    );
    assert_eq!(
        parse_duration("18446744073709551615d"),
        Err(DurationParseError::Overflow("18446744073709551615d".to_string()))
    );
}

#[test]
fn duration_error_messages() {
    assert_eq!(DurationParseError::Empty.to_string(), "empty duration string");
    assert_eq!(
        DurationParseError::UnknownUnit("w".to_string()).to_string(),
        "unknown unit in duration: w"
    );
}

#[test]
fn duration_surrounding_whitespace_is_ignored() {
    assert_eq!(parse_duration("  30s \n").unwrap(), Duration::from_secs(30));
    assert_eq!(parse_duration_millis("2h"), Ok(7_200_000));
}

#[test]
fn split_duration_number_and_unit() {
    assert_eq!(
        split_duration("250ms"),
        Ok(("250".to_string(), "ms".to_string()))
    );
    assert!(split_duration("ms").is_err());
}
