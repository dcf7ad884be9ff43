use ferrbench::duration::{parse_duration, total_seconds, DurationError};

#[test]
fn days_and_hours() {
    assert_eq!(parse_duration("1d 2h"), Ok(93600));
}

#[test]
fn zero_seconds_is_refused() {
    assert_eq!(parse_duration("0s"), Err(DurationError::Zero));
}

#[test]
fn minutes_and_seconds() {
    assert_eq!(parse_duration("5m 30s"), Ok(330));
}

#[test]
fn all_units_add_up() {
    assert_eq!(parse_duration("11d 3h 32m 4s"), Ok(11 * 86400 + 3 * 3600 + 32 * 60 + 4));
}

#[test]
fn tokens_without_spaces() {
    assert_eq!(parse_duration("1m1s"), Ok(61));
}

#[test]
fn no_token_is_refused() {
    assert_eq!(parse_duration("soon"), Err(DurationError::Zero));
    assert_eq!(parse_duration(""), Err(DurationError::Zero));
}

#[test]
fn huge_total_overflows() {
    assert_eq!(parse_duration("99999999999999999999d"), Err(DurationError::Overflow));
    assert_eq!(parse_duration("213503982334602d"), Err(DurationError::Overflow));
}

#[test]
fn largest_total_fits() {
    assert_eq!(parse_duration("18446744073709551615s"), Ok(u64::MAX));
}

#[test]
fn leading_zeros() {
    assert_eq!(parse_duration("0007s"), Ok(7));
}

#[test]
fn total_of_tokens() {
    let tokens = vec!["2h".to_string(), "10s".to_string()];
    assert_eq!(total_seconds(&tokens), Ok(7210));
}

#[test]
fn invalid_token_is_refused() {
    let tokens = vec!["2x".to_string()];
    assert_eq!(total_seconds(&tokens), Err(DurationError::InvalidToken));
    let tokens = vec!["h".to_string()];
    assert_eq!(total_seconds(&tokens), Err(DurationError::InvalidToken));
}

#[test]
fn sum_equals_token_seconds() {
    for (text, secs) in [("3d", 259200u64), ("4h 4m", 14640), ("1s 1s 1s", 3)] {
        assert_eq!(parse_duration(text), Ok(secs));
    }
}
