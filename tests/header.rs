use ferrbench::header::{parse_header, split_header, HeaderError};

#[test]
fn content_type_is_accepted() {
    let h = parse_header("content-type: text/plain").ok().unwrap();
    assert_eq!(h.name.as_str(), "content-type");
    assert_eq!(h.value.to_str().unwrap(), "text/plain");
    assert_eq!(h.name_text, "content-type");
    assert_eq!(h.value_bytes, b"text/plain".to_vec());
}

#[test]
fn missing_separator_is_refused() {
    assert_eq!(parse_header("badheader").err(), Some(HeaderError::MissingSeparator));
    assert_eq!(parse_header("a:b").err(), Some(HeaderError::MissingSeparator));
}

#[test]
fn two_separators_are_refused() {
    assert_eq!(parse_header("a: b: c").err(), Some(HeaderError::ExtraSeparator));
}

#[test]
fn invalid_name_is_refused() {
    assert_eq!(parse_header(": value").err(), Some(HeaderError::InvalidName));
    assert_eq!(parse_header("bad name: value").err(), Some(HeaderError::InvalidName));
}

#[test]
fn invalid_value_is_refused() {
    assert_eq!(parse_header("x-a: ").err(), Some(HeaderError::InvalidValue));
    assert_eq!(parse_header("x-a: bad\u{7f}").err(), Some(HeaderError::InvalidValue));
}

#[test]
fn uppercase_name_is_lowered() {
    let h = parse_header("Content-Type: text/plain").ok().unwrap();
    assert_eq!(h.name.as_str(), "content-type");
    assert_eq!(h.name_text, "content-type");
    let h = parse_header("X-Token: Abc").ok().unwrap();
    assert_eq!(h.name_text, "x-token");
    assert_eq!(h.value_bytes, b"Abc".to_vec());
}

#[test]
fn split_gives_both_parts() {
    assert_eq!(
        split_header("accept: */*"),
        Ok(("accept".to_string(), "*/*".to_string()))
    );
}
