use vstd::prelude::*;
use vstd::utf8::encode_utf8;
use crate::text::{chars_of, string_of, sub_chars};

verus! {

#[verifier::external_type_specification]
#[verifier::external_body]
pub struct ExHeaderName(http::HeaderName);

#[verifier::external_type_specification]
#[verifier::external_body]
pub struct ExHeaderValue(http::HeaderValue);

/// A character allowed in a header name: a token character of HTTP.
pub open spec fn is_token_char(c: char) -> bool {
    ('a' <= c && c <= 'z') || ('A' <= c && c <= 'Z') || ('0' <= c && c <= '9') || c == '!'
        || c == '#' || c == '$' || c == '%' || c == '&' || c == '\'' || c == '*' || c == '+'
        || c == '-' || c == '.' || c == '^' || c == '_' || c == '`' || c == '|' || c == '~'
}

/// A header name: one to 65535 token characters.
pub open spec fn valid_header_name(s: Seq<char>) -> bool {
    1 <= s.len() <= 65535 && forall|i: int| 0 <= i < s.len() ==> is_token_char(#[trigger] s[i])
}

/// A character allowed in a header value: a tab, or any character from the
/// space on but the delete character.
pub open spec fn is_value_char(c: char) -> bool {
    c == '\t' || (c >= ' ' && c != '\x7f')
}

pub open spec fn valid_header_value(s: Seq<char>) -> bool {
    forall|i: int| 0 <= i < s.len() ==> is_value_char(#[trigger] s[i])
}

/// `b` is the character `a` with an ASCII capital letter made small.
pub open spec fn lower_char(a: char, b: char) -> bool {
    if 'A' <= a && a <= 'Z' {
        b as u32 == a as u32 + 32
    } else {
        b == a
    }
}

/// `t` is `s` with its ASCII capital letters made small.
pub open spec fn is_ascii_lowercase_of(t: Seq<char>, s: Seq<char>) -> bool {
    t.len() == s.len() && forall|i: int| 0 <= i < s.len() ==> lower_char(s[i], #[trigger] t[i])
}

/// Relies on http::HeaderName's FromStr: it accepts exactly the non-empty names
/// of at most 65535 token characters (its table of allowed bytes, and its
/// length bound), and stores them with ASCII capitals made small, which
/// HeaderName::as_str hands back.
#[verifier::external_body]
fn header_name(s: &str) -> (r: Option<(http::HeaderName, String)>)
    ensures
        r is Some <==> valid_header_name(s@),
        r matches Some(p) ==> is_ascii_lowercase_of(p.1@, s@),
{
    let name = <http::HeaderName as std::str::FromStr>::from_str(s).ok()?;
    let text = name.as_str().to_string();
    Some((name, text))
}

/// Relies on http::HeaderValue::from_str: it accepts exactly the strings whose
/// bytes are all a tab, or at least a space and not the delete byte, and keeps
/// those bytes, which HeaderValue::as_bytes hands back.
#[verifier::external_body]
pub(crate) fn header_value(s: &str) -> (r: Option<(http::HeaderValue, Vec<u8>)>)
    ensures
        r is Some <==> valid_header_value(s@),
        r matches Some(p) ==> p.1@ == encode_utf8(s@),
{
    let value = http::HeaderValue::from_str(s).ok()?;
    let bytes = value.as_bytes().to_vec();
    Some((value, bytes))
}

/// A parsed header, with the name as stored (ASCII capitals made small) and
/// the bytes of the value.
pub struct Header {
    pub name: http::HeaderName,
    pub value: http::HeaderValue,
    pub name_text: String,
    pub value_bytes: Vec<u8>,
}

/// Why a header string was refused.
#[derive(Debug, Clone, Copy, PartialEq, Eq, Structural)]
pub enum HeaderError {
    /// No `": "` separates a name from a value.
    MissingSeparator,
    /// More than one `": "` occurs.
    ExtraSeparator,
    /// The text before the separator is not a header name.
    InvalidName,
    /// The text after the separator is empty or not a header value.
    InvalidValue,
}

/// A separator `": "` starts at index `i` of `s`.
pub open spec fn sep_at(s: Seq<char>, i: int) -> bool {
    0 <= i && i + 1 < s.len() && s[i] == ':' && s[i + 1] == ' '
}

pub open spec fn has_sep(s: Seq<char>) -> bool {
    exists|i: int| sep_at(s, i)
}

/// The only separator of `s` starts at index `i`.
pub open spec fn single_sep_at(s: Seq<char>, i: int) -> bool {
    sep_at(s, i) && forall|j: int| #[trigger] sep_at(s, j) ==> j == i
}

pub open spec fn has_single_sep(s: Seq<char>) -> bool {
    exists|i: int| single_sep_at(s, i)
}

/// The index of the only separator of `s`.
pub open spec fn the_sep(s: Seq<char>) -> int
    recommends
        has_single_sep(s),
{
    choose|i: int| single_sep_at(s, i)
}

/// The name part of a header string with a single separator.
pub open spec fn name_part(s: Seq<char>) -> Seq<char> {
    s.subrange(0, the_sep(s))
}

/// The value part of a header string with a single separator.
pub open spec fn value_part(s: Seq<char>) -> Seq<char> {
    s.subrange(the_sep(s) + 2, s.len() as int)
}

/// Why `s` is refused as a header, or `None` when it is accepted.
pub open spec fn header_check(s: Seq<char>) -> Option<HeaderError> {
    if !has_sep(s) {
        Some(HeaderError::MissingSeparator)
    } else if !has_single_sep(s) {
        Some(HeaderError::ExtraSeparator)
    } else if !valid_header_name(name_part(s)) {
        Some(HeaderError::InvalidName)
    } else if value_part(s).len() == 0 || !valid_header_value(value_part(s)) {
        Some(HeaderError::InvalidValue)
    } else {
        None
    }
}

/// The first separator at or after `from`.
fn find_sep(cs: &Vec<char>, from: usize) -> (r: Option<usize>)
    ensures
        match r {
            Some(i) => from <= i && sep_at(cs@, i as int) && forall|j: int|
                from <= j < i ==> !#[trigger] sep_at(cs@, j),
            None => forall|j: int| from <= j ==> !#[trigger] sep_at(cs@, j),
        },
{
    let n = cs.len();
    if n == 0 {
        return None;
    }
    let mut i: usize = from;
    while i < n - 1
        invariant
            n == cs@.len(),
            n > 0,
            from <= i,
            forall|j: int| from <= j < i ==> !#[trigger] sep_at(cs@, j),
        decreases n - i,
    {
        if cs[i] == ':' && cs[i + 1] == ' ' {
            return Some(i);
        }
        i = i + 1;
    }
    None
}

/// Splits a header string such as `content-type: text/plain` at its only
/// `": "` into the name and the value, with no check of either.
pub fn split_header(value: &str) -> (r: Result<(String, String), HeaderError>)
    ensures
        !has_sep(value@) <==> r == Err::<(String, String), HeaderError>(
            HeaderError::MissingSeparator,
        ),
        has_sep(value@) && !has_single_sep(value@) <==> r == Err::<(String, String), HeaderError>(
            HeaderError::ExtraSeparator,
        ),
        has_single_sep(value@) <==> r is Ok,
        r matches Ok(p) ==> p.0@ == name_part(value@) && p.1@ == value_part(value@),
{
    let cs = chars_of(value);
    let n = cs.len();
    match find_sep(&cs, 0) {
        None => Err(HeaderError::MissingSeparator),
        Some(i) => {
            assert(i + 1 < n);
            match find_sep(&cs, i + 1) {
                Some(k) => {
                    assert(!single_sep_at(cs@, i as int));
                    assert(!has_single_sep(cs@)) by {
                        if exists|x: int| single_sep_at(cs@, x) {
                            let x = choose|x: int| single_sep_at(cs@, x);
                            assert(sep_at(cs@, i as int));
                            assert(sep_at(cs@, k as int));
                        }
                    }
                    Err(HeaderError::ExtraSeparator)
                },
                None => {
                    assert(single_sep_at(cs@, i as int));
                    assert(the_sep(cs@) == i as int) by {
                        assert(single_sep_at(cs@, the_sep(cs@)));
                    }
                    let name = sub_chars(&cs, 0, i);
                    let rest = sub_chars(&cs, i + 2, n);
                    Ok((string_of(&name), string_of(&rest)))
                },
            }
        },
    }
}

/// Parses a header string such as `content-type: text/plain` into a header
/// name and value. It must hold exactly one `": "`, with a valid name before
/// it and a non-empty valid value after it.
pub fn parse_header(value: &str) -> (r: Result<Header, HeaderError>)
    ensures
        match r {
            Ok(h) => header_check(value@) is None && is_ascii_lowercase_of(
                h.name_text@,
                name_part(value@),
            ) && h.value_bytes@ == encode_utf8(value_part(value@)),
            Err(e) => header_check(value@) == Some(e),
        },
{
    let (name, val) = match split_header(value) {
        Ok(p) => p,
        Err(e) => return Err(e),
    };
    let (n, name_text) = match header_name(name.as_str()) {
        Some(p) => p,
        None => return Err(HeaderError::InvalidName),
    };
    if chars_of(val.as_str()).len() == 0 {
        return Err(HeaderError::InvalidValue);
    }
    let (v, value_bytes) = match header_value(val.as_str()) {
        Some(p) => p,
        None => return Err(HeaderError::InvalidValue),
    };
    Ok(Header { name: n, value: v, name_text, value_bytes })
}

/// A header string is accepted exactly when it holds a single `": "` with a
/// valid, non-empty name before it and a valid, non-empty value after it.
pub proof fn lemma_header_accepted_iff(s: Seq<char>)
    ensures
        header_check(s) is None <==> exists|i: int|
            #![trigger single_sep_at(s, i)]
            single_sep_at(s, i) && valid_header_name(s.subrange(0, i)) && s.len() - (i + 2) > 0
                && valid_header_value(s.subrange(i + 2, s.len() as int)),
{
    if has_single_sep(s) {
        let k = the_sep(s);
        assert(single_sep_at(s, k));
        assert forall|i: int| single_sep_at(s, i) implies i == k by {}
    }
}

} // verus!
