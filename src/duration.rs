use vstd::prelude::*;
use crate::text::chars_of;

verus! {

/// Pattern whose successive matches are the tokens of a duration string.
pub const DURATION_PATTERN: &'static str =
    "(?P<days>[0-9]+)d|(?P<hours>[0-9]+)h|(?P<minutes>[0-9]+)m|(?P<seconds>[0-9]+)s";

/// The texts of the successive non-overlapping matches of a regular expression
/// in a text, or `None` when the pattern does not compile.
pub uninterp spec fn regex_find_all(pattern: Seq<char>, text: Seq<char>) -> Option<Seq<Seq<char>>>;

/// Relies on regex::Regex::new, which compiles the pattern or fails, and on
/// Regex::find_iter, which walks the successive non-overlapping matches.
#[verifier::external_body]
fn find_all(pattern: &str, text: &str) -> (r: Option<Vec<String>>)
    ensures
        match r {
            Some(v) => regex_find_all(pattern@, text@) == Some(v@.map_values(|t: String| t@)),
            None => regex_find_all(pattern@, text@) is None,
        },
{
    match regex::Regex::new(pattern) {
        Ok(re) => Some(re.find_iter(text).map(|m| m.as_str().to_string()).collect()),
        Err(_) => None,
    }
}

/// Why a duration string was refused.
#[derive(Debug, Clone, Copy, PartialEq, Eq, Structural)]
pub enum DurationError {
    /// The duration pattern itself did not compile.
    BadPattern,
    /// A match was not digits followed by one of `d`, `h`, `m`, `s`.
    InvalidToken,
    /// The tokens add up to zero seconds (or there are none).
    Zero,
    /// The total does not fit in 64 bits of seconds.
    Overflow,
}

/// One past the largest count of seconds that is held.
pub open spec fn limit() -> nat {
    u64::MAX as nat + 1
}

/// A count capped at `limit()`: every count at or over it stands for "too large".
pub open spec fn cap(x: nat) -> nat {
    if x >= limit() { limit() } else { x }
}

pub open spec fn is_digit(c: char) -> bool {
    '0' <= c && c <= '9'
}

pub open spec fn digit_value(c: char) -> nat {
    (c as nat - '0' as nat) as nat
}

/// The number written in decimal by a sequence of digits.
pub open spec fn digits_value(s: Seq<char>) -> nat
    decreases s.len(),
{
    if s.len() == 0 {
        0
    } else {
        digits_value(s.drop_last()) * 10 + digit_value(s.last())
    }
}

/// Seconds in one unit of a duration token.
pub open spec fn unit_seconds(u: char) -> Option<nat> {
    if u == 'd' {
        Some(86400)
    } else if u == 'h' {
        Some(3600)
    } else if u == 'm' {
        Some(60)
    } else if u == 's' {
        Some(1)
    } else {
        None
    }
}

/// The seconds of one token such as `12h`, or `None` when it is not digits
/// followed by a unit.
pub open spec fn token_seconds(t: Seq<char>) -> Option<nat> {
    if t.len() >= 2 && (forall|i: int| 0 <= i < t.len() - 1 ==> is_digit(#[trigger] t[i]))
        && unit_seconds(t.last()) is Some {
        Some(digits_value(t.drop_last()) * unit_seconds(t.last())->0)
    } else {
        None
    }
}

/// The sum of the seconds of all tokens, or `None` when one of them is invalid.
pub open spec fn tokens_total(ts: Seq<Seq<char>>) -> Option<nat>
    decreases ts.len(),
{
    if ts.len() == 0 {
        Some(0)
    } else {
        match (tokens_total(ts.drop_last()), token_seconds(ts.last())) {
            (Some(a), Some(b)) => Some(a + b),
            _ => None,
        }
    }
}

/// What a list of tokens gives as a duration in seconds.
pub open spec fn total_of(ts: Seq<Seq<char>>) -> Result<u64, DurationError> {
    match tokens_total(ts) {
        None => Err(DurationError::InvalidToken),
        Some(t) => if t == 0 {
            Err(DurationError::Zero)
        } else if t > u64::MAX {
            Err(DurationError::Overflow)
        } else {
            Ok(t as u64)
        },
    }
}

/// What a duration string gives, in seconds.
pub open spec fn duration_of(s: Seq<char>) -> Result<u64, DurationError> {
    match regex_find_all(DURATION_PATTERN@, s) {
        None => Err(DurationError::BadPattern),
        Some(ts) => total_of(ts),
    }
}


proof fn lemma_cap_digit(d: nat, k: nat)
    ensures
        cap(d * 10 + k) == cap(cap(d) * 10 + k),
{
    if d >= limit() {
        assert(d * 10 + k >= limit()) by (nonlinear_arith)
            requires d >= limit();
        assert(limit() * 10 + k >= limit()) by (nonlinear_arith);
    }
}

proof fn lemma_cap_scale(d: nat, u: nat)
    requires
        u >= 1,
    ensures
        cap(d * u) == cap(cap(d) * u),
{
    if d >= limit() {
        assert(d * u >= limit()) by (nonlinear_arith)
            requires d >= limit(), u >= 1;
        assert(limit() * u >= limit()) by (nonlinear_arith)
            requires u >= 1;
    }
}

proof fn lemma_cap_add(a: nat, b: nat)
    ensures
        cap(a + b) == cap(cap(a) + cap(b)),
{
}

/// The seconds of one token, capped at `limit()`; `None` when the token is
/// not digits followed by a unit.
fn token_value(t: &Vec<char>) -> (r: Option<u128>)
    ensures
        match token_seconds(t@) {
            None => r is None,
            Some(v) => r == Some(cap(v) as u128),
        },
{
    let n = t.len();
    if n < 2 {
        return None;
    }
    let u = t[n - 1];
    let unit: u128 = if u == 'd' {
        86400
    } else if u == 'h' {
        3600
    } else if u == 'm' {
        60
    } else if u == 's' {
        1
    } else {
        return None;
    };
    let ghost body = t@.drop_last();
    let mut value: u128 = 0;
    let mut i: usize = 0;
    while i < n - 1
        invariant
            n == t@.len(),
            n >= 2,
            body == t@.drop_last(),
            0 <= i <= n - 1,
            forall|k: int| 0 <= k < i ==> is_digit(#[trigger] t@[k]),
            value == cap(digits_value(body.subrange(0, i as int))),
        decreases n - 1 - i,
    {
        let c = t[i];
        if !('0' <= c && c <= '9') {
            assert(!is_digit(t@[i as int]));
            return None;
        }
        let k: u128 = (c as u32 - '0' as u32) as u128;
        proof {
            let pre = body.subrange(0, i as int);
            let next = body.subrange(0, i as int + 1);
            assert(next.drop_last() =~= pre);
            assert(next.last() == c);
            lemma_cap_digit(digits_value(pre), k as nat);
        }
        if value >= 18446744073709551616u128 {
            value = 18446744073709551616u128;
        } else {
            value = value * 10 + k;
            if value > 18446744073709551616u128 {
                value = 18446744073709551616u128;
            }
        }
        i = i + 1;
    }
    assert(body.subrange(0, n - 1) =~= body);
    proof {
        lemma_cap_scale(digits_value(body), unit as nat);
    }
    let seconds = value * unit;
    if seconds > 18446744073709551616u128 {
        Some(18446744073709551616u128)
    } else {
        Some(seconds)
    }
}

/// Adds up the seconds of a list of duration tokens such as `["1d", "2h"]`.
///
/// Refuses a token that is not digits followed by one of `d`, `h`, `m`, `s`,
/// a total of zero seconds, and a total that does not fit in a `u64`.
pub fn total_seconds(tokens: &Vec<String>) -> (r: Result<u64, DurationError>)
    ensures
        r == total_of(tokens@.map_values(|t: String| t@)),
{
    let ghost ts = tokens@.map_values(|t: String| t@);
    let mut total: u128 = 0;
    let mut valid = true;
    let mut j: usize = 0;
    while j < tokens.len()
        invariant
            ts == tokens@.map_values(|t: String| t@),
            0 <= j <= tokens@.len(),
            valid ==> tokens_total(ts.subrange(0, j as int)) is Some && total == cap(
                tokens_total(ts.subrange(0, j as int))->0,
            ),
            !valid ==> tokens_total(ts.subrange(0, j as int)) is None,
        decreases tokens@.len() - j,
    {
        let cs = chars_of(tokens[j].as_str());
        let tv = token_value(&cs);
        proof {
            let pre = ts.subrange(0, j as int);
            let next = ts.subrange(0, j as int + 1);
            assert(next.drop_last() =~= pre);
            assert(next.last() == cs@);
        }
        match tv {
            None => {
                valid = false;
            },
            Some(v) => {
                if valid {
                    proof {
                        lemma_cap_add(
                            tokens_total(ts.subrange(0, j as int))->0,
                            token_seconds(cs@)->0,
                        );
                    }
                    total = total + v;
                    if total > 18446744073709551616u128 {
                        total = 18446744073709551616u128;
                    }
                }
            },
        }
        j = j + 1;
    }
    assert(ts.subrange(0, tokens@.len() as int) =~= ts);
    if !valid {
        Err(DurationError::InvalidToken)
    } else if total == 0 {
        Err(DurationError::Zero)
    } else if total > 18446744073709551615u128 {
        Err(DurationError::Overflow)
    } else {
        Ok(total as u64)
    }
}

/// Parses a duration such as `1d 2h 5m 30s` into seconds: every token
/// `<digits><unit>` found anywhere in the string counts, with `d`, `h`, `m`
/// and `s` worth a day, an hour, a minute and a second.
pub fn parse_duration(duration: &str) -> (r: Result<u64, DurationError>)
    ensures
        r == duration_of(duration@),
{
    match find_all(DURATION_PATTERN, duration) {
        None => Err(DurationError::BadPattern),
        Some(tokens) => total_seconds(&tokens),
    }
}

/// The sum of the seconds of the valid tokens of a list.
pub open spec fn sum_seconds(ts: Seq<Seq<char>>) -> nat
    decreases ts.len(),
{
    if ts.len() == 0 {
        0
    } else {
        sum_seconds(ts.drop_last()) + match token_seconds(ts.last()) {
            Some(v) => v,
            None => 0,
        }
    }
}

proof fn lemma_valid_tokens_total(ts: Seq<Seq<char>>)
    requires
        forall|i: int| 0 <= i < ts.len() ==> (#[trigger] token_seconds(ts[i])) is Some,
    ensures
        tokens_total(ts) == Some(sum_seconds(ts)),
    decreases ts.len(),
{
    if ts.len() > 0 {
        let pre = ts.drop_last();
        assert forall|i: int| 0 <= i < pre.len() implies (#[trigger] token_seconds(pre[i])) is Some by {
            assert(pre[i] == ts[i]);
        }
        lemma_valid_tokens_total(pre);
        assert(token_seconds(ts[ts.len() - 1]) is Some);
    }
}

/// Where every match of the duration pattern in `s` is a valid token, the
/// parsed duration is the sum of the tokens' seconds; a sum of zero is refused.
pub proof fn lemma_duration_is_sum_of_tokens(s: Seq<char>)
    requires
        regex_find_all(DURATION_PATTERN@, s) is Some,
        forall|i: int|
            0 <= i < regex_find_all(DURATION_PATTERN@, s)->0.len() ==> (#[trigger] token_seconds(
                regex_find_all(DURATION_PATTERN@, s)->0[i],
            )) is Some,
    ensures
        sum_seconds(regex_find_all(DURATION_PATTERN@, s)->0) == 0 ==> duration_of(s) == Err::<
            u64,
            DurationError,
        >(DurationError::Zero),
        0 < sum_seconds(regex_find_all(DURATION_PATTERN@, s)->0) <= u64::MAX ==> duration_of(s)
            == Ok::<u64, DurationError>(
            sum_seconds(regex_find_all(DURATION_PATTERN@, s)->0) as u64,
        ),
{
    lemma_valid_tokens_total(regex_find_all(DURATION_PATTERN@, s)->0);
}

} // verus!
