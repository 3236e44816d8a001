//! The query: its arguments and the address it is sent to.
use vstd::prelude::*;
use crate::error::SbbError;
use crate::text::{int_text, push_signed};

verus! {

/// The page of results that is asked for.
pub const DEFAULT_PAGE: i32 = 0;

/// The number of connections asked for when none is given.
pub const DEFAULT_NUMBER: i32 = 1;

pub open spec fn is_digit(c: char) -> bool {
    '0' <= c <= '9'
}

/// The value of a string of decimal digits.
pub open spec fn digits_value(s: Seq<char>) -> int
    decreases s.len(),
{
    if s.len() == 0 {
        0
    } else {
        digits_value(s.drop_last()) * 10 + (s.last() as int - '0' as int)
    }
}

/// What `i32` reads from `s`: an optional `+` or `-`, then one or more
/// decimal digits, with a value that `i32` holds.
pub open spec fn decimal_i32(s: Seq<char>) -> Option<i32> {
    let neg = s.len() > 0 && s[0] == '-';
    let body = if s.len() > 0 && (s[0] == '-' || s[0] == '+') { s.drop_first() } else { s };
    let v = if neg { -digits_value(body) } else { digits_value(body) };
    if body.len() > 0 && (forall|i: int| 0 <= i < body.len() ==> is_digit(#[trigger] body[i]))
        && i32::MIN <= v <= i32::MAX {
        Some(v as i32)
    } else {
        None
    }
}

/// Relies on `str::parse::<i32>` (`FromStr for i32`): an optional sign, then
/// decimal digits, whose value fits, and nothing else.
#[verifier::external_body]
fn parse_i32(s: &str) -> (r: Option<i32>)
    ensures
        r == decimal_i32(s@),
{
    s.parse::<i32>().ok()
}

/// The number of connections to fetch: the default when none is given.
pub fn result_count(number: Option<&str>) -> (r: Result<i32, SbbError>)
    ensures
        r == result_count_spec(number),
{
    match number {
        None => Ok(DEFAULT_NUMBER),
        Some(s) => match parse_i32(s) {
            Some(n) => Ok(n),
            None => Err(SbbError::InvalidNumber),
        },
    }
}

/// Origin, destination and number of connections of a query; the origin and
/// the destination must be given.
pub fn resolve_args(from: Option<&str>, to: Option<&str>, number: Option<&str>) -> (r: Result<
    (String, String, i32),
    SbbError,
>)
    ensures
        from is None || to is None ==> r is Err && r->Err_0 == SbbError::MissingArgument,
        from is Some && to is Some ==> match result_count_spec(number) {
            Ok(n) => r is Ok && r->Ok_0.0@ == from->0@ && r->Ok_0.1@ == to->0@ && r->Ok_0.2 == n,
            Err(e) => r is Err && r->Err_0 == e,
        },
{
    let (f, t) = match (from, to) {
        (Some(f), Some(t)) => (f, t),
        _ => return Err(SbbError::MissingArgument),
    };
    let n = result_count(number)?;
    Ok((String::from_str(f), String::from_str(t), n))
}

/// What `result_count` gives.
pub open spec fn result_count_spec(number: Option<&str>) -> Result<i32, SbbError> {
    match number {
        None => Ok(DEFAULT_NUMBER),
        Some(s) => match decimal_i32(s@) {
            Some(n) => Ok(n),
            None => Err(SbbError::InvalidNumber),
        },
    }
}

/// The address of the connections between `from` and `to` under `base`: the
/// first page, with at most `limit` of them.
pub open spec fn connections_url_text(base: Seq<char>, from: Seq<char>, to: Seq<char>, limit: int) -> Seq<char> {
    base + "/connections?from="@ + from + "&to="@ + to + "&page="@ + int_text(DEFAULT_PAGE as int)
        + "&limit="@ + int_text(limit)
}

/// The address to fetch the connections between `from` and `to` from.
pub fn connections_url(base: &str, from: &str, to: &str, limit: i32) -> (r: String)
    ensures
        r@ == connections_url_text(base@, from@, to@, limit as int),
{
    let mut s = String::from_str(base);
    s.append("/connections?from=");
    s.append(from);
    s.append("&to=");
    s.append(to);
    s.append("&page=");
    push_signed(&mut s, DEFAULT_PAGE as i64);
    s.append("&limit=");
    push_signed(&mut s, limit as i64);
    s
}

} // verus!
