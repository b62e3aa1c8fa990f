//! Pieces of the HTTP API: error bodies and their status codes, page
//! limits and cursors, and the ranking of check states.
use vstd::prelude::*;

use crate::text;
use crate::text::{chars_of, i64_to_decimal, str_eq};

verus! {

broadcast use vstd::string::group_string_axioms;

/// An error answered by the API: a code, a message and the id of the
/// request.
#[derive(Debug, Clone)]
pub struct ApiError {
    pub code: String,
    pub message: String,
    pub request_id: String,
}

/// A new request id, from `uuid::Uuid::new_v4` in its hyphenated form; it
/// is random, so nothing is known of it but its length, 36 characters.
#[verifier::external_body]
fn make_request_id() -> (r: String)
    ensures
        r@.len() == 36,
{
    uuid::Uuid::new_v4().to_string()
}

/// An error with the given code and message.
pub fn not_found(code: &str, message: &str) -> (r: ApiError)
    ensures
        r.code@ == code@,
        r.message@ == message@,
        r.request_id@.len() == 36,
{
    ApiError { code: String::from_str(code), message: String::from_str(message), request_id: make_request_id() }
}

/// A bad request with the given message.
pub fn bad_request(message: &str) -> (r: ApiError)
    ensures
        r.code@ == "bad_request"@,
        r.message@ == message@,
        r.request_id@.len() == 36,
{
    ApiError {
        code: String::from_str("bad_request"),
        message: String::from_str(message),
        request_id: make_request_id(),
    }
}

/// An internal error, whose message hides the cause.
pub fn internal_error() -> (r: ApiError)
    ensures
        r.code@ == "internal_error"@,
        r.message@ == "An internal error occurred"@,
        r.request_id@.len() == 36,
{
    ApiError {
        code: String::from_str("internal_error"),
        message: String::from_str("An internal error occurred"),
        request_id: make_request_id(),
    }
}

/// The HTTP status of an error code: 404 for the codes of things not
/// found, 400 for bad requests, 500 for anything else.
pub open spec fn spec_status_for_code(code: Seq<char>) -> u16 {
    if code == "target_not_found"@ || code == "check_not_found"@ || code == "alert_not_found"@ || code
        == "group_not_found"@ || code == "route_not_found"@ {
        404
    } else if code == "bad_request"@ || code == "invalid_params"@ {
        400
    } else {
        500
    }
}

impl ApiError {
    /// The HTTP status that answers this error.
    pub fn status(&self) -> (r: u16)
        ensures
            r == spec_status_for_code(self.code@),
    {
        let c = self.code.as_str();
        if str_eq(c, "target_not_found") || str_eq(c, "check_not_found") || str_eq(c, "alert_not_found")
            || str_eq(c, "group_not_found") || str_eq(c, "route_not_found") {
            404
        } else if str_eq(c, "bad_request") || str_eq(c, "invalid_params") {
            400
        } else {
            500
        }
    }
}

/// The page size asked for, or `default`; it must be from 1 to 200.
pub fn validate_limit(value: Option<i64>, default: i64) -> (r: Result<i64, ApiError>)
    ensures
        ({
            let limit = match value {
                Some(v) => v,
                None => default,
            };
            &&& r is Ok <==> 1 <= limit <= 200
            &&& r matches Ok(l) ==> l == limit
            &&& r matches Err(e) ==> e.code@ == "bad_request"@ && e.message@ == "limit must be between 1 and 200"@
        }),
{
    let limit = match value {
        Some(v) => v,
        None => default,
    };
    if !(1 <= limit && limit <= 200) {
        return Err(bad_request("limit must be between 1 and 200"));
    }
    Ok(limit)
}

/// How bad a check state is, for picking a target's worst state: down,
/// degraded, no data or unknown, healthy, and anything else lowest.
pub open spec fn spec_state_rank(state: Seq<char>) -> u8 {
    if state == "down"@ {
        4
    } else if state == "degraded"@ {
        3
    } else if state == "no_data"@ || state == "unknown"@ {
        2
    } else if state == "healthy"@ {
        1
    } else {
        0
    }
}

/// The rank of a check state.
pub fn state_rank(state: &str) -> (r: u8)
    ensures
        r == spec_state_rank(state@),
{
    if str_eq(state, "down") {
        4
    } else if str_eq(state, "degraded") {
        3
    } else if str_eq(state, "no_data") || str_eq(state, "unknown") {
        2
    } else if str_eq(state, "healthy") {
        1
    } else {
        0
    }
}

/// The value of a hexadecimal digit character.
pub open spec fn hex_value(c: char) -> Option<u8> {
    if '0' <= c <= '9' {
        Some((c as int - '0' as int) as u8)
    } else if 'a' <= c <= 'f' {
        Some((c as int - 'a' as int + 10) as u8)
    } else if 'A' <= c <= 'F' {
        Some((c as int - 'A' as int + 10) as u8)
    } else {
        None
    }
}

/// The lowercase hexadecimal digit of a value below 16.
pub open spec fn hex_digit(v: u8) -> char {
    if v < 10 {
        ((v + '0' as int) as u32) as char
    } else {
        ((v - 10 + 'a' as int) as u32) as char
    }
}

/// The lowercase hexadecimal text of `b`, two digits per byte.
pub open spec fn hex_text(b: Seq<u8>) -> Seq<char>
    decreases b.len(),
{
    if b.len() == 0 {
        Seq::empty()
    } else {
        hex_text(b.drop_last()).push(hex_digit(b.last() / 16)).push(hex_digit(b.last() % 16))
    }
}

/// The bytes that the hexadecimal text `s` stands for: `None` unless it has
/// an even number of characters, each a hexadecimal digit of either case.
pub open spec fn hex_bytes(s: Seq<char>) -> Option<Seq<u8>> {
    if s.len() % 2 == 0 && forall|i: int| 0 <= i < s.len() ==> #[trigger] hex_value(s[i]) is Some {
        Some(Seq::new(s.len() / 2, |i: int| (hex_value(s[2 * i])->0 * 16 + hex_value(s[2 * i + 1])->0) as u8))
    } else {
        None
    }
}

/// `hex::encode`: the lowercase hexadecimal text of the bytes.
#[verifier::external_body]
pub(crate) fn hex_encode(data: &[u8]) -> (r: String)
    ensures
        r@ == hex_text(data@),
{
    hex::encode(data)
}

/// `hex::decode`: the bytes of a hexadecimal text of even length whose
/// characters are all hexadecimal digits, of either case; an error
/// otherwise.
#[verifier::external_body]
pub(crate) fn hex_decode(s: &str) -> (r: Option<Vec<u8>>)
    ensures
        match r {
            Some(b) => hex_bytes(s@) == Some(b@),
            None => hex_bytes(s@) is None,
        },
{
    hex::decode(s).ok()
}

/// `String::from_utf8`: the text that valid UTF-8 bytes encode; an error
/// for bytes that are not valid UTF-8.
#[verifier::external_body]
pub(crate) fn string_from_utf8(bytes: Vec<u8>) -> (r: Option<String>)
    ensures
        r is Some <==> vstd::utf8::valid_utf8(bytes@),
        r matches Some(s) ==> s@ == vstd::utf8::decode_utf8(bytes@),
{
    String::from_utf8(bytes).ok()
}

/// The text that a cursor encodes: the UTF-8 text of its hexadecimal
/// bytes.
pub open spec fn spec_decode_cursor(cursor: Seq<char>) -> Option<Seq<char>> {
    match hex_bytes(cursor) {
        Some(b) => if vstd::utf8::valid_utf8(b) {
            Some(vstd::utf8::decode_utf8(b))
        } else {
            None
        },
        None => None,
    }
}

/// Decodes a page cursor; a bad request for anything that is not the
/// hexadecimal form of a UTF-8 text.
pub fn decode_cursor(cursor: &str) -> (r: Result<String, ApiError>)
    ensures
        match r {
            Ok(s) => spec_decode_cursor(cursor@) == Some(s@),
            Err(e) => spec_decode_cursor(cursor@) is None && e.code@ == "bad_request"@ && e.message@
                == "invalid cursor"@,
        },
{
    match hex_decode(cursor) {
        Some(bytes) => match string_from_utf8(bytes) {
            Some(s) => Ok(s),
            None => Err(bad_request("invalid cursor")),
        },
        None => Err(bad_request("invalid cursor")),
    }
}

/// The value of a signed integer literal as `str::parse::<i64>` reads it:
/// an optional sign and at least one decimal digit, within range.
pub open spec fn i64_value(s: Seq<char>) -> Option<i64> {
    if s.len() > 0 && s[0] == '-' {
        let d = s.drop_first();
        if d.len() > 0 && text::all_digits(d) && text::digits_value(d) <= 9223372036854775808 {
            Some((0 - text::digits_value(d)) as i64)
        } else {
            None
        }
    } else {
        match text::uint_value(s) {
            Some(v) => if v <= 9223372036854775807 {
                Some(v as i64)
            } else {
                None
            },
            None => None,
        }
    }
}

/// Parses a signed 64-bit integer.
pub fn parse_i64(s: &str) -> (r: Option<i64>)
    ensures
        r == i64_value(s@),
{
    let cs = chars_of(s);
    if cs.len() > 0 && cs[0] == '-' {
        let d = &cs.as_slice()[1..cs.len()];
        assert(d@ =~= s@.drop_first());
        if d.len() == 0 {
            return None;
        }
        let mut i: usize = 0;
        while i < d.len()
            invariant
                i <= d@.len(),
                d@ == s@.drop_first(),
                s@.len() > 0 && s@[0] == '-',
                forall|k: int| 0 <= k < i ==> text::is_digit(#[trigger] d@[k]),
            decreases d@.len() - i,
        {
            if !('0' <= d[i] && d[i] <= '9') {
                assert(!text::is_digit(d@[i as int]));
                assert(!text::all_digits(s@.drop_first()));
                return None;
            }
            i = i + 1;
        }
        assert(text::all_digits(d@));
        match text::parse_u64_digits(d) {
            Some(v) => if v <= 9223372036854775808 {
                if v == 9223372036854775808 {
                    Some(-9223372036854775807i64 - 1)
                } else {
                    Some(-(v as i64))
                }
            } else {
                None
            },
            None => None,
        }
    } else {
        match text::parse_uint(cs.as_slice(), 9223372036854775807) {
            Some(v) => Some(v as i64),
            None => None,
        }
    }
}

/// The number that an optional cursor encodes.
pub open spec fn spec_decode_numeric_cursor(cursor: Option<Seq<char>>) -> Result<Option<i64>, ()> {
    match cursor {
        None => Ok(None),
        Some(c) => match spec_decode_cursor(c) {
            None => Err(()),
            Some(t) => match i64_value(t) {
                Some(v) => Ok(Some(v)),
                None => Err(()),
            },
        },
    }
}

/// Decodes an optional numeric page cursor.
pub fn decode_numeric_cursor(cursor: Option<&str>) -> (r: Result<Option<i64>, ApiError>)
    ensures
        match (r, spec_decode_numeric_cursor(
            match cursor {
                Some(c) => Some(c@),
                None => None,
            },
        )) {
            (Ok(v), Ok(w)) => v == w,
            (Err(e), Err(())) => e.code@ == "bad_request"@ && e.message@ == "invalid cursor"@,
            _ => false,
        },
{
    match cursor {
        None => Ok(None),
        Some(c) => {
            let t = decode_cursor(c)?;
            match parse_i64(t.as_str()) {
                Some(v) => Ok(Some(v)),
                None => Err(bad_request("invalid cursor")),
            }
        },
    }
}

/// Cuts `ids` to the first `limit` values; when values were cut, the cursor
/// of the next page: the hexadecimal form of the last kept value in
/// decimal (of the empty text when none is kept).
pub fn page_by_numeric_id(ids: &mut Vec<i64>, limit: usize) -> (r: Option<String>)
    ensures
        final(ids)@ == (if old(ids)@.len() > limit {
            old(ids)@.take(limit as int)
        } else {
            old(ids)@
        }),
        r is Some <==> old(ids)@.len() > limit,
        r matches Some(c) ==> c@ == hex_text(
            vstd::utf8::encode_utf8(
                if limit > 0 {
                    text::int_decimal(old(ids)@[limit - 1] as int)
                } else {
                    Seq::empty()
                },
            ),
        ),
{
    let has_more = ids.len() > limit;
    if has_more {
        ids.truncate(limit);
        let last = if limit > 0 {
            i64_to_decimal(ids[limit - 1])
        } else {
            String::new()
        };
        Some(hex_encode(last.as_str().as_bytes()))
    } else {
        None
    }
}

/// The milliseconds since the epoch of an RFC 3339 timestamp, as chrono
/// gives them after `DateTime::parse_from_rfc3339`; `None` for a text that
/// does not parse.
pub uninterp spec fn rfc3339_millis(s: Seq<char>) -> Option<i64>;

/// Reads an RFC 3339 timestamp with `DateTime::parse_from_rfc3339` and
/// takes its milliseconds since the epoch; its result is named
/// `rfc3339_millis`.
#[verifier::external_body]
pub(crate) fn parse_timestamp_millis(s: &str) -> (r: Option<i64>)
    ensures
        r == rfc3339_millis(s@),
{
    chrono::DateTime::parse_from_rfc3339(s).ok().map(|t| t.timestamp_millis())
}

/// The milliseconds since the epoch of a stored timestamp; zero for a text
/// that does not parse.
pub fn timestamp_millis(value: &str) -> (r: i64)
    ensures
        r == (match rfc3339_millis(value@) {
            Some(m) => m,
            None => 0,
        }),
{
    match parse_timestamp_millis(value) {
        Some(m) => m,
        None => 0,
    }
}

/// A decoded cursor gives back the text that was encoded: a cursor made of
/// the hexadecimal form of a text's UTF-8 bytes decodes to that text.
pub proof fn law_cursor_roundtrip(t: Seq<char>)
    ensures
        spec_decode_cursor(hex_text(vstd::utf8::encode_utf8(t))) == Some(t),
{
    lemma_hex_roundtrip(vstd::utf8::encode_utf8(t));
    vstd::utf8::encode_utf8_valid_utf8(t);
    vstd::utf8::encode_utf8_decode_utf8(t);
}

proof fn lemma_hex_digit_value(v: u8)
    requires
        v < 16,
    ensures
        hex_value(hex_digit(v)) == Some(v),
{
}

/// The hexadecimal text of bytes reads back as those bytes.
pub proof fn lemma_hex_roundtrip(b: Seq<u8>)
    ensures
        hex_text(b).len() == 2 * b.len(),
        hex_bytes(hex_text(b)) == Some(b),
    decreases b.len(),
{
    if b.len() > 0 {
        lemma_hex_roundtrip(b.drop_last());
        let t = hex_text(b);
        let p = hex_text(b.drop_last());
        let x = b.last();
        lemma_hex_digit_value(x / 16);
        lemma_hex_digit_value(x % 16);
        assert forall|i: int| 0 <= i < t.len() implies #[trigger] hex_value(t[i]) is Some by {
            if i < p.len() {
                assert(t[i] == p[i]);
                assert(hex_value(p[i]) is Some);
            }
        }
        let d = hex_bytes(t)->0;
        assert forall|i: int| 0 <= i < b.len() implies d[i] == b[i] by {
            if i < b.len() - 1 {
                assert(t[2 * i] == p[2 * i]);
                assert(t[2 * i + 1] == p[2 * i + 1]);
                assert(hex_bytes(p)->0[i] == b.drop_last()[i]);
            } else {
                assert(x == (x / 16) * 16 + x % 16);
            }
        }
        assert(d =~= b);
    }
}

} // verus!
