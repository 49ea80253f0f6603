//! The calls into outside crates, and what is taken for granted about them.
//!
//! Everything here is believed, not proved. The rest of the crate is proved from
//! these contracts.
use crate::text::{form_pair, is_digit, is_segment_char};
use reqwest::Url;
use serde_json::Value;
use vstd::prelude::*;
use vstd::utf8::encode_utf8;

verus! {

// ---------------------------------------------------------------------------
// Outside types
// ---------------------------------------------------------------------------
/// A parsed URL (`url::Url`, which `reqwest` hands out). It is opaque here but for
/// its text, [`url_text`].
#[verifier::external_type_specification]
#[verifier::external_body]
pub struct ExUrl(reqwest::Url);

/// A JSON value. It is carried, never looked into.
#[verifier::external_type_specification]
#[verifier::external_body]
pub struct ExValue(serde_json::Value);

/// Why a text is not the JSON that was asked for. It is carried, never looked into.
#[verifier::external_type_specification]
#[verifier::external_body]
pub struct ExJsonError(serde_json::Error);

/// Why a request or a reply did not get through. It is carried, never looked into.
#[verifier::external_type_specification]
#[verifier::external_body]
pub struct ExTransportError(reqwest::Error);

// ---------------------------------------------------------------------------
// Text of std
// ---------------------------------------------------------------------------
/// `String::push` appends the character.
pub assume_specification[ String::push ](s: &mut String, c: char)
    ensures
        final(s)@ == old(s)@.push(c),
;

// ---------------------------------------------------------------------------
// URLs
// ---------------------------------------------------------------------------
/// The text of a URL: what `Url::as_str` returns.
pub uninterp spec fn url_text(url: Url) -> Seq<char>;

/// The text of the URL that `Url::parse` makes of a text, or the message of the
/// error that it gives.
pub uninterp spec fn url_parsed(text: Seq<char>) -> Result<Seq<char>, Seq<char>>;

/// The text of the URL that `Url::join` makes of a reference on a base, or the
/// message of the error that it gives.
pub uninterp spec fn url_joined(base: Seq<char>, reference: Seq<char>) -> Result<
    Seq<char>,
    Seq<char>,
>;

/// A text up to its first `?` or `#`.
pub open spec fn stem(text: Seq<char>) -> Seq<char>
    decreases text.len(),
{
    if text.len() == 0 || text[0] == '?' || text[0] == '#' {
        seq![]
    } else {
        seq![text[0]] + stem(text.drop_first())
    }
}

/// A text up to and with its last `/`.
pub open spec fn through_last_slash(text: Seq<char>) -> Seq<char>
    decreases text.len(),
{
    if text.len() == 0 || text.last() == '/' {
        text
    } else {
        through_last_slash(text.drop_last())
    }
}

/// The part of a base URL that a relative reference is put behind: no query, no
/// fragment, and the path up to its last `/`.
pub open spec fn directory(base: Seq<char>) -> Seq<char> {
    through_last_slash(stem(base))
}

/// The text of an `http` or `https` URL.
pub open spec fn is_web_url(text: Seq<char>) -> bool {
    "http://"@.is_prefix_of(text) || "https://"@.is_prefix_of(text)
}

/// A segment that names a place relative to the ones before it.
pub open spec fn is_dot_segment(segment: Seq<char>) -> bool {
    segment == seq!['.'] || segment == seq!['.', '.']
}

/// Whether an escaped dot (`%2e`) stands at a place of a text.
pub open spec fn escaped_dot_at(text: Seq<char>, i: int) -> bool {
    &&& 0 <= i
    &&& i + 2 < text.len()
    &&& text[i] == '%'
    &&& text[i + 1] == '2'
    &&& (text[i + 2] == 'e' || text[i + 2] == 'E')
}

/// Whether a range of a path is one of its segments.
pub open spec fn is_segment(path: Seq<char>, i: int, j: int) -> bool {
    &&& 0 <= i <= j <= path.len()
    &&& (i == 0 || path[i - 1] == '/')
    &&& (j == path.len() || path[j] == '/')
}

/// A relative path that resolves to itself: unreserved characters, escapes and
/// `/`, with no dot segment, spelled out or escaped.
pub open spec fn is_plain_path(path: Seq<char>) -> bool {
    &&& path.len() > 0
    &&& path[0] != '/'
    &&& forall|i: int|
        0 <= i < path.len() ==> is_segment_char(#[trigger] path[i]) || path[i] == '/'
    &&& forall|i: int, j: int| #[trigger]
        is_segment(path, i, j) ==> !is_dot_segment(path.subrange(i, j))
    &&& forall|i: int| !#[trigger] escaped_dot_at(path, i)
}

/// No query at all, or one of unreserved characters, escapes, `=` and `&`.
pub open spec fn is_plain_query(query: Seq<char>) -> bool {
    query.len() > 0 ==> {
        &&& query[0] == '?'
        &&& forall|i: int|
            1 <= i < query.len() ==> is_segment_char(#[trigger] query[i]) || query[i] == '='
                || query[i] == '&'
    }
}

/// A plain path with at most a plain query behind it.
pub open spec fn is_plain_reference(reference: Seq<char>) -> bool {
    &&& is_plain_path(stem(reference))
    &&& is_plain_query(reference.skip(stem(reference).len() as int))
}

/// Whether a text is no longer than a URL may be, which is 4 GB.
pub open spec fn fits_a_url(text: Seq<char>) -> bool {
    encode_utf8(text).len() <= u32::MAX
}

/// Whether a reference is put behind the directory of a base as it stands: the
/// base is an `http` or `https` URL, the reference is plain, and the whole is no
/// longer than a URL may be.
pub open spec fn resolves_plainly(base: Seq<char>, reference: Seq<char>) -> bool {
    &&& is_web_url(base)
    &&& is_plain_reference(reference)
    &&& fits_a_url(directory(base) + reference)
}

/// A URL without a fragment, with one more query pair: behind a `?` where it has
/// no query yet, behind a `&` where it has one that is not empty.
pub open spec fn with_pair(url: Seq<char>, name: Seq<char>, value: Seq<char>) -> Seq<char> {
    if !url.contains('?') {
        url.push('?') + form_pair(name, value)
    } else if url.drop_last().contains('?') {
        url.push('&') + form_pair(name, value)
    } else {
        url + form_pair(name, value)
    }
}

/// `Url::as_str` gives the text of the URL.
pub assume_specification[ Url::as_str ](url: &Url) -> (r: &str)
    ensures
        r@ == url_text(*url),
;

/// `Url::clone` gives the same URL.
pub assume_specification[ <Url as Clone>::clone ](url: &Url) -> (r: Url)
    ensures
        r == *url,
;

/// `Url::parse`, with the message of its error in place of the error. The URL, or
/// the message, depends on the text alone.
#[verifier::external_body]
pub(crate) fn parse_url(text: &str) -> (r: Result<Url, String>)
    ensures
        match r {
            Ok(url) => url_parsed(text@) == Ok::<Seq<char>, Seq<char>>(url_text(url)),
            Err(message) => url_parsed(text@) == Err::<Seq<char>, Seq<char>>(message@),
        },
{
    Url::parse(text).map_err(|e| e.to_string())
}

/// `Url::join`, with the message of its error in place of the error. The URL, or
/// the message, depends on the text of the base and the reference alone. A
/// reference without a `#` makes a URL without one. On an `http` or `https` base, a
/// plain reference is put behind the directory of the base as it stands.
#[verifier::external_body]
pub(crate) fn join_url(base: &Url, reference: &str) -> (r: Result<Url, String>)
    ensures
        match r {
            Ok(url) => url_joined(url_text(*base), reference@) == Ok::<Seq<char>, Seq<char>>(
                url_text(url),
            ),
            Err(message) => url_joined(url_text(*base), reference@) == Err::<Seq<char>, Seq<char>>(
                message@,
            ),
        },
        r matches Ok(url) ==> (!reference@.contains('#') ==> !url_text(url).contains('#')),
        r matches Ok(url) ==> (resolves_plainly(url_text(*base), reference@) ==> url_text(url)
            == directory(url_text(*base)) + reference@),
        r is Err ==> !resolves_plainly(url_text(*base), reference@),
{
    base.join(reference).map_err(|e| e.to_string())
}

/// `Url::query_pairs_mut` with one `append_pair`. The URL must have no fragment,
/// and a `?` that has still to be written must stand within the first 4 GB.
#[verifier::external_body]
pub(crate) fn append_pair(url: &mut Url, name: &str, value: &str)
    requires
        !url_text(*old(url)).contains('#'),
        url_text(*old(url)).contains('?') || fits_a_url(url_text(*old(url))),
    ensures
        url_text(*final(url)) == with_pair(url_text(*old(url)), name@, value@),
{
    url.query_pairs_mut().append_pair(name, value);
}

// ---------------------------------------------------------------------------
// JSON
// ---------------------------------------------------------------------------
/// The JSON value that `serde_json::from_str` reads from a text, or its error.
pub uninterp spec fn json_parsed(text: Seq<char>) -> Result<Value, serde_json::Error>;

/// `serde_json::from_str` into a `Value`. The value, or the error, depends on the
/// text alone.
#[verifier::external_body]
pub(crate) fn parse_json(text: &str) -> (r: Result<Value, serde_json::Error>)
    ensures
        r == json_parsed(text@),
{
    serde_json::from_str(text)
}

/// The JSON string that `Value::from` makes of a text.
pub uninterp spec fn json_text(text: Seq<char>) -> Value;

/// The JSON number that `Value::from` makes of an unsigned number.
pub uninterp spec fn json_number(n: u64) -> Value;

/// The JSON boolean that `Value::from` makes of a flag.
pub uninterp spec fn json_flag(flag: bool) -> Value;

/// The JSON object that `Value::from_iter` makes of named fields.
pub uninterp spec fn json_object(fields: Map<Seq<char>, Value>) -> Value;

/// Named fields by name. Of two with the same name the later counts.
pub open spec fn by_name(fields: Seq<(&str, Value)>) -> Map<Seq<char>, Value>
    decreases fields.len(),
{
    if fields.len() == 0 {
        map![]
    } else {
        by_name(fields.drop_last()).insert(fields.last().0@, fields.last().1)
    }
}

/// `Value::from` on a text. The value depends on the text alone.
#[verifier::external_body]
pub(crate) fn make_text(text: &str) -> (r: Value)
    ensures
        r == json_text(text@),
{
    Value::from(text)
}

/// `Value::from` on an unsigned number. The value depends on the number alone.
#[verifier::external_body]
pub(crate) fn make_number(n: u64) -> (r: Value)
    ensures
        r == json_number(n),
{
    Value::from(n)
}

/// `Value::from` on a flag. The value depends on the flag alone.
#[verifier::external_body]
pub(crate) fn make_flag(flag: bool) -> (r: Value)
    ensures
        r == json_flag(flag),
{
    Value::from(flag)
}

/// `Value::from_iter` on named fields, which makes an object. The value depends on
/// the fields alone, and not on the order of those with different names: an object
/// keeps its fields sorted by name.
#[verifier::external_body]
pub(crate) fn make_object(fields: Vec<(&str, Value)>) -> (r: Value)
    ensures
        r == json_object(by_name(fields@)),
{
    Value::from_iter(fields)
}

// ---------------------------------------------------------------------------
// Time
// ---------------------------------------------------------------------------
/// The RFC 3339 text, to the second and in UTC, of an instant given as seconds
/// since 1970 and nanoseconds, where `chrono` can hold that instant.
pub uninterp spec fn rfc3339_seconds(seconds: i64, nanos: u32) -> Option<Seq<char>>;

/// Whether `chrono` can hold an instant: its day is one from January 1 of the year
/// -262143 to December 31 of the year 262142, and it is less than two seconds behind its
/// second. Over one second behind is how a leap second is written down.
pub open spec fn is_instant(seconds: i64, nanos: u32) -> bool {
    -8_334_601_228_800 <= seconds <= 8_210_266_876_799 && nanos < 2_000_000_000
}

/// Whether an instant is in one of the years 0 to 9999, which are written with four
/// digits.
pub open spec fn has_plain_year(seconds: i64) -> bool {
    -62_167_219_200 <= seconds <= 253_402_300_799
}

/// A year, and behind it `-MM-DDTHH:MM:SSZ`. Whole seconds, and nothing behind them but
/// the `Z` for UTC.
pub open spec fn is_whole_second_in_utc(text: Seq<char>) -> bool {
    let year = text.len() - 16;
    &&& year >= 4
    &&& forall|i: int|
        0 <= i < year ==> is_digit(#[trigger] text[i]) || (i == 0 && year > 4 && (text[i] == '+'
            || text[i] == '-'))
    &&& text[year] == '-' && is_digit(text[year + 1]) && is_digit(text[year + 2])
    &&& text[year + 3] == '-' && is_digit(text[year + 4]) && is_digit(text[year + 5])
    &&& text[year + 6] == 'T' && is_digit(text[year + 7]) && is_digit(text[year + 8])
    &&& text[year + 9] == ':' && is_digit(text[year + 10]) && is_digit(text[year + 11])
    &&& text[year + 12] == ':' && is_digit(text[year + 13]) && is_digit(text[year + 14])
    &&& text[year + 15] == 'Z'
}

/// `to_rfc3339_opts`, to the second and with `Z` for UTC, on the `DateTime<Utc>` of two
/// numbers: `DateTime::from_timestamp` takes the seconds, `with_nanosecond` puts in the
/// nanoseconds. The text, and whether there is one, depends on the two numbers alone.
/// There is one for every instant that `chrono` can hold. It is in whole seconds, with a
/// year of four digits where the year has no more. What is behind the second is cut off,
/// unless it makes a leap second.
#[verifier::external_body]
pub(crate) fn format_rfc3339(seconds: i64, nanos: u32) -> (r: Option<String>)
    ensures
        match r {
            Some(text) => rfc3339_seconds(seconds, nanos) == Some(text@),
            None => rfc3339_seconds(seconds, nanos) is None,
        },
        r is Some == is_instant(seconds, nanos),
        r matches Some(text) ==> is_whole_second_in_utc(text@),
        r matches Some(text) ==> (has_plain_year(seconds) ==> text@.len() == 20),
        r matches Some(text) ==> (nanos < 1_000_000_000 ==> rfc3339_seconds(seconds, 0) == Some(
            text@,
        )),
{
    let second = chrono::DateTime::<chrono::Utc>::from_timestamp(seconds, 0)?;
    let instant = chrono::Timelike::with_nanosecond(&second.naive_utc(), nanos)?;
    Some(instant.and_utc().to_rfc3339_opts(chrono::SecondsFormat::Secs, true))
}

} // verus!
