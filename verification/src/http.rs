//! What every client shares: the request that it hands out, the URL that the
//! request goes to, and the reading of a reply.
use crate::error::WardenError;
use crate::outside::{
    append_pair, directory, fits_a_url, is_plain_path, is_plain_reference, is_web_url, join_url,
    parse_url, url_joined, url_parsed, url_text, with_pair,
};
use crate::route::{lemma_directory_has_no_query, lemma_plain_path};
use crate::text::{form_pair, lemma_pair_alphabet, lemma_same_rest, lemma_split};
use reqwest::Url;
use vstd::prelude::*;

verus! {

/// The HTTP method of a request.
#[derive(Debug, Clone, Copy, PartialEq, Eq, Structural)]
pub enum Method {
    Get,
    Post,
    Put,
    Delete,
}

/// One HTTP request, ready to be sent.
#[derive(Debug)]
pub struct Request<B> {
    pub method: Method,
    pub url: Url,
    /// The token of the `Authorization: Bearer` header, where one is sent.
    pub bearer: Option<String>,
    /// What is sent as the body.
    pub body: B,
}

// ---------------------------------------------------------------------------
// The URL of a request
// ---------------------------------------------------------------------------
/// What a text comes to as a base URL: the text of the URL, or the message of the
/// configuration error.
pub open spec fn base_url_of(text: Seq<char>) -> Result<Seq<char>, Seq<char>> {
    match url_parsed(text) {
        Ok(url) => Ok(url),
        Err(message) => Err("base_url: "@ + message),
    }
}

/// Where a path leads from a base URL: the text of the URL, or the message of the
/// configuration error, which names the path.
pub open spec fn endpoint(base: Url, path: Seq<char>) -> Result<Seq<char>, Seq<char>> {
    labelled_endpoint(base, path, path)
}

/// As [`endpoint`], with the name that the message gives to the path.
pub open spec fn labelled_endpoint(base: Url, path: Seq<char>, label: Seq<char>) -> Result<
    Seq<char>,
    Seq<char>,
> {
    match url_joined(url_text(base), path) {
        Ok(url) => Ok(url),
        Err(message) => Err("join "@ + label + ": "@ + message),
    }
}

/// As [`endpoint`], for a URL that a query is put behind: one of over 4 GB takes none.
pub open spec fn query_endpoint(base: Url, path: Seq<char>) -> Result<Seq<char>, Seq<char>> {
    match endpoint(base, path) {
        Ok(url) => if fits_a_url(url) {
            Ok(url)
        } else {
            Err("join "@ + path + ": "@ + "URLs more than 4 GB are not supported"@)
        },
        Err(message) => Err(message),
    }
}

/// A target with one more query pair behind it, where there is a URL.
pub open spec fn and_pair(
    target: Result<Seq<char>, Seq<char>>,
    name: Seq<char>,
    value: Seq<char>,
) -> Result<Seq<char>, Seq<char>> {
    match target {
        Ok(url) => Ok(with_pair(url, name, value)),
        Err(message) => Err(message),
    }
}

/// Whether a URL is that of a target, and an error the configuration error of a
/// target that is none.
pub open spec fn leads_to(
    r: Result<Url, WardenError>,
    target: Result<Seq<char>, Seq<char>>,
) -> bool {
    match r {
        Ok(url) => target == Ok::<Seq<char>, Seq<char>>(url_text(url)),
        Err(e) => e matches WardenError::InvalidConfig(message) && target == Err::<
            Seq<char>,
            Seq<char>,
        >(message@),
    }
}

/// Whether a request goes to a target, and an error is the configuration error of
/// a target that is none.
pub open spec fn goes_to<B>(
    r: Result<Request<B>, WardenError>,
    target: Result<Seq<char>, Seq<char>>,
) -> bool {
    match r {
        Ok(request) => target == Ok::<Seq<char>, Seq<char>>(url_text(request.url)),
        Err(e) => e matches WardenError::InvalidConfig(message) && target == Err::<
            Seq<char>,
            Seq<char>,
        >(message@),
    }
}

/// Whether a target is the directory of the base URL with a path behind it, given
/// an `http` or `https` base and that the whole is no longer than a URL may be.
pub open spec fn lands_on(
    base: Url,
    target: Result<Seq<char>, Seq<char>>,
    path: Seq<char>,
) -> bool {
    is_web_url(url_text(base)) && fits_a_url(directory(url_text(base)) + path) ==> target == Ok::<
        Seq<char>,
        Seq<char>,
    >(directory(url_text(base)) + path)
}

/// As [`lands_on`], with a query behind the path, whose length does not count.
pub open spec fn lands_on_query(
    base: Url,
    target: Result<Seq<char>, Seq<char>>,
    path: Seq<char>,
    query: Seq<char>,
) -> bool {
    is_web_url(url_text(base)) && fits_a_url(directory(url_text(base)) + path) ==> target == Ok::<
        Seq<char>,
        Seq<char>,
    >(directory(url_text(base)) + path + query)
}

/// A query of one pair.
pub open spec fn first_pair(name: Seq<char>, value: Seq<char>) -> Seq<char> {
    seq!['?'] + form_pair(name, value)
}

/// A query with one more pair.
pub open spec fn next_pair(query: Seq<char>, name: Seq<char>, value: Seq<char>) -> Seq<char> {
    query + seq!['&'] + form_pair(name, value)
}

/// On one base URL, two paths land on the same URL only when they are the same path.
pub proof fn law_paths_keep_apart(base: Url, a: Seq<char>, b: Seq<char>)
    requires
        directory(url_text(base)) + a == directory(url_text(base)) + b,
    ensures
        a == b,
{
    lemma_same_rest(directory(url_text(base)), a, b);
}

/// On one base URL, two paths with a query behind them land on the same URL only when
/// they are the same path with the same query.
pub proof fn law_queries_keep_apart(
    base: Url,
    a: Seq<char>,
    a_query: Seq<char>,
    b: Seq<char>,
    b_query: Seq<char>,
)
    requires
        directory(url_text(base)) + a + (seq!['?'] + a_query) == directory(url_text(base)) + b + (
        seq!['?'] + b_query),
        is_plain_path(a),
        is_plain_path(b),
    ensures
        a == b,
        a_query == b_query,
{
    let dir = directory(url_text(base));
    let a_rest = a + seq!['?'] + a_query;
    let b_rest = b + seq!['?'] + b_query;
    assert(dir + a + (seq!['?'] + a_query) == dir + a_rest);
    assert(dir + b + (seq!['?'] + b_query) == dir + b_rest);
    lemma_same_rest(dir, a_rest, b_rest);
    lemma_plain_path(a);
    lemma_plain_path(b);
    lemma_split(a, a_query, b, b_query, '?');
}

/// What is behind the first pair of a query: further pairs, where there are any.
pub open spec fn tail(more: Option<Seq<char>>) -> Seq<char> {
    match more {
        Some(pairs) => seq!['&'] + pairs,
        None => seq![],
    }
}

/// Where two queries are the same, so are their first pairs and what is behind them.
pub proof fn lemma_same_tail(
    a: Seq<char>,
    a_more: Option<Seq<char>>,
    b: Seq<char>,
    b_more: Option<Seq<char>>,
)
    requires
        a + tail(a_more) == b + tail(b_more),
        !a.contains('&'),
        !b.contains('&'),
    ensures
        a == b,
        a_more == b_more,
{
    let a_whole = a + tail(a_more);
    let b_whole = b + tail(b_more);
    if a_more is None {
        assert(a_whole == a);
    } else {
        assert(a_whole[a.len() as int] == '&');
    }
    if b_more is None {
        assert(b_whole == b);
    } else {
        assert(b_whole[b.len() as int] == '&');
    }
    if let (Some(x), Some(y)) = (a_more, b_more) {
        assert(a_whole == a + seq!['&'] + x);
        assert(b_whole == b + seq!['&'] + y);
        lemma_split(a, x, b, y, '&');
    }
}

/// A request that goes to a target has the target's URL; an error is the configuration
/// error with the target's message. So there is a request exactly where the target is a
/// URL.
pub proof fn law_request_goes_to_its_target<B>(
    r: Result<Request<B>, WardenError>,
    target: Result<Seq<char>, Seq<char>>,
)
    requires
        goes_to(r, target),
    ensures
        match r {
            Ok(request) => target is Ok && target->Ok_0 == url_text(request.url),
            Err(WardenError::InvalidConfig(message)) => target is Err && target->Err_0
                == message@,
            Err(_) => false,
        },
{
}

/// A URL that leads to a target is the target's URL; an error is the configuration error
/// with the target's message. So there is a URL exactly where the target is one.
pub proof fn law_url_leads_to_its_target(
    r: Result<Url, WardenError>,
    target: Result<Seq<char>, Seq<char>>,
)
    requires
        leads_to(r, target),
    ensures
        match r {
            Ok(url) => target is Ok && target->Ok_0 == url_text(url),
            Err(WardenError::InvalidConfig(message)) => target is Err && target->Err_0
                == message@,
            Err(_) => false,
        },
{
}

/// What lands on a path is the directory of the base URL with the path behind it.
pub proof fn law_landing(base: Url, target: Result<Seq<char>, Seq<char>>, path: Seq<char>)
    requires
        lands_on(base, target, path),
        is_web_url(url_text(base)),
        fits_a_url(directory(url_text(base)) + path),
    ensures
        target is Ok,
        target->Ok_0.take(directory(url_text(base)).len() as int) == directory(url_text(base)),
        target->Ok_0.skip(directory(url_text(base)).len() as int) == path,
{
    let dir = directory(url_text(base));
    assert((dir + path).take(dir.len() as int) == dir);
    assert((dir + path).skip(dir.len() as int) == path);
}

/// What lands on a path with a query is the directory of the base URL with the path and the
/// query behind it.
pub proof fn law_landing_with_query(
    base: Url,
    target: Result<Seq<char>, Seq<char>>,
    path: Seq<char>,
    query: Seq<char>,
)
    requires
        lands_on_query(base, target, path, query),
        is_web_url(url_text(base)),
        fits_a_url(directory(url_text(base)) + path),
    ensures
        target is Ok,
        target->Ok_0.take(directory(url_text(base)).len() as int) == directory(url_text(base)),
        target->Ok_0.skip(directory(url_text(base)).len() as int) == path + query,
{
    let dir = directory(url_text(base));
    assert(dir + path + query == dir + (path + query));
    assert((dir + (path + query)).take(dir.len() as int) == dir);
    assert((dir + (path + query)).skip(dir.len() as int) == path + query);
}

/// A text is a base URL exactly where it parses. The error begins with `base_url: ` and
/// ends with the parser's message.
pub proof fn law_base_url(text: Seq<char>)
    ensures
        match (url_parsed(text), base_url_of(text)) {
            (Ok(url), Ok(base)) => base == url,
            (Err(why), Err(message)) => message.take(10) == "base_url: "@ && message.skip(10)
                == why,
            _ => false,
        },
{
    reveal_strlit("base_url: ");
    assert("base_url: "@.len() == 10);
    if let Err(why) = url_parsed(text) {
        assert(("base_url: "@ + why).take(10) == "base_url: "@);
        assert(("base_url: "@ + why).skip(10) == why);
    }
}

/// A path leads where the join of the base URL and the path leads. The error begins with
/// `join ` and the path, and ends with the joiner's message.
pub proof fn law_endpoint(base: Url, path: Seq<char>)
    ensures
        match (url_joined(url_text(base), path), endpoint(base, path)) {
            (Ok(url), Ok(target)) => target == url,
            (Err(why), Err(message)) => {
                &&& message.len() == path.len() + why.len() + 7
                &&& message.take(5) == "join "@
                &&& message.skip(5).take(path.len() as int) == path
                &&& message.skip(5 + path.len() as int).take(2) == ": "@
                &&& message.skip(7 + path.len() as int) == why
            },
            _ => false,
        },
        query_endpoint(base, path) is Ok ==> query_endpoint(base, path) == endpoint(base, path)
            && fits_a_url(query_endpoint(base, path)->Ok_0),
        endpoint(base, path) is Err ==> query_endpoint(base, path) == endpoint(base, path),
        (endpoint(base, path) is Ok && fits_a_url(endpoint(base, path)->Ok_0)) ==> query_endpoint(
            base,
            path,
        ) is Ok,
{
    reveal_strlit("join ");
    reveal_strlit(": ");
    assert("join "@.len() == 5);
    assert(": "@.len() == 2);
    if let Err(why) = url_joined(url_text(base), path) {
        let message = "join "@ + path + ": "@ + why;
        assert(message.take(5) == "join "@);
        assert(message.skip(5).take(path.len() as int) == path);
        assert(message.skip(5 + path.len() as int).take(2) == ": "@);
        assert(message.skip(7 + path.len() as int) == why);
    }
}

/// Read a base URL. A text that is no URL is a configuration error.
pub fn parse_base_url(text: &str) -> (r: Result<Url, WardenError>)
    ensures
        leads_to(r, base_url_of(text@)),
{
    match parse_url(text) {
        Ok(url) => Ok(url),
        Err(message) => {
            let mut out = "base_url: ".to_owned();
            out.append(message.as_str());
            Err(WardenError::InvalidConfig(out))
        },
    }
}

fn join_failure(label: &str, message: &str) -> (e: WardenError)
    ensures
        e matches WardenError::InvalidConfig(m) && m@ == "join "@ + label@ + ": "@ + message@,
{
    let mut out = "join ".to_owned();
    out.append(label);
    out.append(": ");
    out.append(message);
    WardenError::InvalidConfig(out)
}

pub(crate) fn labelled_join(base: &Url, path: &str, label: &str) -> (r: Result<Url, WardenError>)
    ensures
        leads_to(r, labelled_endpoint(*base, path@, label@)),
        is_plain_reference(path@) ==> lands_on(
            *base,
            labelled_endpoint(*base, path@, label@),
            path@,
        ),
        !path@.contains('#') ==> (r matches Ok(url) ==> !url_text(url).contains('#')),
{
    match join_url(base, path) {
        Ok(url) => Ok(url),
        Err(message) => Err(join_failure(label, message.as_str())),
    }
}

pub(crate) fn join(base: &Url, path: &str) -> (r: Result<Url, WardenError>)
    ensures
        leads_to(r, endpoint(*base, path@)),
        is_plain_reference(path@) ==> lands_on(*base, endpoint(*base, path@), path@),
        !path@.contains('#') ==> (r matches Ok(url) ==> !url_text(url).contains('#')),
{
    labelled_join(base, path, path)
}

/// As [`join`], for a URL that a query is put behind.
pub(crate) fn join_for_query(base: &Url, path: &str) -> (r: Result<Url, WardenError>)
    requires
        !path@.contains('#'),
    ensures
        leads_to(r, query_endpoint(*base, path@)),
        is_plain_reference(path@) ==> lands_on(*base, query_endpoint(*base, path@), path@),
        r matches Ok(url) ==> !url_text(url).contains('#') && fits_a_url(url_text(url)),
{
    match join(base, path) {
        Ok(url) => {
            let length: u64 = url.as_str().as_bytes().len() as u64;
            if length > 0xffff_ffff {
                Err(join_failure(path, "URLs more than 4 GB are not supported"))
            } else {
                Ok(url)
            }
        },
        Err(e) => Err(e),
    }
}

/// The request for the URL that a path leads to.
pub(crate) fn request<B>(
    method: Method,
    base: &Url,
    path: &str,
    bearer: &Option<String>,
    body: B,
) -> (r: Result<Request<B>, WardenError>)
    ensures
        goes_to(r, endpoint(*base, path@)),
        is_plain_reference(path@) ==> lands_on(*base, endpoint(*base, path@), path@),
        r matches Ok(request) ==> {
            &&& request.method == method
            &&& request.bearer == *bearer
            &&& request.body == body
        },
{
    match join(base, path) {
        Ok(url) => Ok(Request { method, url, bearer: copy_token(bearer), body }),
        Err(e) => Err(e),
    }
}

pub(crate) fn copy_token(token: &Option<String>) -> (r: Option<String>)
    ensures
        r == *token,
{
    match token {
        Some(token) => Some(token.clone()),
        None => None,
    }
}

/// Put one more pair behind a URL.
pub(crate) fn add_pair(url: &mut Url, name: &str, value: &str)
    requires
        !url_text(*old(url)).contains('#'),
        url_text(*old(url)).contains('?') || fits_a_url(url_text(*old(url))),
    ensures
        url_text(*final(url)) == with_pair(url_text(*old(url)), name@, value@),
        !url_text(*final(url)).contains('#'),
        url_text(*final(url)).contains('?'),
{
    let ghost before = url_text(*url);
    append_pair(url, name, value);
    proof {
        lemma_pair_keeps_marks(before, name@, value@);
    }
}

/// The first pair of a URL stands behind a `?`.
pub proof fn lemma_first_pair(url: Seq<char>, name: Seq<char>, value: Seq<char>)
    requires
        !url.contains('?'),
    ensures
        with_pair(url, name, value) == url + first_pair(name, value),
{
    assert(with_pair(url, name, value) =~= url + first_pair(name, value));
}

/// Every further pair of a URL stands behind a `&`.
pub proof fn lemma_next_pair(url: Seq<char>, query: Seq<char>, name: Seq<char>, value: Seq<char>)
    requires
        query.len() > 1,
        query[0] == '?',
    ensures
        with_pair(url + query, name, value) == url + next_pair(query, name, value),
{
    assert((url + query)[url.len() as int] == '?');
    assert((url + query).drop_last()[url.len() as int] == '?');
    assert(with_pair(url + query, name, value) =~= url + next_pair(query, name, value));
}

/// A target that lands on a plain path lands on it with a first pair behind it.
pub proof fn lemma_lands_on_first_pair(
    base: Url,
    target: Result<Seq<char>, Seq<char>>,
    path: Seq<char>,
    name: Seq<char>,
    value: Seq<char>,
)
    requires
        is_plain_path(path),
        lands_on(base, target, path),
    ensures
        lands_on_query(base, and_pair(target, name, value), path, first_pair(name, value)),
{
    let url = directory(url_text(base)) + path;
    lemma_directory_has_no_query(url_text(base));
    lemma_plain_path(path);
    assert forall|i: int| 0 <= i < url.len() implies url[i] != '?' by {
        let dir = directory(url_text(base));
        if i < dir.len() {
            assert(dir.contains(dir[i]));
        } else {
            assert(path.contains(path[i - dir.len()]));
        }
    }
    lemma_first_pair(url, name, value);
}

/// A target that lands on a path with a query lands on it with one more pair.
pub proof fn lemma_lands_on_next_pair(
    base: Url,
    target: Result<Seq<char>, Seq<char>>,
    path: Seq<char>,
    query: Seq<char>,
    name: Seq<char>,
    value: Seq<char>,
)
    requires
        query.len() > 1,
        query[0] == '?',
        lands_on_query(base, target, path, query),
    ensures
        lands_on_query(base, and_pair(target, name, value), path, next_pair(query, name, value)),
{
    lemma_next_pair(directory(url_text(base)) + path, query, name, value);
}

proof fn lemma_pair_keeps_marks(url: Seq<char>, name: Seq<char>, value: Seq<char>)
    requires
        !url.contains('#'),
    ensures
        !with_pair(url, name, value).contains('#'),
        with_pair(url, name, value).contains('?'),
{
    let pair = form_pair(name, value);
    let whole = with_pair(url, name, value);
    lemma_pair_alphabet(name, value);
    assert forall|i: int| 0 <= i < whole.len() implies whole[i] != '#' by {
        let k = whole.len() - pair.len();
        if i >= k {
            assert(whole[i] == pair[i - k]);
            assert(pair.contains(pair[i - k]));
        } else if i < url.len() {
            assert(whole[i] == url[i]);
            assert(url.contains(url[i]));
        }
    }
    if !url.contains('?') {
        assert(whole[url.len() as int] == '?');
    } else {
        let i = choose|i: int| 0 <= i < url.len() && url[i] == '?';
        assert(whole[i] == '?');
    }
}

// ---------------------------------------------------------------------------
// The reply
// ---------------------------------------------------------------------------
/// What a decoded body comes to: the value, or the decoder's error.
pub open spec fn decoded_value<T>(decoded: Result<T, serde_json::Error>) -> Result<T, WardenError> {
    match decoded {
        Ok(value) => Ok(value),
        Err(e) => Err(WardenError::Decode(e)),
    }
}

/// What a reply comes to where 200 is the one success and every other status is an
/// error of the service.
pub open spec fn plain_reply<T>(
    status: u16,
    body: String,
    decoded: Result<T, serde_json::Error>,
) -> Result<T, WardenError> {
    if status == 200 {
        decoded_value(decoded)
    } else {
        Err(WardenError::Server { status, body })
    }
}

/// The error of a status that is no success, where 401 and 400 have errors of
/// their own.
pub open spec fn status_error(status: u16, body: String) -> WardenError {
    if status == 401 {
        WardenError::Unauthorized(body)
    } else if status == 400 {
        WardenError::BadRequest(body)
    } else {
        WardenError::Server { status, body }
    }
}

/// The error of a status keeps the body word for word. It is never a veto, and it is
/// an error of the service, with the status, unless the status is 401 or 400.
pub proof fn law_status_error_keeps_the_body(status: u16, body: String)
    ensures
        match status_error(status, body) {
            WardenError::Unauthorized(kept) => status == 401 && kept == body,
            WardenError::BadRequest(kept) => status == 400 && kept == body,
            WardenError::Server { status: s, body: kept } => s == status && status != 401 && status
                != 400 && kept == body,
            _ => false,
        },
{
}

/// A reply of this form is a value exactly where its status is 200 and its body could be
/// decoded, and then it is the decoded value. A body that could not be decoded is the
/// decoder's error. Every other status is an error of the service, with the status and the
/// body as they came.
pub proof fn law_plain_reply<T>(
    status: u16,
    body: String,
    decoded: Result<T, serde_json::Error>,
)
    ensures
        match plain_reply(status, body, decoded) {
            Ok(value) => status == 200 && decoded == Ok::<T, serde_json::Error>(value),
            Err(WardenError::Decode(e)) => status == 200 && decoded == Err::<
                T,
                serde_json::Error,
            >(e),
            Err(WardenError::Server { status: s, body: b }) => status != 200 && s == status && b
                == body,
            Err(_) => false,
        },
{
}

/// A decoded body is its value where there is one, and the decoder's error otherwise.
pub proof fn law_decoded_value<T>(decoded: Result<T, serde_json::Error>)
    ensures
        match decoded_value(decoded) {
            Ok(value) => decoded == Ok::<T, serde_json::Error>(value),
            Err(WardenError::Decode(e)) => decoded == Err::<T, serde_json::Error>(e),
            Err(_) => false,
        },
{
}

pub(crate) fn read_decoded<T>(decoded: Result<T, serde_json::Error>) -> (r: Result<T, WardenError>)
    ensures
        r == decoded_value(decoded),
{
    match decoded {
        Ok(value) => Ok(value),
        Err(e) => Err(WardenError::Decode(e)),
    }
}

pub(crate) fn read_plain_reply<T>(
    status: u16,
    body: String,
    decoded: Result<T, serde_json::Error>,
) -> (r: Result<T, WardenError>)
    ensures
        r == plain_reply(status, body, decoded),
{
    if status == 200 {
        read_decoded(decoded)
    } else {
        Err(WardenError::Server { status, body })
    }
}

pub(crate) fn read_status_error(status: u16, body: String) -> (e: WardenError)
    ensures
        e == status_error(status, body),
{
    if status == 401 {
        WardenError::Unauthorized(body)
    } else if status == 400 {
        WardenError::BadRequest(body)
    } else {
        WardenError::Server { status, body }
    }
}

} // verus!
