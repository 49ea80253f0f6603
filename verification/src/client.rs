//! The proxy's `POST /mcp` surface.
//!
//! [`WardenClient::call_tool`] is the common call: a JSON-RPC `tools/call` around a
//! name and arguments. [`WardenClient::send_jsonrpc`] sends any other method. Both
//! read their reply with [`WardenClient::read_reply`].
use crate::error::WardenError;
use crate::http::{
    base_url_of, decoded_value, goes_to, labelled_endpoint, labelled_join, lands_on,
    parse_base_url, read_decoded, read_status_error, status_error, Method, Request,
};
use crate::outside::{
    by_name, json_number, json_object, json_parsed, json_text, make_number, make_object,
    make_text, parse_json, url_joined, url_text,
};
use crate::route::{lemma_first_segment, lemma_plain_path, lemma_word};
use reqwest::Url;
use serde_json::Value;
use vstd::prelude::*;

verus! {

/// How a client makes itself known to the proxy.
#[derive(Debug)]
#[non_exhaustive]
pub enum Auth {
    /// Send no credentials.
    Anonymous,
    /// Send `Authorization: Bearer <token>`.
    Bearer(String),
}

impl Clone for Auth {
    fn clone(&self) -> (r: Auth)
        ensures
            r == *self,
    {
        match self {
            Auth::Anonymous => Auth::Anonymous,
            Auth::Bearer(token) => Auth::Bearer(token.clone()),
        }
    }
}

impl Auth {
    /// The token that goes along with a request, where one does.
    pub open spec fn token(self) -> Option<String> {
        match self {
            Auth::Anonymous => None,
            Auth::Bearer(token) => Some(token),
        }
    }
}

/// A client for the proxy's `POST /mcp` surface. It numbers its requests from 1.
#[derive(Debug)]
pub struct WardenClient {
    base_url: Url,
    auth: Auth,
    next_id: u64,
}

/// A client in the making: the base URL is already known to be one.
#[derive(Debug)]
pub struct WardenClientBuilder {
    base_url: Url,
    auth: Auth,
}

/// The reasons of a refused call, as the proxy's lite edition sends them. A field
/// that the body leaves out is empty.
#[derive(Debug)]
pub struct DenyResponse {
    pub reasons: Vec<String>,
    pub review_reasons: Vec<String>,
    pub intent_category: String,
}

// ---------------------------------------------------------------------------
// The body of a request
// ---------------------------------------------------------------------------
/// The parameters of a `tools/call`.
pub open spec fn tool_params(name: Seq<char>, arguments: Value) -> Value {
    json_object(map!["name"@ => json_text(name), "arguments"@ => arguments])
}

/// A JSON-RPC request.
pub open spec fn jsonrpc_body(id: u64, method: Seq<char>, params: Value) -> Value {
    json_object(
        map![
            "jsonrpc"@ => json_text("2.0"@),
            "id"@ => json_number(id),
            "method"@ => json_text(method),
            "params"@ => params,
        ],
    )
}

/// The number that comes after a request's: one more, and 0 after the largest.
pub open spec fn id_after(id: u64) -> u64 {
    if id == u64::MAX {
        0
    } else {
        (id + 1) as u64
    }
}

/// The number of a client's `n`-th request, counted from 0.
pub open spec fn nth_id(n: nat) -> u64
    decreases n,
{
    if n == 0 {
        1
    } else {
        id_after(nth_id((n - 1) as nat))
    }
}

/// A client numbers its requests 1, 2, 3 and so on, and goes on with 0 after the largest
/// number.
pub proof fn law_request_ids_count_up(n: nat)
    ensures
        nth_id(n) == (n + 1) % 0x1_0000_0000_0000_0000,
    decreases n,
{
    if n > 0 {
        law_request_ids_count_up((n - 1) as nat);
        let previous: nat = n % 0x1_0000_0000_0000_0000;
        vstd::arithmetic::div_mod::lemma_add_mod_noop(
            n as int,
            1,
            0x1_0000_0000_0000_0000,
        );
        if previous < u64::MAX {
            vstd::arithmetic::div_mod::lemma_small_mod(previous + 1, 0x1_0000_0000_0000_0000);
        } else {
            vstd::arithmetic::div_mod::lemma_mod_self_0(0x1_0000_0000_0000_0000);
        }
    }
}

/// A client gives no two of its requests the same number, up to as many requests as
/// there are numbers. The first is 1.
pub proof fn law_request_ids_are_distinct(m: nat, n: nat)
    requires
        m < n,
        n - m <= u64::MAX,
    ensures
        nth_id(0) == 1,
        nth_id(m) != nth_id(n),
{
    law_request_ids_count_up(m);
    law_request_ids_count_up(n);
    let period: int = 0x1_0000_0000_0000_0000;
    if nth_id(m) == nth_id(n) {
        vstd::arithmetic::div_mod::lemma_mod_equivalence(
            (n + 1) as int,
            (m + 1) as int,
            period,
        );
        vstd::arithmetic::div_mod::lemma_small_mod((n - m) as nat, period as nat);
    }
}

/// The body of a request is an object with exactly four fields: `jsonrpc`, which is `2.0`;
/// `id`, which is the number of the request itself; `method`; and `params`.
pub proof fn law_body_fields(id: u64, method: Seq<char>, params: Value)
    ensures
        exists|fields: Map<Seq<char>, Value>|
            {
                &&& #[trigger] json_object(fields) == jsonrpc_body(id, method, params)
                &&& fields.dom() == set!["jsonrpc"@, "id"@, "method"@, "params"@]
                &&& fields["jsonrpc"@] == json_text("2.0"@)
                &&& fields["id"@] == json_number(id)
                &&& fields["method"@] == json_text(method)
                &&& fields["params"@] == params
            },
{
    reveal_strlit("jsonrpc");
    reveal_strlit("id");
    reveal_strlit("method");
    reveal_strlit("params");
    assert("jsonrpc"@.len() == 7);
    assert("id"@.len() == 2);
    assert("method"@.len() == 6 && "method"@[0] == 'm');
    assert("params"@.len() == 6 && "params"@[0] == 'p');
    let fields = map![
        "jsonrpc"@ => json_text("2.0"@),
        "id"@ => json_number(id),
        "method"@ => json_text(method),
        "params"@ => params,
    ];
    assert(fields.dom() =~= set!["jsonrpc"@, "id"@, "method"@, "params"@]);
    assert(json_object(fields) == jsonrpc_body(id, method, params));
}

/// The parameters of a tool call are an object with exactly two fields: `name`, which is
/// the name of the tool, and `arguments`, which are the arguments as they were given.
pub proof fn law_tool_params_fields(name: Seq<char>, arguments: Value)
    ensures
        exists|fields: Map<Seq<char>, Value>|
            {
                &&& #[trigger] json_object(fields) == tool_params(name, arguments)
                &&& fields.dom() == set!["name"@, "arguments"@]
                &&& fields["name"@] == json_text(name)
                &&& fields["arguments"@] == arguments
            },
{
    reveal_strlit("name");
    reveal_strlit("arguments");
    assert("name"@.len() == 4);
    assert("arguments"@.len() == 9);
    let fields = map!["name"@ => json_text(name), "arguments"@ => arguments];
    assert(fields.dom() =~= set!["name"@, "arguments"@]);
    assert(json_object(fields) == tool_params(name, arguments));
}

/// Whether a body is an object whose `id` field is a number.
pub open spec fn carries_id(body: Value, id: u64) -> bool {
    exists|fields: Map<Seq<char>, Value>|
        {
            &&& #[trigger] json_object(fields) == body
            &&& fields.contains_key("id"@)
            &&& fields["id"@] == json_number(id)
        }
}

/// The `n`-th request of a client has the number `n` in its `id` field, for as many
/// requests as there are numbers.
pub proof fn law_nth_request_carries_n(n: u64, method: Seq<char>, params: Value)
    requires
        n >= 1,
    ensures
        carries_id(jsonrpc_body(nth_id((n - 1) as nat), method, params), n),
{
    law_request_ids_count_up((n - 1) as nat);
    vstd::arithmetic::div_mod::lemma_small_mod(n as nat, 0x1_0000_0000_0000_0000);
    law_body_fields(n, method, params);
    let fields = choose|fields: Map<Seq<char>, Value>|
        {
            &&& #[trigger] json_object(fields) == jsonrpc_body(n, method, params)
            &&& fields.dom() == set!["jsonrpc"@, "id"@, "method"@, "params"@]
            &&& fields["id"@] == json_number(n)
        };
    assert(fields.contains_key("id"@));
}

/// Two requests with different numbers carry different numbers in their `id` fields, and
/// each carries its own.
pub proof fn law_bodies_carry_their_own_ids(
    a: u64,
    a_method: Seq<char>,
    a_params: Value,
    b: u64,
    b_method: Seq<char>,
    b_params: Value,
)
    requires
        a != b,
    ensures
        exists|x: u64, y: u64|
            {
                &&& x != y
                &&& #[trigger] carries_id(jsonrpc_body(a, a_method, a_params), x)
                &&& #[trigger] carries_id(jsonrpc_body(b, b_method, b_params), y)
            },
        carries_id(jsonrpc_body(a, a_method, a_params), a),
        carries_id(jsonrpc_body(b, b_method, b_params), b),
{
    law_body_fields(a, a_method, a_params);
    law_body_fields(b, b_method, b_params);
    let a_fields = choose|fields: Map<Seq<char>, Value>|
        {
            &&& #[trigger] json_object(fields) == jsonrpc_body(a, a_method, a_params)
            &&& fields.dom() == set!["jsonrpc"@, "id"@, "method"@, "params"@]
            &&& fields["id"@] == json_number(a)
        };
    let b_fields = choose|fields: Map<Seq<char>, Value>|
        {
            &&& #[trigger] json_object(fields) == jsonrpc_body(b, b_method, b_params)
            &&& fields.dom() == set!["jsonrpc"@, "id"@, "method"@, "params"@]
            &&& fields["id"@] == json_number(b)
        };
    assert(a_fields.contains_key("id"@));
    assert(b_fields.contains_key("id"@));
    assert(carries_id(jsonrpc_body(a, a_method, a_params), a));
    assert(carries_id(jsonrpc_body(b, b_method, b_params), b));
}

/// The token of the credentials goes along with a request, and where there are none no
/// token does.
pub proof fn law_token(auth: Auth)
    ensures
        match auth {
            Auth::Bearer(token) => auth.token() == Some(token),
            Auth::Anonymous => auth.token() is None,
        },
{
}

fn build_body(id: u64, method: &str, params: Value) -> (r: Value)
    ensures
        r == jsonrpc_body(id, method@, params),
{
    let mut fields: Vec<(&str, Value)> = Vec::new();
    fields.push(("jsonrpc", make_text("2.0")));
    fields.push(("id", make_number(id)));
    fields.push(("method", make_text(method)));
    fields.push(("params", params));
    proof {
        reveal_with_fuel(by_name, 5);
        let expected = map![
            "jsonrpc"@ => json_text("2.0"@),
            "id"@ => json_number(id),
            "method"@ => json_text(method@),
            "params"@ => params,
        ];
        assert(by_name(fields@) =~= expected);
    }
    make_object(fields)
}

fn build_tool_params(name: &str, arguments: Value) -> (r: Value)
    ensures
        r == tool_params(name@, arguments),
{
    let mut fields: Vec<(&str, Value)> = Vec::new();
    fields.push(("name", make_text(name)));
    fields.push(("arguments", arguments));
    proof {
        reveal_with_fuel(by_name, 3);
        assert(by_name(fields@) =~= map!["name"@ => json_text(name@), "arguments"@ => arguments]);
    }
    make_object(fields)
}

// ---------------------------------------------------------------------------
// The reply
// ---------------------------------------------------------------------------
/// Whether an error is the veto of a body: the body itself word for word, and the
/// fields that were found in it, all empty where it is of another form.
pub open spec fn is_veto_of<E>(
    e: WardenError,
    raw: Seq<char>,
    found: Result<DenyResponse, E>,
) -> bool {
    e matches WardenError::Veto { intent_category, reasons, review_reasons, raw: kept } && kept@
        == raw && match found {
        Ok(deny) => {
            &&& intent_category == deny.intent_category
            &&& reasons == deny.reasons
            &&& review_reasons == deny.review_reasons
        },
        Err(_) => {
            &&& intent_category@ == Seq::<char>::empty()
            &&& reasons@ == Seq::<String>::empty()
            &&& review_reasons@ == Seq::<String>::empty()
        },
    }
}

/// The veto of a body that could be read has the body's intent category, and its reasons
/// and review reasons, one by one and in their order. It keeps the body word for word.
pub proof fn law_veto_keeps_its_fields<E>(e: WardenError, raw: Seq<char>, deny: DenyResponse)
    requires
        is_veto_of(e, raw, Ok::<DenyResponse, E>(deny)),
    ensures
        e is Veto,
        e->intent_category@ == deny.intent_category@,
        e->reasons@.len() == deny.reasons@.len(),
        forall|i: int|
            0 <= i < deny.reasons@.len() ==> #[trigger] e->reasons@[i] == deny.reasons@[i],
        e->review_reasons@.len() == deny.review_reasons@.len(),
        forall|i: int|
            0 <= i < deny.review_reasons@.len() ==> #[trigger] e->review_reasons@[i]
                == deny.review_reasons@[i],
        e->raw@ == raw,
{
}

/// The veto of a body of another form has no category and no reasons. It keeps the body
/// word for word.
pub proof fn law_veto_of_plain_text<E>(e: WardenError, raw: Seq<char>, why: E)
    requires
        is_veto_of(e, raw, Err::<DenyResponse, E>(why)),
    ensures
        e is Veto,
        e->intent_category@.len() == 0,
        e->reasons@.len() == 0,
        e->review_reasons@.len() == 0,
        e->raw@ == raw,
{
}

/// Two bodies that differ in their category, in their reasons or in their review reasons
/// do not give vetoes with the same category, reasons and review reasons.
pub proof fn law_vetoes_tell_bodies_apart<E>(
    a_veto: WardenError,
    a_raw: Seq<char>,
    a: DenyResponse,
    b_veto: WardenError,
    b_raw: Seq<char>,
    b: DenyResponse,
)
    requires
        is_veto_of(a_veto, a_raw, Ok::<DenyResponse, E>(a)),
        is_veto_of(b_veto, b_raw, Ok::<DenyResponse, E>(b)),
        a_veto->intent_category@ == b_veto->intent_category@,
        a_veto->reasons@ == b_veto->reasons@,
        a_veto->review_reasons@ == b_veto->review_reasons@,
    ensures
        a.intent_category@ == b.intent_category@,
        a.reasons@ == b.reasons@,
        a.review_reasons@ == b.review_reasons@,
{
}

/// The veto of a 403 body. It is a veto whether or not the body has the fields of a
/// [`DenyResponse`], and it keeps the body.
pub fn parse_veto(raw: &str, found: Result<DenyResponse, serde_json::Error>) -> (e: WardenError)
    ensures
        is_veto_of(e, raw@, found),
        e is Veto && e->raw@ == raw@,
        found matches Ok(deny) ==> {
            &&& e->intent_category@ == deny.intent_category@
            &&& e->reasons@ == deny.reasons@
            &&& e->review_reasons@ == deny.review_reasons@
        },
        found is Err ==> {
            &&& e->intent_category@.len() == 0
            &&& e->reasons@.len() == 0
            &&& e->review_reasons@.len() == 0
        },
{
    match found {
        Ok(deny) => WardenError::Veto {
            intent_category: deny.intent_category,
            reasons: deny.reasons,
            review_reasons: deny.review_reasons,
            raw: raw.to_owned(),
        },
        Err(_) => WardenError::Veto {
            intent_category: String::new(),
            reasons: Vec::new(),
            review_reasons: Vec::new(),
            raw: raw.to_owned(),
        },
    }
}

/// The JSON of a 200 body.
pub fn decode_json_body(raw: &str) -> (r: Result<Value, WardenError>)
    ensures
        r == decoded_value(json_parsed(raw@)),
{
    read_decoded(parse_json(raw))
}

// ---------------------------------------------------------------------------
// Client
// ---------------------------------------------------------------------------
/// Every request goes where the join of the base URL and `mcp` leads. The error begins with
/// `join /mcp: ` and ends with the joiner's message.
pub proof fn law_target(client: WardenClient)
    ensures
        match (url_joined(url_text(client.base()), "mcp"@), client.target()) {
            (Ok(url), Ok(target)) => target == url,
            (Err(why), Err(message)) => message.take(11) == "join /mcp: "@ && message.skip(11)
                == why,
            _ => false,
        },
{
    reveal_strlit("join ");
    reveal_strlit("/mcp");
    reveal_strlit(": ");
    reveal_strlit("join /mcp: ");
    assert("join "@ + "/mcp"@ + ": "@ =~= "join /mcp: "@);
    assert("join /mcp: "@.len() == 11);
    if let Err(why) = url_joined(url_text(client.base()), "mcp"@) {
        let message = "join "@ + "/mcp"@ + ": "@ + why;
        assert(message.take(11) == "join /mcp: "@);
        assert(message.skip(11) == why);
    }
}

impl WardenClientBuilder {
    /// The base URL that the client will have.
    pub closed spec fn base(&self) -> Url {
        self.base_url
    }

    /// The credentials that the client will have.
    pub closed spec fn credentials(&self) -> Auth {
        self.auth
    }

    /// Attach credentials, in place of those that were there.
    pub fn auth(self, auth: Auth) -> (r: WardenClientBuilder)
        ensures
            r.base() == self.base(),
            r.credentials() == auth,
    {
        WardenClientBuilder { base_url: self.base_url, auth }
    }

    /// Make the client. Its first request will have the number 1.
    pub fn build(self) -> (r: WardenClient)
        ensures
            r.base() == self.base(),
            r.credentials() == self.credentials(),
            r.next() == nth_id(0),
    {
        WardenClient { base_url: self.base_url, auth: self.auth, next_id: 1 }
    }
}

impl WardenClient {
    /// The configured base URL.
    pub closed spec fn base(&self) -> Url {
        self.base_url
    }

    /// The configured credentials.
    pub closed spec fn credentials(&self) -> Auth {
        self.auth
    }

    /// The number of the next request.
    pub closed spec fn next(&self) -> u64 {
        self.next_id
    }

    /// Where every request goes.
    pub open spec fn target(&self) -> Result<Seq<char>, Seq<char>> {
        labelled_endpoint(self.base(), "mcp"@, "/mcp"@)
    }

    /// Start a client for the proxy whose origin is `base_url`; `/mcp` is appended to it
    /// by every request. A text that is no URL is a configuration error.
    pub fn builder(base_url: &str) -> (r: Result<WardenClientBuilder, WardenError>)
        ensures
            match r {
                Ok(builder) => base_url_of(base_url@) == Ok::<Seq<char>, Seq<char>>(
                    url_text(builder.base()),
                ) && builder.credentials() == Auth::Anonymous,
                Err(e) => e matches WardenError::InvalidConfig(message) && base_url_of(base_url@)
                    == Err::<Seq<char>, Seq<char>>(message@),
            },
    {
        match parse_base_url(base_url) {
            Ok(url) => Ok(WardenClientBuilder { base_url: url, auth: Auth::Anonymous }),
            Err(e) => Err(e),
        }
    }

    fn take_id(&mut self) -> (id: u64)
        ensures
            id == old(self).next(),
            final(self).next() == id_after(id),
            final(self).base() == old(self).base(),
            final(self).credentials() == old(self).credentials(),
    {
        let id: u64 = self.next_id;
        self.next_id = if id == u64::MAX {
            0
        } else {
            id + 1
        };
        id
    }

    /// The request that posts a body to `/mcp`.
    fn send_raw(&self, body: Value) -> (r: Result<Request<Value>, WardenError>)
        ensures
            goes_to(r, self.target()),
            lands_on(self.base(), self.target(), "mcp"@),
            r matches Ok(request) ==> {
                &&& request.method == Method::Post
                &&& request.bearer == self.credentials().token()
                &&& request.body == body
            },
    {
        proof {
            reveal_strlit("mcp");
            lemma_word("mcp"@);
            lemma_first_segment("mcp"@);
            lemma_plain_path("mcp"@);
        }
        match labelled_join(&self.base_url, "mcp", "/mcp") {
            Ok(url) => {
                let bearer = match &self.auth {
                    Auth::Anonymous => None,
                    Auth::Bearer(token) => Some(token.clone()),
                };
                Ok(Request { method: Method::Post, url, bearer, body })
            },
            Err(e) => Err(e),
        }
    }

    /// `POST /mcp` with a JSON-RPC `tools/call`:
    /// `{"jsonrpc": "2.0", "id": <number>, "method": "tools/call",
    /// "params": {"name": <name>, "arguments": <arguments>}}`. The number is used up,
    /// whatever becomes of the request.
    pub fn call_tool(&mut self, name: &str, arguments: Value) -> (r: Result<
        Request<Value>,
        WardenError,
    >)
        ensures
            goes_to(r, old(self).target()),
            lands_on(old(self).base(), old(self).target(), "mcp"@),
            r matches Ok(request) ==> {
                &&& request.method == Method::Post
                &&& request.bearer == old(self).credentials().token()
                &&& request.body == jsonrpc_body(
                    old(self).next(),
                    "tools/call"@,
                    tool_params(name@, arguments),
                )
            },
            final(self).next() == id_after(old(self).next()),
            final(self).base() == old(self).base(),
            final(self).credentials() == old(self).credentials(),
    {
        let id: u64 = self.take_id();
        let params = build_tool_params(name, arguments);
        self.send_raw(build_body(id, "tools/call", params))
    }

    /// `POST /mcp` with any JSON-RPC method and parameters. The number is used up,
    /// whatever becomes of the request.
    pub fn send_jsonrpc(&mut self, method: &str, params: Value) -> (r: Result<
        Request<Value>,
        WardenError,
    >)
        ensures
            goes_to(r, old(self).target()),
            lands_on(old(self).base(), old(self).target(), "mcp"@),
            r matches Ok(request) ==> {
                &&& request.method == Method::Post
                &&& request.bearer == old(self).credentials().token()
                &&& request.body == jsonrpc_body(old(self).next(), method@, params)
            },
            final(self).next() == id_after(old(self).next()),
            final(self).base() == old(self).base(),
            final(self).credentials() == old(self).credentials(),
    {
        let id: u64 = self.take_id();
        self.send_raw(build_body(id, method, params))
    }

    /// What a reply comes to: the JSON of a 200, the veto of a 403, and the error of
    /// every other status. `found` is what a 403 body is as a [`DenyResponse`].
    pub fn read_reply(
        status: u16,
        raw: String,
        found: Result<DenyResponse, serde_json::Error>,
    ) -> (r: Result<Value, WardenError>)
        ensures
            status == 200 ==> r == decoded_value(json_parsed(raw@)),
            status == 403 ==> (r matches Err(e) && is_veto_of(e, raw@, found)),
            status == 403 ==> (r matches Err(e) && e is Veto && e->raw@ == raw@ && match found {
                Ok(deny) => {
                    &&& e->intent_category@ == deny.intent_category@
                    &&& e->reasons@ == deny.reasons@
                    &&& e->review_reasons@ == deny.review_reasons@
                },
                Err(_) => {
                    &&& e->intent_category@.len() == 0
                    &&& e->reasons@.len() == 0
                    &&& e->review_reasons@.len() == 0
                },
            }),
            status == 401 ==> (r matches Err(WardenError::Unauthorized(body)) && body == raw),
            status == 400 ==> (r matches Err(WardenError::BadRequest(body)) && body == raw),
            status != 200 && status != 403 ==> r == Err::<Value, WardenError>(
                status_error(status, raw),
            ),
    {
        if status == 200 {
            decode_json_body(raw.as_str())
        } else if status == 403 {
            Err(parse_veto(raw.as_str(), found))
        } else {
            Err(read_status_error(status, raw))
        }
    }
}

} // verus!
