//! The simulator's admin endpoints. They take no credentials.
use crate::error::WardenError;
use crate::http::{
    base_url_of, endpoint, goes_to, lands_on, parse_base_url, plain_reply, read_plain_reply,
    request, Method, Request,
};
use crate::outside::{
    by_name, is_plain_reference, json_flag, json_number, json_object, json_text, make_flag,
    make_number, make_object, make_text, url_text,
};
use crate::route::{lemma_first_segment, lemma_plain_path, lemma_word};
use crate::text::is_segment_char;
use reqwest::Url;
use serde_json::Value;
use vstd::prelude::*;

verus! {

/// The reply body of [`SimClient::add_agents`].
#[derive(Debug)]
pub struct SpawnedAgents {
    pub spawned: Vec<String>,
}

/// A JSON object with one field.
pub open spec fn one_field(name: Seq<char>, value: Value) -> Value {
    json_object(map![name => value])
}

/// The body of [`SimClient::add_agents`].
pub open spec fn add_agents_body(persona: Seq<char>, count: u64) -> Value {
    json_object(map!["persona"@ => json_text(persona), "count"@ => json_number(count)])
}

/// The body of a change of one setting is an object with exactly that field.
pub proof fn law_one_field(name: Seq<char>, value: Value)
    ensures
        exists|fields: Map<Seq<char>, Value>|
            {
                &&& #[trigger] json_object(fields) == one_field(name, value)
                &&& fields.dom() == set![name]
                &&& fields[name] == value
            },
{
    let fields = map![name => value];
    assert(fields.dom() =~= set![name]);
    assert(json_object(fields) == one_field(name, value));
}

/// The body of [`SimClient::add_agents`] is an object with exactly two fields: `persona`,
/// which is the persona, and `count`, which is how many agents to start.
pub proof fn law_add_agents_fields(persona: Seq<char>, count: u64)
    ensures
        exists|fields: Map<Seq<char>, Value>|
            {
                &&& #[trigger] json_object(fields) == add_agents_body(persona, count)
                &&& fields.dom() == set!["persona"@, "count"@]
                &&& fields["persona"@] == json_text(persona)
                &&& fields["count"@] == json_number(count)
            },
{
    reveal_strlit("persona");
    reveal_strlit("count");
    assert("persona"@.len() == 7);
    assert("count"@.len() == 5);
    let fields = map!["persona"@ => json_text(persona), "count"@ => json_number(count)];
    assert(fields.dom() =~= set!["persona"@, "count"@]);
    assert(json_object(fields) == add_agents_body(persona, count));
}

/// What a client posts is sent with `POST`, that body and no token, to where the path
/// leads.
pub proof fn law_what_is_posted_is_sent(
    client: SimClient,
    r: Result<Request<Value>, WardenError>,
    path: Seq<char>,
    body: Value,
)
    requires
        client.posts(r, path, body),
    ensures
        lands_on(client.base(), endpoint(client.base(), path), path),
        match r {
            Ok(request) => {
                &&& request.method == Method::Post
                &&& request.bearer is None
                &&& request.body == body
                &&& endpoint(client.base(), path) is Ok
                &&& endpoint(client.base(), path)->Ok_0 == url_text(request.url)
            },
            Err(WardenError::InvalidConfig(message)) => endpoint(client.base(), path) is Err
                && endpoint(client.base(), path)->Err_0 == message@,
            Err(_) => false,
        },
{
}

fn build_field(name: &str, value: Value) -> (r: Value)
    ensures
        r == one_field(name@, value),
{
    let mut fields: Vec<(&str, Value)> = Vec::new();
    fields.push((name, value));
    proof {
        reveal_with_fuel(by_name, 2);
        assert(by_name(fields@) =~= map![name@ => value]);
    }
    make_object(fields)
}

proof fn lemma_words()
    ensures
        is_plain_reference("status"@),
        is_plain_reference("multiplier"@),
        is_plain_reference("running"@),
        is_plain_reference("auto-decide"@),
        is_plain_reference("agents"@),
{
    reveal_strlit("status");
    reveal_strlit("multiplier");
    reveal_strlit("running");
    reveal_strlit("auto-decide");
    reveal_strlit("agents");
    lemma_plain_word("status"@);
    lemma_plain_word("multiplier"@);
    lemma_plain_word("running"@);
    lemma_plain_word("auto-decide"@);
    lemma_plain_word("agents"@);
}

proof fn lemma_plain_word(word: Seq<char>)
    requires
        word.len() > 0,
        forall|i: int|
            0 <= i < word.len() ==> is_segment_char(#[trigger] word[i]) && word[i]
                != '.' && word[i] != '%',
    ensures
        is_plain_reference(word),
{
    lemma_word(word);
    lemma_first_segment(word);
    lemma_plain_path(word);
}

/// Client for the simulator's admin endpoints.
#[derive(Debug)]
pub struct SimClient {
    base_url: Url,
}

impl Clone for SimClient {
    fn clone(&self) -> (r: SimClient)
        ensures
            r == *self,
    {
        SimClient { base_url: self.base_url.clone() }
    }
}

impl SimClient {
    /// The configured base URL.
    pub closed spec fn base(&self) -> Url {
        self.base_url
    }

    /// Whether a result is the request that posts a body to a path; or the configuration
    /// error of a path that makes no URL. On an `http` or `https` base the path is kept
    /// as it is.
    pub open spec fn posts(
        &self,
        r: Result<Request<Value>, WardenError>,
        path: Seq<char>,
        body: Value,
    ) -> bool {
        &&& goes_to(r, endpoint(self.base(), path))
        &&& lands_on(self.base(), endpoint(self.base(), path), path)
        &&& r matches Ok(request) ==> {
            &&& request.method == Method::Post
            &&& request.bearer is None
            &&& request.body == body
        }
    }

    /// Build a client against `base_url` (e.g. `http://simulator:9100`). A text that is
    /// no URL is a configuration error.
    pub fn new(base_url: &str) -> (r: Result<SimClient, WardenError>)
        ensures
            match r {
                Ok(client) => base_url_of(base_url@) == Ok::<Seq<char>, Seq<char>>(
                    url_text(client.base()),
                ),
                Err(e) => e matches WardenError::InvalidConfig(message) && base_url_of(base_url@)
                    == Err::<Seq<char>, Seq<char>>(message@),
            },
    {
        match parse_base_url(base_url) {
            Ok(url) => Ok(SimClient { base_url: url }),
            Err(e) => Err(e),
        }
    }

    /// Read-only access to the configured base URL.
    pub fn base_url(&self) -> (r: &Url)
        ensures
            *r == self.base(),
    {
        &self.base_url
    }

    /// `GET /status`: the multiplier, the agents and the statistics of the moment.
    pub fn status(&self) -> (r: Result<Request<()>, WardenError>)
        ensures
            goes_to(r, endpoint(self.base(), "status"@)),
            lands_on(self.base(), endpoint(self.base(), "status"@), "status"@),
            r matches Ok(request) ==> request.method == Method::Get && request.bearer is None,
    {
        proof {
            lemma_words();
        }
        request(Method::Get, &self.base_url, "status", &None, ())
    }

    /// `POST /multiplier`: change the traffic multiplier, which is given as the JSON
    /// number that is sent.
    pub fn set_multiplier(&self, multiplier: Value) -> (r: Result<Request<Value>, WardenError>)
        ensures
            self.posts(r, "multiplier"@, one_field("traffic_multiplier"@, multiplier)),
    {
        proof {
            lemma_words();
        }
        let body = build_field("traffic_multiplier", multiplier);
        request(Method::Post, &self.base_url, "multiplier", &None, body)
    }

    /// `POST /running`: start or stop the traffic.
    pub fn set_running(&self, running: bool) -> (r: Result<Request<Value>, WardenError>)
        ensures
            self.posts(r, "running"@, one_field("running"@, json_flag(running))),
    {
        proof {
            lemma_words();
        }
        let body = build_field("running", make_flag(running));
        request(Method::Post, &self.base_url, "running", &None, body)
    }

    /// `POST /auto-decide`: pause or resume the automatic decisions.
    pub fn set_auto_decide(&self, enabled: bool) -> (r: Result<Request<Value>, WardenError>)
        ensures
            self.posts(r, "auto-decide"@, one_field("enabled"@, json_flag(enabled))),
    {
        proof {
            lemma_words();
        }
        let body = build_field("enabled", make_flag(enabled));
        request(Method::Post, &self.base_url, "auto-decide", &None, body)
    }

    /// `POST /agents`: start `count` agents of a persona.
    pub fn add_agents(&self, persona: &str, count: usize) -> (r: Result<
        Request<Value>,
        WardenError,
    >)
        ensures
            self.posts(r, "agents"@, add_agents_body(persona@, count as u64)),
    {
        let mut fields: Vec<(&str, Value)> = Vec::new();
        fields.push(("persona", make_text(persona)));
        fields.push(("count", make_number(count as u64)));
        proof {
            lemma_words();
            reveal_with_fuel(by_name, 3);
            assert(by_name(fields@) =~= map![
                "persona"@ => json_text(persona@),
                "count"@ => json_number(count as u64),
            ]);
        }
        request(Method::Post, &self.base_url, "agents", &None, make_object(fields))
    }

    /// The names in a reply to [`SimClient::add_agents`].
    pub fn add_agents_reply(
        status: u16,
        body: String,
        decoded: Result<SpawnedAgents, serde_json::Error>,
    ) -> (r: Result<Vec<String>, WardenError>)
        ensures
            match plain_reply(status, body, decoded) {
                Ok(found) => r == Ok::<Vec<String>, WardenError>(found.spawned),
                Err(e) => r == Err::<Vec<String>, WardenError>(e),
            },
    {
        match read_plain_reply(status, body, decoded) {
            Ok(found) => Ok(found.spawned),
            Err(e) => Err(e),
        }
    }

    /// What a reply comes to: the decoded body of a 200, and the status and body of
    /// every other reply.
    pub fn read_reply<T>(
        status: u16,
        body: String,
        decoded: Result<T, serde_json::Error>,
    ) -> (r: Result<T, WardenError>)
        ensures
            r == plain_reply(status, body, decoded),
    {
        read_plain_reply(status, body, decoded)
    }
}

} // verus!
