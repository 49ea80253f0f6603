//! The identity service's `/agents` endpoints.
//!
//! Every call sends the bearer token that was attached with
//! [`AgentsClient::with_bearer`], where one was.
use crate::error::WardenError;
use crate::http::{
    add_pair, and_pair, base_url_of, copy_token, decoded_value, first_pair, goes_to, lemma_first_pair,
    lemma_next_pair,
    join_for_query, lands_on, lands_on_query, lemma_lands_on_first_pair,
    lemma_lands_on_next_pair, lemma_same_tail,
    next_pair, parse_base_url, query_endpoint, read_decoded, read_status_error, status_error,
    tail, Method, Request,
};
use crate::outside::{is_dot_segment, is_plain_path, url_text};
use crate::read::{
    lemma_first_value, lemma_front_pair, lemma_last_pair, lemma_last_value,
    lemma_path_and_query, lemma_word_is_kept, read_path, read_query,
};
use crate::route::{
    is_path_char, law_encoded_value_is_plain, lemma_first_segment, lemma_next_segment, lemma_no_fragment,
    lemma_plain_path, lemma_word, slash,
};
use crate::text::{
    form_pair, law_form_pair_injective, law_segment_alphabet, law_segment_injective,
    lemma_pair_alphabet, lemma_same_rest, lemma_split, percent_encode, percent_encoded, same_text,
};
use reqwest::Url;
use vstd::prelude::*;

verus! {

// ---------------------------------------------------------------------------
// The state of an agent
// ---------------------------------------------------------------------------
/// Where an agent is in its life. The wire form is the name in lower case.
#[derive(Debug, Clone, Copy, PartialEq, Eq, Structural)]
pub enum AgentState {
    Active,
    Suspended,
    Decommissioned,
}

impl AgentState {
    /// The wire form.
    pub open spec fn wire(self) -> Seq<char> {
        match self {
            AgentState::Active => "active"@,
            AgentState::Suspended => "suspended"@,
            AgentState::Decommissioned => "decommissioned"@,
        }
    }

    /// The form that the database keeps.
    pub open spec fn capitalized(self) -> Seq<char> {
        match self {
            AgentState::Active => "Active"@,
            AgentState::Suspended => "Suspended"@,
            AgentState::Decommissioned => "Decommissioned"@,
        }
    }

    /// Whether a text names the state, in one form or the other.
    pub open spec fn is_named_by(self, text: Seq<char>) -> bool {
        text == self.wire() || text == self.capitalized()
    }

    /// The state that a text names, where it names one.
    pub open spec fn named_by(text: Seq<char>) -> Option<AgentState> {
        if AgentState::Active.is_named_by(text) {
            Some(AgentState::Active)
        } else if AgentState::Suspended.is_named_by(text) {
            Some(AgentState::Suspended)
        } else if AgentState::Decommissioned.is_named_by(text) {
            Some(AgentState::Decommissioned)
        } else {
            None
        }
    }

    /// The wire form.
    pub fn as_wire(self) -> (r: &'static str)
        ensures
            r@ == self.wire(),
    {
        match self {
            AgentState::Active => "active",
            AgentState::Suspended => "suspended",
            AgentState::Decommissioned => "decommissioned",
        }
    }

    /// Read the wire form, or the capitalized form that the database keeps. No other
    /// text is a state.
    pub fn parse(s: &str) -> (r: Option<AgentState>)
        ensures
            r == AgentState::named_by(s@),
    {
        if same_text(s, "active") || same_text(s, "Active") {
            Some(AgentState::Active)
        } else if same_text(s, "suspended") || same_text(s, "Suspended") {
            Some(AgentState::Suspended)
        } else if same_text(s, "decommissioned") || same_text(s, "Decommissioned") {
            Some(AgentState::Decommissioned)
        } else {
            None
        }
    }

    /// As [`AgentState::parse`], with the message that a text which is no state gives.
    pub fn from_wire(raw: &str) -> (r: Result<AgentState, String>)
        ensures
            match r {
                Ok(state) => AgentState::named_by(raw@) == Some(state),
                Err(message) => AgentState::named_by(raw@) is None && message@
                    == "invalid state: "@ + raw@,
            },
    {
        match AgentState::parse(raw) {
            Some(state) => Ok(state),
            None => {
                let mut message = "invalid state: ".to_owned();
                message.append(raw);
                Err(message)
            },
        }
    }
}

/// A text is read as a state exactly where it is one of that state's two forms. So
/// reading the wire form of a state, or its capitalized form, gives the state back.
pub proof fn law_state_round_trip(state: AgentState, text: Seq<char>)
    ensures
        AgentState::named_by(text) == Some(state) <==> state.is_named_by(text),
        AgentState::named_by(state.wire()) == Some(state),
        AgentState::named_by(state.capitalized()) == Some(state),
{
    lemma_state_name_lengths();
}

/// The wire forms are `active`, `suspended` and `decommissioned`, and the forms that the
/// database keeps are the same words with a capital. A text is read as a state where it is
/// one of these six words, and nowhere else.
pub proof fn law_state_forms(text: Seq<char>)
    ensures
        AgentState::Active.wire() == "active"@,
        AgentState::Suspended.wire() == "suspended"@,
        AgentState::Decommissioned.wire() == "decommissioned"@,
        AgentState::Active.capitalized() == "Active"@,
        AgentState::Suspended.capitalized() == "Suspended"@,
        AgentState::Decommissioned.capitalized() == "Decommissioned"@,
        AgentState::named_by(text) == Some(AgentState::Active) <==> text == "active"@ || text
            == "Active"@,
        AgentState::named_by(text) == Some(AgentState::Suspended) <==> text == "suspended"@
            || text == "Suspended"@,
        AgentState::named_by(text) == Some(AgentState::Decommissioned) <==> text
            == "decommissioned"@ || text == "Decommissioned"@,
{
    lemma_state_name_lengths();
}

/// No two states have the same wire form.
pub proof fn law_wire_forms_are_distinct(a: AgentState, b: AgentState)
    requires
        a.wire() == b.wire(),
    ensures
        a == b,
{
    lemma_state_name_lengths();
}

proof fn lemma_state_name_lengths()
    ensures
        "active"@.len() == 6,
        "Active"@.len() == 6,
        "suspended"@.len() == 9,
        "Suspended"@.len() == 9,
        "decommissioned"@.len() == 14,
        "Decommissioned"@.len() == 14,
{
    reveal_strlit("active");
    reveal_strlit("Active");
    reveal_strlit("suspended");
    reveal_strlit("Suspended");
    reveal_strlit("decommissioned");
    reveal_strlit("Decommissioned");
}

// ---------------------------------------------------------------------------
// Types
// ---------------------------------------------------------------------------
/// One registered agent.
#[derive(Debug, Clone, PartialEq, Eq)]
pub struct AgentRecord {
    pub id: String,
    pub tenant: String,
    pub agent_name: String,
    pub state: AgentState,
    pub scope_envelope: Vec<String>,
    pub yellow_envelope: Vec<String>,
    pub attestation_kinds_accepted: Vec<String>,
    pub created_by_sub: String,
    pub created_by_idp: String,
    pub owner_team: String,
    pub created_at: String,
    pub state_changed_at: String,
    pub state_changed_by: String,
    pub description: Option<String>,
}

/// What [`AgentsClient::list`] leaves out. A field is sent as the query parameter of
/// its name; one that is `None` is not sent.
#[derive(Debug, Clone)]
pub struct AgentListFilter {
    pub state: Option<AgentState>,
    pub owner_team: Option<String>,
}

impl Default for AgentListFilter {
    /// Leave nothing out.
    fn default() -> (r: AgentListFilter)
        ensures
            r.state is None,
            r.owner_team is None,
    {
        AgentListFilter { state: None, owner_team: None }
    }
}

// ---------------------------------------------------------------------------
// Where the requests go
// ---------------------------------------------------------------------------
/// Where [`AgentsClient::list`] goes.
pub open spec fn list_target(base: Url, tenant: Seq<char>, filter: AgentListFilter) -> Result<
    Seq<char>,
    Seq<char>,
> {
    let by_tenant = and_pair(query_endpoint(base, "agents"@), "tenant"@, tenant);
    let by_state = match filter.state {
        Some(state) => and_pair(by_tenant, "state"@, state.wire()),
        None => by_tenant,
    };
    match filter.owner_team {
        Some(team) => and_pair(by_state, "owner_team"@, team@),
        None => by_state,
    }
}

/// The query of [`AgentsClient::list`].
pub open spec fn list_query(tenant: Seq<char>, filter: AgentListFilter) -> Seq<char> {
    let by_tenant = first_pair("tenant"@, tenant);
    let by_state = match filter.state {
        Some(state) => next_pair(by_tenant, "state"@, state.wire()),
        None => by_tenant,
    };
    match filter.owner_team {
        Some(team) => next_pair(by_state, "owner_team"@, team@),
        None => by_state,
    }
}

/// The path of [`AgentsClient::get`].
pub open spec fn agent_path(id: Seq<char>) -> Seq<char> {
    "agents/"@ + percent_encoded(id)
}

/// Where [`AgentsClient::get`] goes.
pub open spec fn agent_target(base: Url, id: Seq<char>, tenant: Seq<char>) -> Result<
    Seq<char>,
    Seq<char>,
> {
    and_pair(query_endpoint(base, agent_path(id)), "tenant"@, tenant)
}

proof fn lemma_agents_path()
    ensures
        is_plain_path("agents"@),
{
    reveal_strlit("agents");
    lemma_word("agents"@);
    lemma_first_segment("agents"@);
}

proof fn lemma_list_lands(base: Url, tenant: Seq<char>, filter: AgentListFilter)
    requires
        lands_on(base, query_endpoint(base, "agents"@), "agents"@),
    ensures
        lands_on_query(
            base,
            list_target(base, tenant, filter),
            "agents"@,
            list_query(tenant, filter),
        ),
{
    let bare = query_endpoint(base, "agents"@);
    let by_tenant = and_pair(bare, "tenant"@, tenant);
    let query = first_pair("tenant"@, tenant);
    lemma_agents_path();
    lemma_lands_on_first_pair(base, bare, "agents"@, "tenant"@, tenant);
    let (by_state, longer) = match filter.state {
        Some(state) => {
            lemma_lands_on_next_pair(base, by_tenant, "agents"@, query, "state"@, state.wire());
            (
                and_pair(by_tenant, "state"@, state.wire()),
                next_pair(query, "state"@, state.wire()),
            )
        },
        None => (by_tenant, query),
    };
    assert(longer[0] == '?');
    if let Some(team) = filter.owner_team {
        lemma_lands_on_next_pair(base, by_state, "agents"@, longer, "owner_team"@, team@);
    }
}

proof fn lemma_agent_path(id: Seq<char>)
    ensures
        !agent_path(id).contains('#'),
        !agent_path(id).contains('?'),
        !is_dot_segment(id) ==> is_plain_path(agent_path(id)),
{
    reveal_strlit("agents/");
    reveal_strlit("agents");
    law_segment_alphabet(id);
    assert forall|i: int| 0 <= i < agent_path(id).len() implies is_path_char(
        #[trigger] agent_path(id)[i],
    ) by {
        if i >= 7 {
            assert(agent_path(id)[i] == percent_encoded(id)[i - 7]);
        }
    }
    lemma_no_fragment(agent_path(id));
    if !is_dot_segment(id) {
        lemma_agents_path();
        law_encoded_value_is_plain(id);
        lemma_next_segment("agents"@, percent_encoded(id));
        assert(agent_path(id) == slash("agents"@, percent_encoded(id)));
    }
}

/// What is behind the tenant in the query of [`AgentsClient::list`].
spec fn filter_pairs(filter: AgentListFilter) -> Option<Seq<char>> {
    match (filter.state, filter.owner_team) {
        (Some(state), Some(team)) => Some(
            form_pair("state"@, state.wire()) + tail(Some(form_pair("owner_team"@, team@))),
        ),
        (Some(state), None) => Some(form_pair("state"@, state.wire()) + tail(None)),
        (None, Some(team)) => Some(form_pair("owner_team"@, team@) + tail(None)),
        (None, None) => None,
    }
}

/// The text of an optional field.
pub open spec fn optional_text(field: Option<String>) -> Option<Seq<char>> {
    match field {
        Some(text) => Some(text@),
        None => None,
    }
}

proof fn lemma_list_query(tenant: Seq<char>, filter: AgentListFilter)
    ensures
        list_query(tenant, filter) == seq!['?'] + (form_pair("tenant"@, tenant) + tail(
            filter_pairs(filter),
        )),
{
    assert(list_query(tenant, filter) =~= seq!['?'] + (form_pair("tenant"@, tenant) + tail(
        filter_pairs(filter),
    )));
}

/// Two lists have the same query only when they ask for the same tenant with the same
/// filter.
pub proof fn law_list_queries_are_distinct(
    a: Seq<char>,
    a_filter: AgentListFilter,
    b: Seq<char>,
    b_filter: AgentListFilter,
)
    requires
        list_query(a, a_filter) == list_query(b, b_filter),
    ensures
        a == b,
        a_filter.state == b_filter.state,
        optional_text(a_filter.owner_team) == optional_text(b_filter.owner_team),
{
    let a_first = form_pair("tenant"@, a);
    let b_first = form_pair("tenant"@, b);
    lemma_list_query(a, a_filter);
    lemma_list_query(b, b_filter);
    lemma_same_rest(
        seq!['?'],
        a_first + tail(filter_pairs(a_filter)),
        b_first + tail(filter_pairs(b_filter)),
    );
    lemma_pair_alphabet("tenant"@, a);
    lemma_pair_alphabet("tenant"@, b);
    lemma_same_tail(a_first, filter_pairs(a_filter), b_first, filter_pairs(b_filter));
    law_form_pair_injective("tenant"@, a, "tenant"@, b);
    if filter_pairs(a_filter) is Some {
        lemma_same_filter_pairs(a_filter, b_filter);
    }
}

/// The first pair of a filter: its name, its value, and what is behind it.
spec fn first_filter_pair(filter: AgentListFilter) -> (
    Seq<char>,
    Seq<char>,
    Option<Seq<char>>,
) {
    match (filter.state, filter.owner_team) {
        (Some(state), Some(team)) => (
            "state"@,
            state.wire(),
            Some(form_pair("owner_team"@, team@)),
        ),
        (Some(state), None) => ("state"@, state.wire(), None),
        (None, Some(team)) => ("owner_team"@, team@, None),
        (None, None) => (seq![], seq![], None),
    }
}

proof fn lemma_same_filter_pairs(a: AgentListFilter, b: AgentListFilter)
    requires
        filter_pairs(a) is Some,
        filter_pairs(a) == filter_pairs(b),
    ensures
        a.state == b.state,
        optional_text(a.owner_team) == optional_text(b.owner_team),
{
    let (a_name, a_value, a_more) = first_filter_pair(a);
    let (b_name, b_value, b_more) = first_filter_pair(b);
    lemma_pair_alphabet(a_name, a_value);
    lemma_pair_alphabet(b_name, b_value);
    lemma_same_tail(form_pair(a_name, a_value), a_more, form_pair(b_name, b_value), b_more);
    law_form_pair_injective(a_name, a_value, b_name, b_value);
    reveal_strlit("state");
    reveal_strlit("owner_team");
    assert("state"@.len() == 5);
    assert("owner_team"@.len() == 10);
    if let (Some(s), Some(t)) = (a.state, b.state) {
        law_wire_forms_are_distinct(s, t);
        if let (Some(x), Some(y)) = (a.owner_team, b.owner_team) {
            law_form_pair_injective("owner_team"@, x@, "owner_team"@, y@);
        }
    }
}

/// Two reads of one agent have the same path and query only when they name the same
/// agent and the same tenant.
pub proof fn law_agent_reads_are_distinct(
    a: Seq<char>,
    a_tenant: Seq<char>,
    b: Seq<char>,
    b_tenant: Seq<char>,
)
    requires
        agent_path(a) + first_pair("tenant"@, a_tenant) == agent_path(b) + first_pair(
            "tenant"@,
            b_tenant,
        ),
    ensures
        a == b,
        a_tenant == b_tenant,
{
    let a_pair = form_pair("tenant"@, a_tenant);
    let b_pair = form_pair("tenant"@, b_tenant);
    lemma_agent_path(a);
    lemma_agent_path(b);
    assert(agent_path(a) + first_pair("tenant"@, a_tenant) == agent_path(a) + seq!['?'] + a_pair);
    assert(agent_path(b) + first_pair("tenant"@, b_tenant) == agent_path(b) + seq!['?'] + b_pair);
    lemma_split(agent_path(a), a_pair, agent_path(b), b_pair, '?');
    law_form_pair_injective("tenant"@, a_tenant, "tenant"@, b_tenant);
    if a != b {
        law_agent_paths_are_distinct(a, b);
    }
}

/// Two agents share no path.
pub proof fn law_agent_paths_are_distinct(a: Seq<char>, b: Seq<char>)
    requires
        a != b,
    ensures
        agent_path(a) != agent_path(b),
{
    if agent_path(a) == agent_path(b) {
        lemma_same_rest("agents/"@, percent_encoded(a), percent_encoded(b));
        law_segment_injective(a, b);
    }
}

proof fn lemma_agent_words()
    ensures
        percent_encoded("agents"@) == "agents"@,
        !"agents"@.contains('?'),
{
    reveal_strlit("agents");
    lemma_word_is_kept("agents"@);
}

/// A list has the path `agents`. Its query has the pair `tenant` with the tenant, the pair
/// `state` with the wire form exactly where the filter has a state, and the pair
/// `owner_team` with the team exactly where the filter has a team, in this order and with
/// nothing else.
pub proof fn law_list_query_reads_back(tenant: Seq<char>, filter: AgentListFilter)
    ensures
        read_path("agents"@ + list_query(tenant, filter)) == seq!["agents"@],
        ({
            let pairs = read_query("agents"@ + list_query(tenant, filter));
            let by_state: int = if filter.state is Some {
                1
            } else {
                0
            };
            let by_team: int = if filter.owner_team is Some {
                1
            } else {
                0
            };
            &&& pairs.len() == 1 + by_state + by_team
            &&& pairs[0] == ("tenant"@, tenant)
            &&& filter.state matches Some(state) ==> pairs[1] == ("state"@, state.wire())
            &&& filter.owner_team matches Some(team) ==> pairs[1 + by_state] == (
                "owner_team"@,
                team@,
            )
        }),
{
    let reference = "agents"@ + list_query(tenant, filter);
    let first = form_pair("tenant"@, tenant);
    let query = first + tail(filter_pairs(filter));
    lemma_agent_words();
    lemma_list_query(tenant, filter);
    lemma_path_and_query("agents"@, query);
    lemma_last_value("agents"@);
    lemma_last_pair("tenant"@, tenant);
    match (filter.state, filter.owner_team) {
        (Some(state), Some(team)) => {
            let last = form_pair("owner_team"@, team@);
            let rest = form_pair("state"@, state.wire()) + seq!['&'] + last;
            lemma_last_pair("owner_team"@, team@);
            lemma_front_pair("state"@, state.wire(), last);
            lemma_front_pair("tenant"@, tenant, rest);
            assert(query == first + seq!['&'] + rest);
        },
        (Some(state), None) => {
            let last = form_pair("state"@, state.wire());
            lemma_last_pair("state"@, state.wire());
            lemma_front_pair("tenant"@, tenant, last);
            assert(query == first + seq!['&'] + last);
        },
        (None, Some(team)) => {
            let last = form_pair("owner_team"@, team@);
            lemma_last_pair("owner_team"@, team@);
            lemma_front_pair("tenant"@, tenant, last);
            assert(query == first + seq!['&'] + last);
        },
        (None, None) => {
            assert(query == first);
        },
    }
}

/// Where the path of a list leads to a URL without a query, the list goes to that URL with
/// its query behind it.
pub proof fn law_list_goes_to_its_query(
    base: Url,
    tenant: Seq<char>,
    filter: AgentListFilter,
    url: Seq<char>,
)
    requires
        query_endpoint(base, "agents"@) == Ok::<Seq<char>, Seq<char>>(url),
        !url.contains('?'),
    ensures
        list_target(base, tenant, filter) == Ok::<Seq<char>, Seq<char>>(
            url + list_query(tenant, filter),
        ),
{
    let first = first_pair("tenant"@, tenant);
    lemma_first_pair(url, "tenant"@, tenant);
    let longer = match filter.state {
        Some(state) => {
            lemma_next_pair(url, first, "state"@, state.wire());
            next_pair(first, "state"@, state.wire())
        },
        None => first,
    };
    assert(longer[0] == '?');
    if let Some(team) = filter.owner_team {
        lemma_next_pair(url, longer, "owner_team"@, team@);
    }
}

/// Where the path makes no URL, a list and a read have the error of the path.
pub proof fn law_agents_keep_the_error_of_the_path(
    base: Url,
    id: Seq<char>,
    tenant: Seq<char>,
    filter: AgentListFilter,
)
    ensures
        query_endpoint(base, "agents"@) is Err ==> list_target(base, tenant, filter)
            == query_endpoint(base, "agents"@),
        query_endpoint(base, agent_path(id)) is Err ==> agent_target(base, id, tenant)
            == query_endpoint(base, agent_path(id)),
{
}

/// A read of one agent has two path segments, `agents` and one that stands for the id, and
/// one query pair, `tenant` with the tenant.
pub proof fn law_agent_read_reads_back(id: Seq<char>, tenant: Seq<char>)
    ensures
        read_path(agent_path(id) + first_pair("tenant"@, tenant)) == seq!["agents"@, id],
        read_query(agent_path(id) + first_pair("tenant"@, tenant)) == seq![("tenant"@, tenant)],
{
    let reference = agent_path(id) + first_pair("tenant"@, tenant);
    lemma_agent_words();
    lemma_agent_path(id);
    reveal_strlit("agents/");
    reveal_strlit("agents");
    lemma_last_value(id);
    lemma_first_value("agents"@, percent_encoded(id));
    assert(agent_path(id) == percent_encoded("agents"@) + seq!['/'] + percent_encoded(id));
    lemma_last_pair("tenant"@, tenant);
    lemma_path_and_query(agent_path(id), form_pair("tenant"@, tenant));
    assert(read_path(reference) =~= seq!["agents"@, id]);
}

/// Where the path of an agent leads to a URL without a query, the read goes to that URL
/// with the tenant as the one pair behind it.
pub proof fn law_agent_read_goes_to_its_query(
    base: Url,
    id: Seq<char>,
    tenant: Seq<char>,
    url: Seq<char>,
)
    requires
        query_endpoint(base, agent_path(id)) == Ok::<Seq<char>, Seq<char>>(url),
        !url.contains('?'),
    ensures
        agent_target(base, id, tenant) == Ok::<Seq<char>, Seq<char>>(
            url + first_pair("tenant"@, tenant),
        ),
{
    lemma_first_pair(url, "tenant"@, tenant);
}

/// An agents reply is a value exactly where its status is 200 and its body could be
/// decoded, and then it is the decoded value. A body that could not be decoded is the
/// decoder's error. 401 and 400 have errors of their own, every other status is an error of
/// the service; all keep the body as it came.
pub proof fn law_agents_reply<T>(
    status: u16,
    body: String,
    decoded: Result<T, serde_json::Error>,
)
    ensures
        match agents_reply(status, body, decoded) {
            Ok(value) => status == 200 && decoded == Ok::<T, serde_json::Error>(value),
            Err(WardenError::Decode(e)) => status == 200 && decoded == Err::<
                T,
                serde_json::Error,
            >(e),
            Err(WardenError::Unauthorized(b)) => status == 401 && b == body,
            Err(WardenError::BadRequest(b)) => status == 400 && b == body,
            Err(WardenError::Server { status: s, body: b }) => status != 200 && status != 401
                && status != 400 && s == status && b == body,
            Err(_) => false,
        },
{
}

// ---------------------------------------------------------------------------
// Client
// ---------------------------------------------------------------------------
/// What a reply comes to: the decoded body of a 200, and the error of every other
/// status.
pub open spec fn agents_reply<T>(
    status: u16,
    body: String,
    decoded: Result<T, serde_json::Error>,
) -> Result<T, WardenError> {
    if status == 200 {
        decoded_value(decoded)
    } else {
        Err(status_error(status, body))
    }
}

/// Client for the identity service's `/agents` endpoints.
#[derive(Debug)]
pub struct AgentsClient {
    base_url: Url,
    bearer: Option<String>,
}

impl Clone for AgentsClient {
    fn clone(&self) -> (r: AgentsClient)
        ensures
            r == *self,
    {
        AgentsClient { base_url: self.base_url.clone(), bearer: copy_token(&self.bearer) }
    }
}

impl AgentsClient {
    /// The configured base URL.
    pub closed spec fn base(&self) -> Url {
        self.base_url
    }

    /// The token that is sent with every request, where there is one.
    pub closed spec fn token(&self) -> Option<String> {
        self.bearer
    }

    /// Build a client against `base_url` (e.g. `http://localhost:8086`). It has no
    /// token. A text that is no URL is a configuration error.
    pub fn new(base_url: &str) -> (r: Result<AgentsClient, WardenError>)
        ensures
            match r {
                Ok(client) => base_url_of(base_url@) == Ok::<Seq<char>, Seq<char>>(
                    url_text(client.base()),
                ) && client.token() is None,
                Err(e) => e matches WardenError::InvalidConfig(message) && base_url_of(base_url@)
                    == Err::<Seq<char>, Seq<char>>(message@),
            },
    {
        match parse_base_url(base_url) {
            Ok(url) => Ok(AgentsClient { base_url: url, bearer: None }),
            Err(e) => Err(e),
        }
    }

    /// Attach a bearer token, in place of the one that was there.
    pub fn with_bearer(self, token: String) -> (r: AgentsClient)
        ensures
            r.base() == self.base(),
            r.token() == Some(token),
    {
        AgentsClient { base_url: self.base_url, bearer: Some(token) }
    }

    /// Read-only access to the configured base URL.
    pub fn base_url(&self) -> (r: &Url)
        ensures
            *r == self.base(),
    {
        &self.base_url
    }

    /// `GET /agents?tenant=<t>[&state=<s>][&owner_team=<o>]`: every agent of the tenant
    /// that the filter lets through.
    pub fn list(&self, tenant: &str, filter: AgentListFilter) -> (r: Result<
        Request<()>,
        WardenError,
    >)
        ensures
            goes_to(r, list_target(self.base(), tenant@, filter)),
            lands_on_query(
                self.base(),
                list_target(self.base(), tenant@, filter),
                "agents"@,
                list_query(tenant@, filter),
            ),
            r matches Ok(request) ==> request.method == Method::Get && request.bearer
                == self.token(),
    {
        proof {
            lemma_agents_path();
            lemma_plain_path("agents"@);
        }
        let joined = join_for_query(&self.base_url, "agents");
        proof {
            lemma_list_lands(self.base(), tenant@, filter);
        }
        match joined {
            Ok(url) => {
                let mut url = url;
                add_pair(&mut url, "tenant", tenant);
                if let Some(state) = filter.state {
                    add_pair(&mut url, "state", state.as_wire());
                }
                if let Some(team) = &filter.owner_team {
                    add_pair(&mut url, "owner_team", team.as_str());
                }
                Ok(Request { method: Method::Get, url, bearer: copy_token(&self.bearer), body: () })
            },
            Err(e) => Err(e),
        }
    }

    /// `GET /agents/{id}?tenant=<t>`: one agent of the tenant.
    pub fn get(&self, id: &str, tenant: &str) -> (r: Result<Request<()>, WardenError>)
        ensures
            goes_to(r, agent_target(self.base(), id@, tenant@)),
            !is_dot_segment(id@) ==> lands_on_query(
                self.base(),
                agent_target(self.base(), id@, tenant@),
                agent_path(id@),
                first_pair("tenant"@, tenant@),
            ),
            r matches Ok(request) ==> request.method == Method::Get && request.bearer
                == self.token(),
    {
        let mut path = "agents/".to_owned();
        path.append(percent_encode(id).as_str());
        let ghost bare = query_endpoint(self.base(), agent_path(id@));
        proof {
            lemma_agent_path(id@);
            if !is_dot_segment(id@) {
                lemma_plain_path(agent_path(id@));
            }
        }
        let joined = join_for_query(&self.base_url, path.as_str());
        proof {
            if !is_dot_segment(id@) {
                lemma_lands_on_first_pair(
                    self.base(),
                    bare,
                    agent_path(id@),
                    "tenant"@,
                    tenant@,
                );
            }
        }
        match joined {
            Ok(url) => {
                let mut url = url;
                add_pair(&mut url, "tenant", tenant);
                Ok(Request { method: Method::Get, url, bearer: copy_token(&self.bearer), body: () })
            },
            Err(e) => Err(e),
        }
    }

    /// What a reply comes to: the decoded body of a 200; 401 and 400 have errors of
    /// their own, every other status is an error of the service.
    pub fn read_reply<T>(
        status: u16,
        body: String,
        decoded: Result<T, serde_json::Error>,
    ) -> (r: Result<T, WardenError>)
        ensures
            r == agents_reply(status, body, decoded),
    {
        if status == 200 {
            read_decoded(decoded)
        } else {
            Err(read_status_error(status, body))
        }
    }
}

} // verus!
