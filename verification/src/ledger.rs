//! The ledger's audit, verify and export endpoints.
//!
//! Every call has two halves. The first builds the request; the second reads the
//! reply, once its body has been decoded.
use crate::error::WardenError;
use crate::http::{
    base_url_of, decoded_value, endpoint, goes_to, lands_on, parse_base_url, read_decoded,
    request, Method, Request,
};
use crate::outside::{
    format_rfc3339, has_plain_year, is_dot_segment, is_instant, is_plain_path,
    is_plain_reference, is_whole_second_in_utc, rfc3339_seconds, url_text,
};
use crate::read::{
    lemma_bare_path, lemma_first_value, lemma_front_raw_pair, lemma_last_raw_pair,
    lemma_last_value, lemma_path_and_query, lemma_word_is_kept, law_plain_number_round_trip,
    number_value, raw_pair, read_path, read_query,
};
use crate::route::{
    law_encoded_value_is_plain, lemma_first_segment, lemma_longer_query, lemma_next_segment,
    lemma_plain_path, lemma_plain_reference, lemma_word, slash,
};
use crate::text::{
    decimal, decimal_text, law_decimal_round_trip, law_segment_alphabet, law_segment_injective,
    law_segment_keeps_unreserved, lemma_decimal_alphabet, lemma_no_separator,
    lemma_no_separator_in_decimal, lemma_same_rest, lemma_split, percent_encode, percent_encoded,
};
use reqwest::Url;
use vstd::prelude::*;

verus! {

// ---------------------------------------------------------------------------
// Types
// ---------------------------------------------------------------------------
/// Outcome of a chain re-hash. `valid=false` with `first_invalid_seq=Some(n)` means
/// that the entry at `seq=n` is the first whose hash did not match: a tamper.
/// `valid=false` with `unsupported_chain_version=Some(v)` means that the ledger has a
/// row of a chain version that the verifier does not know: an upgrade is due.
#[derive(Debug, Clone)]
pub struct VerifyResult {
    pub valid: bool,
    pub entries_checked: usize,
    pub first_invalid_seq: Option<i64>,
    pub unsupported_chain_version: Option<i64>,
}

/// Per-call options of [`LedgerClient::regulatory_export`].
#[derive(Debug, Clone)]
pub struct RegulatoryExportOptions {
    /// Technical documentation in markdown, sent word for word as the body.
    pub readme: Option<Vec<u8>>,
    /// Whether the bundle is to hold pointers to the cold-tier snapshots that
    /// overlap the window.
    pub include_exports: bool,
}

impl Default for RegulatoryExportOptions {
    /// No readme, no exports.
    fn default() -> (r: RegulatoryExportOptions)
        ensures
            r.readme is None,
            !r.include_exports,
    {
        RegulatoryExportOptions { readme: None, include_exports: false }
    }
}

/// A body that is sent as it is, with its content type.
#[derive(Debug)]
pub struct Upload {
    pub content_type: &'static str,
    pub bytes: Vec<u8>,
}

/// The reply body of [`LedgerClient::audit_agent_count`].
#[derive(Debug)]
pub struct AuditCount {
    pub count: i64,
}

/// The reply body of [`LedgerClient::list_agents`].
#[derive(Debug)]
pub struct AgentNames {
    pub agents: Vec<String>,
}

/// An instant, to the second, as it is written in a URL.
#[derive(Debug)]
pub struct Timestamp {
    rfc3339: String,
}

impl View for Timestamp {
    type V = Seq<char>;

    closed spec fn view(&self) -> Seq<char> {
        self.rfc3339@
    }
}

impl Timestamp {
    /// The instant `seconds` after 1970 began in UTC, and `nanos` nanoseconds, where
    /// the calendar reaches that far. Its text is in whole seconds: what is behind the
    /// second is cut off, so that two instants of the same second have the same text. Only
    /// a leap second, with a thousand million nanoseconds or more, has another.
    pub fn from_unix(seconds: i64, nanos: u32) -> (r: Option<Timestamp>)
        ensures
            match r {
                Some(t) => rfc3339_seconds(seconds, nanos) == Some(t@),
                None => rfc3339_seconds(seconds, nanos) is None,
            },
            r is Some == is_instant(seconds, nanos),
            r matches Some(t) ==> {
                &&& is_whole_second_in_utc(t@)
                &&& has_plain_year(seconds) ==> t@.len() == 20
                &&& nanos < 1_000_000_000 ==> rfc3339_seconds(seconds, 0) == Some(t@)
            },
    {
        match format_rfc3339(seconds, nanos) {
            Some(rfc3339) => Some(Timestamp { rfc3339 }),
            None => None,
        }
    }

    /// The instant in RFC 3339.
    pub fn as_str(&self) -> (r: &str)
        ensures
            r@ == self@,
    {
        self.rfc3339.as_str()
    }
}

/// The chain version of a row that does not carry one.
pub fn default_chain_version() -> (r: i64)
    ensures
        r == 1,
{
    1
}

// ---------------------------------------------------------------------------
// Paths
// ---------------------------------------------------------------------------
/// The path of [`LedgerClient::audit_correlation`].
pub open spec fn correlation_path(correlation_id: Seq<char>) -> Seq<char> {
    "audit/correlation/"@ + percent_encoded(correlation_id)
}

/// The path of [`LedgerClient::audit_agent`].
pub open spec fn audit_path(agent_id: Seq<char>) -> Seq<char> {
    "audit/"@ + percent_encoded(agent_id)
}

/// The path and query of [`LedgerClient::audit_agent_paged`].
pub open spec fn audit_page_path(agent_id: Seq<char>, limit: nat, offset: nat) -> Seq<char> {
    audit_path(agent_id) + "?limit="@ + decimal(limit) + "&offset="@ + decimal(offset)
}

/// The path of [`LedgerClient::audit_agent_count`].
pub open spec fn audit_count_path(agent_id: Seq<char>) -> Seq<char> {
    audit_path(agent_id) + "/count"@
}

/// The path of [`LedgerClient::lifecycle_for_agent`].
pub open spec fn lifecycle_path(tenant: Seq<char>, agent_id: Seq<char>) -> Seq<char> {
    "audit/agent/"@ + percent_encoded(tenant) + "/"@ + percent_encoded(agent_id) + "/lifecycle"@
}

/// The path and query of [`LedgerClient::regulatory_export`].
pub open spec fn regulatory_path(
    from: Seq<char>,
    to: Seq<char>,
    include_exports: bool,
) -> Seq<char> {
    "export/regulatory?from="@ + percent_encoded(from) + "&to="@ + percent_encoded(to)
        + export_flag(include_exports)
}

/// The part of a query that asks for the exports.
pub open spec fn export_flag(include_exports: bool) -> Seq<char> {
    if include_exports {
        "&include_exports=true"@
    } else {
        seq![]
    }
}

proof fn lemma_audit_path(agent_id: Seq<char>)
    requires
        !is_dot_segment(agent_id),
    ensures
        is_plain_path(audit_path(agent_id)),
{
    reveal_strlit("audit/");
    reveal_strlit("audit");
    lemma_word("audit"@);
    lemma_first_segment("audit"@);
    law_encoded_value_is_plain(agent_id);
    lemma_next_segment("audit"@, percent_encoded(agent_id));
    assert(audit_path(agent_id) == slash("audit"@, percent_encoded(agent_id)));
}

proof fn lemma_correlation_path(correlation_id: Seq<char>)
    requires
        !is_dot_segment(correlation_id),
    ensures
        is_plain_path(correlation_path(correlation_id)),
{
    reveal_strlit("audit/correlation/");
    reveal_strlit("audit");
    reveal_strlit("correlation");
    let prefix = slash("audit"@, "correlation"@);
    lemma_word("audit"@);
    lemma_word("correlation"@);
    lemma_first_segment("audit"@);
    lemma_next_segment("audit"@, "correlation"@);
    law_encoded_value_is_plain(correlation_id);
    lemma_next_segment(prefix, percent_encoded(correlation_id));
    assert(correlation_path(correlation_id) == slash(prefix, percent_encoded(correlation_id)));
}

proof fn lemma_audit_count_path(agent_id: Seq<char>)
    requires
        !is_dot_segment(agent_id),
    ensures
        is_plain_path(audit_count_path(agent_id)),
{
    reveal_strlit("/count");
    reveal_strlit("count");
    lemma_audit_path(agent_id);
    lemma_word("count"@);
    lemma_next_segment(audit_path(agent_id), "count"@);
    assert(audit_count_path(agent_id) == slash(audit_path(agent_id), "count"@));
}

proof fn lemma_lifecycle_path(tenant: Seq<char>, agent_id: Seq<char>)
    requires
        !is_dot_segment(tenant),
        !is_dot_segment(agent_id),
    ensures
        is_plain_path(lifecycle_path(tenant, agent_id)),
{
    reveal_strlit("audit/agent/");
    reveal_strlit("audit");
    reveal_strlit("agent");
    reveal_strlit("/");
    reveal_strlit("/lifecycle");
    reveal_strlit("lifecycle");
    let words = slash("audit"@, "agent"@);
    let with_tenant = slash(words, percent_encoded(tenant));
    let with_agent = slash(with_tenant, percent_encoded(agent_id));
    lemma_word("audit"@);
    lemma_word("agent"@);
    lemma_word("lifecycle"@);
    lemma_first_segment("audit"@);
    lemma_next_segment("audit"@, "agent"@);
    law_encoded_value_is_plain(tenant);
    law_encoded_value_is_plain(agent_id);
    lemma_next_segment(words, percent_encoded(tenant));
    lemma_next_segment(with_tenant, percent_encoded(agent_id));
    lemma_next_segment(with_agent, "lifecycle"@);
    assert(lifecycle_path(tenant, agent_id) == slash(with_agent, "lifecycle"@));
}

proof fn lemma_audit_page_path(agent_id: Seq<char>, limit: nat, offset: nat)
    requires
        !is_dot_segment(agent_id),
    ensures
        is_plain_reference(audit_page_path(agent_id, limit, offset)),
{
    reveal_strlit("?limit=");
    reveal_strlit("&offset=");
    lemma_audit_path(agent_id);
    lemma_decimal_alphabet(limit);
    lemma_decimal_alphabet(offset);
    let limited = "?limit="@ + decimal(limit);
    lemma_longer_query("?limit="@, decimal(limit));
    lemma_longer_query(limited, "&offset="@);
    lemma_longer_query(limited + "&offset="@, decimal(offset));
    let query = limited + "&offset="@ + decimal(offset);
    lemma_plain_reference(audit_path(agent_id), query);
    assert(audit_page_path(agent_id, limit, offset) == audit_path(agent_id) + query);
}

proof fn lemma_regulatory_path(from: Seq<char>, to: Seq<char>, include_exports: bool)
    ensures
        is_plain_reference(regulatory_path(from, to, include_exports)),
{
    reveal_strlit("export/regulatory?from=");
    reveal_strlit("export");
    reveal_strlit("regulatory");
    reveal_strlit("?from=");
    reveal_strlit("&to=");
    reveal_strlit("&include_exports=true");
    let path = slash("export"@, "regulatory"@);
    lemma_word("export"@);
    lemma_word("regulatory"@);
    lemma_first_segment("export"@);
    lemma_next_segment("export"@, "regulatory"@);
    law_segment_alphabet(from);
    law_segment_alphabet(to);
    let flag = export_flag(include_exports);
    let since = "?from="@ + percent_encoded(from);
    let until = since + "&to="@ + percent_encoded(to);
    lemma_longer_query("?from="@, percent_encoded(from));
    lemma_longer_query(since, "&to="@);
    lemma_longer_query(since + "&to="@, percent_encoded(to));
    lemma_longer_query(until, flag);
    lemma_plain_reference(path, until + flag);
    assert(regulatory_path(from, to, include_exports) == path + (until + flag));
}

/// Two agents, or two correlation ids, share no path.
pub proof fn law_audit_paths_are_distinct(a: Seq<char>, b: Seq<char>)
    requires
        a != b,
    ensures
        audit_path(a) != audit_path(b),
        audit_count_path(a) != audit_count_path(b),
        correlation_path(a) != correlation_path(b),
{
    if audit_path(a) == audit_path(b) {
        lemma_same_rest("audit/"@, percent_encoded(a), percent_encoded(b));
        law_segment_injective(a, b);
    }
    if audit_count_path(a) == audit_count_path(b) {
        assert(audit_count_path(a).take(audit_path(a).len() as int) == audit_path(a));
        assert(audit_count_path(b).take(audit_path(b).len() as int) == audit_path(b));
        assert(audit_path(a) == audit_path(b));
    }
    if correlation_path(a) == correlation_path(b) {
        lemma_same_rest("audit/correlation/"@, percent_encoded(a), percent_encoded(b));
        law_segment_injective(a, b);
    }
}

/// The audit endpoints share no path: the rows of an agent, their count, the rows of a
/// correlation id and the lifecycle of an agent have different paths, whatever the ids.
/// The one exception is the count of the agent that is called `correlation`, which is
/// where the rows of the correlation id `count` are. This is about the paths before they
/// are resolved. A path with the id `.` or `..` in it is not kept as it is when it is put
/// behind a base URL, so that such an id may lead to another endpoint.
pub proof fn law_audit_routes_are_separate(
    a: Seq<char>,
    b: Seq<char>,
    tenant: Seq<char>,
    correlation_id: Seq<char>,
)
    ensures
        audit_path(a) != audit_count_path(b),
        audit_path(a) != correlation_path(correlation_id),
        audit_path(a) != lifecycle_path(tenant, b),
        audit_count_path(a) != lifecycle_path(tenant, b),
        correlation_path(correlation_id) != lifecycle_path(tenant, b),
        audit_count_path(a) == correlation_path(correlation_id) ==> a == "correlation"@
            && correlation_id == "count"@,
{
    reveal_strlit("audit/");
    reveal_strlit("audit/correlation/");
    reveal_strlit("audit/agent/");
    reveal_strlit("correlation");
    reveal_strlit("agent");
    reveal_strlit("/count");
    reveal_strlit("count");
    reveal_strlit("/");
    let start = "audit/"@;
    let id = percent_encoded(a);
    let lifecycle = percent_encoded(tenant) + "/"@ + percent_encoded(b) + "/lifecycle"@;
    let count_rest = id + seq!['/'] + "count"@;
    let correlation_rest = "correlation"@ + seq!['/'] + percent_encoded(correlation_id);
    let lifecycle_rest = "agent"@ + seq!['/'] + lifecycle;
    assert(audit_count_path(a) == start + count_rest);
    assert(audit_count_path(b) == start + (percent_encoded(b) + "/count"@));
    assert(correlation_path(correlation_id) == start + correlation_rest);
    assert(lifecycle_path(tenant, b) == start + lifecycle_rest);
    lemma_no_separator(a, '/');
    if audit_path(a) == audit_count_path(b) {
        lemma_same_rest(start, id, percent_encoded(b) + "/count"@);
        assert(id[percent_encoded(b).len() as int] == '/');
    }
    if audit_path(a) == correlation_path(correlation_id) {
        lemma_same_rest(start, id, correlation_rest);
        assert(id[11] == '/');
    }
    if audit_path(a) == lifecycle_path(tenant, b) {
        lemma_same_rest(start, id, lifecycle_rest);
        assert(id[5] == '/');
    }
    if audit_count_path(a) == lifecycle_path(tenant, b) {
        lemma_same_rest(start, count_rest, lifecycle_rest);
        lemma_split(id, "count"@, "agent"@, lifecycle, '/');
        assert(lifecycle[percent_encoded(tenant).len() as int] == '/');
        assert("count"@.contains('/'));
    }
    if correlation_path(correlation_id) == lifecycle_path(tenant, b) {
        lemma_same_rest(start, correlation_rest, lifecycle_rest);
        assert(correlation_rest[0] == 'c');
        assert(lifecycle_rest[0] == 'a');
    }
    if audit_count_path(a) == correlation_path(correlation_id) {
        lemma_same_rest(start, count_rest, correlation_rest);
        lemma_split(id, "count"@, "correlation"@, percent_encoded(correlation_id), '/');
        law_segment_keeps_unreserved("correlation"@);
        law_segment_keeps_unreserved("count"@);
        law_segment_injective(a, "correlation"@);
        law_segment_injective(correlation_id, "count"@);
    }
}

/// Two pages of the same or of different agents share no path and query.
pub proof fn law_audit_pages_are_distinct(
    a: Seq<char>,
    a_limit: nat,
    a_offset: nat,
    b: Seq<char>,
    b_limit: nat,
    b_offset: nat,
)
    requires
        audit_page_path(a, a_limit, a_offset) == audit_page_path(b, b_limit, b_offset),
    ensures
        a == b,
        a_limit == b_limit,
        a_offset == b_offset,
{
    reveal_strlit("audit/");
    reveal_strlit("?limit=");
    reveal_strlit("&offset=");
    let a_page = decimal(a_limit) + seq!['&'] + ("offset="@ + decimal(a_offset));
    let b_page = decimal(b_limit) + seq!['&'] + ("offset="@ + decimal(b_offset));
    let a_rest = percent_encoded(a) + seq!['?'] + ("limit="@ + a_page);
    let b_rest = percent_encoded(b) + seq!['?'] + ("limit="@ + b_page);
    reveal_strlit("limit=");
    reveal_strlit("offset=");
    assert(audit_page_path(a, a_limit, a_offset) == "audit/"@ + a_rest);
    assert(audit_page_path(b, b_limit, b_offset) == "audit/"@ + b_rest);
    lemma_same_rest("audit/"@, a_rest, b_rest);
    lemma_no_separator(a, '?');
    lemma_no_separator(b, '?');
    lemma_split(percent_encoded(a), "limit="@ + a_page, percent_encoded(b), "limit="@ + b_page, '?');
    law_segment_injective(a, b);
    lemma_same_rest("limit="@, a_page, b_page);
    lemma_no_separator_in_decimal(a_limit, '&');
    lemma_no_separator_in_decimal(b_limit, '&');
    lemma_split(
        decimal(a_limit),
        "offset="@ + decimal(a_offset),
        decimal(b_limit),
        "offset="@ + decimal(b_offset),
        '&',
    );
    lemma_same_rest("offset="@, decimal(a_offset), decimal(b_offset));
    law_decimal_round_trip(a_limit);
    law_decimal_round_trip(b_limit);
    law_decimal_round_trip(a_offset);
    law_decimal_round_trip(b_offset);
}

/// Two agents share no lifecycle path, be they of one tenant or of two.
pub proof fn law_lifecycle_paths_are_distinct(
    a_tenant: Seq<char>,
    a: Seq<char>,
    b_tenant: Seq<char>,
    b: Seq<char>,
)
    requires
        lifecycle_path(a_tenant, a) == lifecycle_path(b_tenant, b),
    ensures
        a_tenant == b_tenant,
        a == b,
{
    reveal_strlit("/");
    reveal_strlit("/lifecycle");
    reveal_strlit("lifecycle");
    let a_agent = percent_encoded(a) + seq!['/'] + "lifecycle"@;
    let b_agent = percent_encoded(b) + seq!['/'] + "lifecycle"@;
    let a_rest = percent_encoded(a_tenant) + seq!['/'] + a_agent;
    let b_rest = percent_encoded(b_tenant) + seq!['/'] + b_agent;
    assert(lifecycle_path(a_tenant, a) == "audit/agent/"@ + a_rest);
    assert(lifecycle_path(b_tenant, b) == "audit/agent/"@ + b_rest);
    lemma_same_rest("audit/agent/"@, a_rest, b_rest);
    lemma_no_separator(a_tenant, '/');
    lemma_no_separator(b_tenant, '/');
    lemma_no_separator(a, '/');
    lemma_no_separator(b, '/');
    lemma_split(percent_encoded(a_tenant), a_agent, percent_encoded(b_tenant), b_agent, '/');
    lemma_split(percent_encoded(a), "lifecycle"@, percent_encoded(b), "lifecycle"@, '/');
    law_segment_injective(a_tenant, b_tenant);
    law_segment_injective(a, b);
}

/// Two windows, or one window with and without the exports, share no path and query.
pub proof fn law_export_windows_are_distinct(
    a_from: Seq<char>,
    a_to: Seq<char>,
    a_exports: bool,
    b_from: Seq<char>,
    b_to: Seq<char>,
    b_exports: bool,
)
    requires
        regulatory_path(a_from, a_to, a_exports) == regulatory_path(b_from, b_to, b_exports),
    ensures
        a_from == b_from,
        a_to == b_to,
        a_exports == b_exports,
{
    reveal_strlit("&to=");
    reveal_strlit("to=");
    let start = "export/regulatory?from="@;
    let a_flag = export_flag(a_exports);
    let b_flag = export_flag(b_exports);
    let a_until = "to="@ + (percent_encoded(a_to) + a_flag);
    let b_until = "to="@ + (percent_encoded(b_to) + b_flag);
    let a_rest = percent_encoded(a_from) + seq!['&'] + a_until;
    let b_rest = percent_encoded(b_from) + seq!['&'] + b_until;
    assert(regulatory_path(a_from, a_to, a_exports) == start + a_rest);
    assert(regulatory_path(b_from, b_to, b_exports) == start + b_rest);
    lemma_same_rest(start, a_rest, b_rest);
    lemma_no_separator(a_from, '&');
    lemma_no_separator(b_from, '&');
    lemma_split(percent_encoded(a_from), a_until, percent_encoded(b_from), b_until, '&');
    law_segment_injective(a_from, b_from);
    lemma_same_rest("to="@, percent_encoded(a_to) + a_flag, percent_encoded(b_to) + b_flag);
    lemma_export_flag(a_to, a_exports);
    lemma_export_flag(b_to, b_exports);
    reveal_strlit("&include_exports=true");
    reveal_strlit("include_exports=true");
    if a_exports {
        let flag = "include_exports=true"@;
        assert(a_flag == seq!['&'] + flag);
        lemma_no_separator(a_to, '&');
        lemma_no_separator(b_to, '&');
        assert(percent_encoded(a_to) + a_flag == percent_encoded(a_to) + seq!['&'] + flag);
        assert(percent_encoded(b_to) + b_flag == percent_encoded(b_to) + seq!['&'] + flag);
        lemma_split(percent_encoded(a_to), flag, percent_encoded(b_to), flag, '&');
    } else {
        assert(percent_encoded(a_to) + a_flag == percent_encoded(a_to));
        assert(percent_encoded(b_to) + b_flag == percent_encoded(b_to));
    }
    law_segment_injective(a_to, b_to);
}

proof fn lemma_export_flag(to: Seq<char>, include_exports: bool)
    ensures
        (percent_encoded(to) + export_flag(include_exports)).contains('&') == include_exports,
{
    let text = percent_encoded(to) + export_flag(include_exports);
    lemma_no_separator(to, '&');
    reveal_strlit("&include_exports=true");
    if include_exports {
        assert(text[percent_encoded(to).len() as int] == '&');
    } else {
        assert(text == percent_encoded(to));
    }
}

/// The path of an agent's rows has two segments: `audit`, and one that stands for the
/// agent id.
pub proof fn law_audit_path_reads_back(agent_id: Seq<char>)
    ensures
        read_path(audit_path(agent_id)) == seq!["audit"@, agent_id],
        read_query(audit_path(agent_id)) == Seq::<(Seq<char>, Seq<char>)>::empty(),
{
    lemma_words_are_kept();
    reveal_strlit("audit/");
    reveal_strlit("audit");
    lemma_last_value(agent_id);
    lemma_first_value("audit"@, percent_encoded(agent_id));
    assert(audit_path(agent_id) == percent_encoded("audit"@) + seq!['/'] + percent_encoded(
        agent_id,
    ));
    lemma_audit_path_has_no_query(agent_id);
    lemma_bare_path(audit_path(agent_id));
    assert(read_path(audit_path(agent_id)) =~= seq!["audit"@, agent_id]);
}

/// The path of a correlation id's rows has three segments: `audit`, `correlation`, and one
/// that stands for the correlation id.
pub proof fn law_correlation_path_reads_back(correlation_id: Seq<char>)
    ensures
        read_path(correlation_path(correlation_id)) == seq![
            "audit"@,
            "correlation"@,
            correlation_id,
        ],
        read_query(correlation_path(correlation_id)) == Seq::<(Seq<char>, Seq<char>)>::empty(),
{
    lemma_words_are_kept();
    reveal_strlit("audit/correlation/");
    reveal_strlit("audit");
    reveal_strlit("correlation");
    let id = percent_encoded(correlation_id);
    let rest = percent_encoded("correlation"@) + seq!['/'] + id;
    lemma_last_value(correlation_id);
    lemma_first_value("correlation"@, id);
    lemma_first_value("audit"@, rest);
    assert(correlation_path(correlation_id) == percent_encoded("audit"@) + seq!['/'] + rest);
    lemma_no_separator(correlation_id, '?');
    lemma_no_query("audit/correlation/"@, id);
    lemma_bare_path(correlation_path(correlation_id));
    assert(read_path(correlation_path(correlation_id)) =~= seq![
        "audit"@,
        "correlation"@,
        correlation_id,
    ]);
}

/// The path of the count of an agent's rows has three segments: `audit`, one that stands
/// for the agent id, and `count`.
pub proof fn law_audit_count_path_reads_back(agent_id: Seq<char>)
    ensures
        read_path(audit_count_path(agent_id)) == seq!["audit"@, agent_id, "count"@],
        read_query(audit_count_path(agent_id)) == Seq::<(Seq<char>, Seq<char>)>::empty(),
{
    lemma_words_are_kept();
    reveal_strlit("audit/");
    reveal_strlit("audit");
    reveal_strlit("/count");
    reveal_strlit("count");
    let id = percent_encoded(agent_id);
    let rest = id + seq!['/'] + percent_encoded("count"@);
    lemma_last_value("count"@);
    lemma_first_value(agent_id, percent_encoded("count"@));
    lemma_first_value("audit"@, rest);
    assert(audit_count_path(agent_id) == percent_encoded("audit"@) + seq!['/'] + rest);
    lemma_audit_path_has_no_query(agent_id);
    lemma_no_query(audit_path(agent_id), "/count"@);
    lemma_bare_path(audit_count_path(agent_id));
    assert(read_path(audit_count_path(agent_id)) =~= seq!["audit"@, agent_id, "count"@]);
}

/// The path of an agent's lifecycle has five segments: `audit`, `agent`, one that stands
/// for the tenant, one that stands for the agent id, and `lifecycle`, in this order.
pub proof fn law_lifecycle_path_reads_back(tenant: Seq<char>, agent_id: Seq<char>)
    ensures
        read_path(lifecycle_path(tenant, agent_id)) == seq![
            "audit"@,
            "agent"@,
            tenant,
            agent_id,
            "lifecycle"@,
        ],
        read_query(lifecycle_path(tenant, agent_id)) == Seq::<(Seq<char>, Seq<char>)>::empty(),
{
    let of_agent = percent_encoded(agent_id) + seq!['/'] + percent_encoded("lifecycle"@);
    let of_tenant = percent_encoded(tenant) + seq!['/'] + of_agent;
    let of_agents = percent_encoded("agent"@) + seq!['/'] + of_tenant;
    let path = lifecycle_path(tenant, agent_id);
    lemma_lifecycle_parts(tenant, agent_id);
    lemma_lifecycle_has_no_query(tenant, agent_id);
    lemma_last_value("lifecycle"@);
    lemma_first_value(agent_id, percent_encoded("lifecycle"@));
    lemma_first_value(tenant, of_agent);
    lemma_first_value("agent"@, of_tenant);
    lemma_first_value("audit"@, of_agents);
    lemma_bare_path(path);
    assert(read_path(path) =~= seq!["audit"@, "agent"@, tenant, agent_id, "lifecycle"@]);
}

proof fn lemma_lifecycle_parts(tenant: Seq<char>, agent_id: Seq<char>)
    ensures
        lifecycle_path(tenant, agent_id) == percent_encoded("audit"@) + seq!['/'] + (
        percent_encoded("agent"@) + seq!['/'] + (percent_encoded(tenant) + seq!['/'] + (
        percent_encoded(agent_id) + seq!['/'] + percent_encoded("lifecycle"@)))),
{
    lemma_words_are_kept();
    reveal_strlit("audit/agent/");
    reveal_strlit("audit");
    reveal_strlit("agent");
    reveal_strlit("/");
    reveal_strlit("/lifecycle");
    reveal_strlit("lifecycle");
    assert("audit/agent/"@ == "audit"@ + seq!['/'] + "agent"@ + seq!['/']);
    assert("/"@ == seq!['/']);
    assert("/lifecycle"@ == seq!['/'] + "lifecycle"@);
    lemma_regroup(
        "audit"@,
        "agent"@,
        percent_encoded(tenant),
        percent_encoded(agent_id),
        "lifecycle"@,
    );
}

proof fn lemma_regroup(a: Seq<char>, b: Seq<char>, c: Seq<char>, d: Seq<char>, e: Seq<char>)
    ensures
        a + seq!['/'] + b + seq!['/'] + c + seq!['/'] + d + (seq!['/'] + e) == a + seq!['/'] + (b
            + seq!['/'] + (c + seq!['/'] + (d + seq!['/'] + e))),
{
    assert(a + seq!['/'] + b + seq!['/'] + c + seq!['/'] + d + (seq!['/'] + e) =~= a + seq!['/']
        + (b + seq!['/'] + (c + seq!['/'] + (d + seq!['/'] + e))));
}

proof fn lemma_lifecycle_has_no_query(tenant: Seq<char>, agent_id: Seq<char>)
    ensures
        !lifecycle_path(tenant, agent_id).contains('?'),
{
    reveal_strlit("audit/agent/");
    reveal_strlit("/");
    reveal_strlit("/lifecycle");
    lemma_no_separator(tenant, '?');
    lemma_no_separator(agent_id, '?');
    let start = "audit/agent/"@ + percent_encoded(tenant);
    lemma_no_query("audit/agent/"@, percent_encoded(tenant));
    lemma_no_query(start, "/"@);
    lemma_no_query(start + "/"@, percent_encoded(agent_id));
    lemma_no_query(start + "/"@ + percent_encoded(agent_id), "/lifecycle"@);
}

/// The reference of a page has the path of the agent's rows and two query pairs: `limit`
/// and `offset`, each with a value that reads back as the number that was asked for.
pub proof fn law_audit_page_reads_back(agent_id: Seq<char>, limit: nat, offset: nat)
    ensures
        read_path(audit_page_path(agent_id, limit, offset)) == seq!["audit"@, agent_id],
        ({
            let pairs = read_query(audit_page_path(agent_id, limit, offset));
            &&& pairs.len() == 2
            &&& pairs[0].0 == "limit"@ && number_value(pairs[0].1) == limit
            &&& pairs[1].0 == "offset"@ && number_value(pairs[1].1) == offset
        }),
{
    let path = audit_path(agent_id);
    let last = raw_pair("offset"@, decimal(offset));
    let pairs = raw_pair("limit"@, decimal(limit)) + seq!['&'] + last;
    let reference = audit_page_path(agent_id, limit, offset);
    lemma_audit_page_parts(agent_id, limit, offset);
    law_plain_number_round_trip(limit);
    law_plain_number_round_trip(offset);
    lemma_last_raw_pair("offset"@, decimal(offset));
    lemma_front_raw_pair("limit"@, decimal(limit), last);
    lemma_audit_path_has_no_query(agent_id);
    lemma_path_and_query(path, pairs);
    law_audit_path_reads_back(agent_id);
    lemma_bare_path(path);
    assert(read_query(reference) =~= seq![
        ("limit"@, decimal(limit)),
        ("offset"@, decimal(offset)),
    ]);
}

proof fn lemma_audit_page_parts(agent_id: Seq<char>, limit: nat, offset: nat)
    ensures
        audit_page_path(agent_id, limit, offset) == audit_path(agent_id) + (seq!['?'] + (raw_pair(
            "limit"@,
            decimal(limit),
        ) + seq!['&'] + raw_pair("offset"@, decimal(offset)))),
{
    lemma_words_are_kept();
    law_plain_number_round_trip(limit);
    law_plain_number_round_trip(offset);
    reveal_strlit("?limit=");
    reveal_strlit("&offset=");
    reveal_strlit("limit");
    reveal_strlit("offset");
    assert("?limit="@ == seq!['?'] + "limit"@ + seq!['=']);
    assert("&offset="@ == seq!['&'] + "offset"@ + seq!['=']);
    assert(audit_page_path(agent_id, limit, offset) =~= audit_path(agent_id) + (seq!['?'] + (
    raw_pair("limit"@, decimal(limit)) + seq!['&'] + raw_pair("offset"@, decimal(offset)))));
}

proof fn lemma_audit_path_has_no_query(agent_id: Seq<char>)
    ensures
        !audit_path(agent_id).contains('?'),
{
    reveal_strlit("audit/");
    lemma_no_separator(agent_id, '?');
    lemma_no_query("audit/"@, percent_encoded(agent_id));
}

/// The reference of a regulatory export has the path `export/regulatory`, and the query
/// pairs `from` with the beginning of the window, `to` with its end, and
/// `include_exports` with `true` exactly where the exports are wanted.
pub proof fn law_regulatory_path_reads_back(
    from: Seq<char>,
    to: Seq<char>,
    include_exports: bool,
)
    ensures
        read_path(regulatory_path(from, to, include_exports)) == seq![
            "export"@,
            "regulatory"@,
        ],
        include_exports ==> read_query(regulatory_path(from, to, include_exports)) == seq![
            ("from"@, from),
            ("to"@, to),
            ("include_exports"@, "true"@),
        ],
        !include_exports ==> read_query(regulatory_path(from, to, include_exports)) == seq![
            ("from"@, from),
            ("to"@, to),
        ],
{
    let path = percent_encoded("export"@) + seq!['/'] + percent_encoded("regulatory"@);
    let flag = raw_pair("include_exports"@, "true"@);
    let until = raw_pair("to"@, to);
    let rest = if include_exports {
        until + seq!['&'] + flag
    } else {
        until
    };
    let pairs = raw_pair("from"@, from) + seq!['&'] + rest;
    let reference = regulatory_path(from, to, include_exports);
    lemma_regulatory_parts(from, to, include_exports);
    lemma_last_value("regulatory"@);
    lemma_first_value("export"@, percent_encoded("regulatory"@));
    lemma_last_raw_pair("include_exports"@, "true"@);
    lemma_last_raw_pair("to"@, to);
    lemma_front_raw_pair("to"@, to, flag);
    lemma_front_raw_pair("from"@, from, rest);
    lemma_no_separator("export"@, '?');
    lemma_no_separator("regulatory"@, '?');
    lemma_no_query(percent_encoded("export"@), seq!['/']);
    lemma_no_query(percent_encoded("export"@) + seq!['/'], percent_encoded("regulatory"@));
    lemma_path_and_query(path, pairs);
    assert(read_path(reference) =~= seq!["export"@, "regulatory"@]);
    if include_exports {
        assert(read_query(reference) =~= seq![
            ("from"@, from),
            ("to"@, to),
            ("include_exports"@, "true"@),
        ]);
    } else {
        assert(read_query(reference) =~= seq![("from"@, from), ("to"@, to)]);
    }
}

proof fn lemma_regulatory_parts(from: Seq<char>, to: Seq<char>, include_exports: bool)
    ensures
        regulatory_path(from, to, include_exports) == percent_encoded("export"@) + seq!['/']
            + percent_encoded("regulatory"@) + (seq!['?'] + (raw_pair("from"@, from) + seq!['&']
            + if include_exports {
            raw_pair("to"@, to) + seq!['&'] + raw_pair("include_exports"@, "true"@)
        } else {
            raw_pair("to"@, to)
        })),
{
    lemma_words_are_kept();
    reveal_strlit("export/regulatory?from=");
    reveal_strlit("export");
    reveal_strlit("regulatory");
    reveal_strlit("from");
    reveal_strlit("&to=");
    reveal_strlit("to");
    reveal_strlit("&include_exports=true");
    reveal_strlit("include_exports");
    reveal_strlit("true");
    assert("export/regulatory?from="@ == "export"@ + seq!['/'] + "regulatory"@ + seq!['?']
        + "from"@ + seq!['=']);
    assert("&to="@ == seq!['&'] + "to"@ + seq!['=']);
    assert("&include_exports=true"@ == seq!['&'] + "include_exports"@ + seq!['='] + "true"@);
    let last = if include_exports {
        raw_pair("to"@, to) + seq!['&'] + raw_pair("include_exports"@, "true"@)
    } else {
        raw_pair("to"@, to)
    };
    assert("&to="@ + percent_encoded(to) + export_flag(include_exports) =~= seq!['&'] + last);
    assert(regulatory_path(from, to, include_exports) =~= "export/regulatory?from="@
        + percent_encoded(from) + ("&to="@ + percent_encoded(to) + export_flag(include_exports)));
    assert(regulatory_path(from, to, include_exports) =~= percent_encoded("export"@) + seq!['/']
        + percent_encoded("regulatory"@) + (seq!['?'] + (raw_pair("from"@, from) + seq!['&']
        + last)));
}

proof fn lemma_no_query(a: Seq<char>, b: Seq<char>)
    requires
        !a.contains('?'),
        !b.contains('?'),
    ensures
        !(a + b).contains('?'),
{
    assert forall|i: int| 0 <= i < (a + b).len() implies (a + b)[i] != '?' by {
        if i < a.len() {
            assert(a.contains(a[i]));
        } else {
            assert(b.contains(b[i - a.len()]));
        }
    }
}

proof fn lemma_words_are_kept()
    ensures
        percent_encoded("audit"@) == "audit"@,
        percent_encoded("correlation"@) == "correlation"@,
        percent_encoded("agent"@) == "agent"@,
        percent_encoded("count"@) == "count"@,
        percent_encoded("lifecycle"@) == "lifecycle"@,
        percent_encoded("limit"@) == "limit"@,
        percent_encoded("offset"@) == "offset"@,
        percent_encoded("export"@) == "export"@,
        percent_encoded("regulatory"@) == "regulatory"@,
        percent_encoded("from"@) == "from"@,
        percent_encoded("to"@) == "to"@,
        percent_encoded("include_exports"@) == "include_exports"@,
        percent_encoded("true"@) == "true"@,
{
    reveal_strlit("audit");
    reveal_strlit("correlation");
    reveal_strlit("agent");
    reveal_strlit("count");
    reveal_strlit("lifecycle");
    reveal_strlit("limit");
    reveal_strlit("offset");
    reveal_strlit("export");
    reveal_strlit("regulatory");
    reveal_strlit("from");
    reveal_strlit("to");
    reveal_strlit("include_exports");
    reveal_strlit("true");
    lemma_word_is_kept("audit"@);
    lemma_word_is_kept("correlation"@);
    lemma_word_is_kept("agent"@);
    lemma_word_is_kept("count"@);
    lemma_word_is_kept("lifecycle"@);
    lemma_word_is_kept("limit"@);
    lemma_word_is_kept("offset"@);
    lemma_word_is_kept("export"@);
    lemma_word_is_kept("regulatory"@);
    lemma_word_is_kept("from"@);
    lemma_word_is_kept("to"@);
    lemma_word_is_kept("include_exports"@);
    lemma_word_is_kept("true"@);
}

/// A ledger reply is a value exactly where its status is a success and its body could be
/// decoded, and then it is the decoded value. A body that could not be decoded is the
/// decoder's error. Every other status is an error of the service, with the status and the
/// body as they came.
pub proof fn law_success_reply<T>(
    status: u16,
    body: String,
    decoded: Result<T, serde_json::Error>,
)
    ensures
        match success_reply(status, body, decoded) {
            Ok(value) => 200 <= status <= 299 && decoded == Ok::<T, serde_json::Error>(value),
            Err(WardenError::Decode(e)) => 200 <= status <= 299 && decoded == Err::<
                T,
                serde_json::Error,
            >(e),
            Err(WardenError::Server { status: s, body: b }) => (status < 200 || status > 299) && s
                == status && b == body,
            Err(_) => false,
        },
{
}

// ---------------------------------------------------------------------------
// Client
// ---------------------------------------------------------------------------
/// What a reply comes to where every status from 200 to 299 is a success and every other
/// one is an error of the service.
pub open spec fn success_reply<T>(
    status: u16,
    body: String,
    decoded: Result<T, serde_json::Error>,
) -> Result<T, WardenError> {
    if 200 <= status <= 299 {
        decoded_value(decoded)
    } else {
        Err(WardenError::Server { status, body })
    }
}

/// Client for the ledger's HTTP surface.
#[derive(Debug)]
pub struct LedgerClient {
    base_url: Url,
}

impl Clone for LedgerClient {
    fn clone(&self) -> (r: LedgerClient)
        ensures
            r == *self,
    {
        LedgerClient { base_url: self.base_url.clone() }
    }
}

impl LedgerClient {
    /// The configured base URL.
    pub closed spec fn base(&self) -> Url {
        self.base_url
    }

    /// Build a client against `base_url` (e.g. `http://localhost:8083`). A text that is
    /// no URL is a configuration error.
    pub fn new(base_url: &str) -> (r: Result<LedgerClient, WardenError>)
        ensures
            match r {
                Ok(client) => base_url_of(base_url@) == Ok::<Seq<char>, Seq<char>>(
                    url_text(client.base()),
                ),
                Err(e) => e matches WardenError::InvalidConfig(message) && base_url_of(base_url@)
                    == Err::<Seq<char>, Seq<char>>(message@),
            },
    {
        match parse_base_url(base_url) {
            Ok(url) => Ok(LedgerClient { base_url: url }),
            Err(e) => Err(e),
        }
    }

    /// Read-only access to the configured base URL.
    pub fn base_url(&self) -> (r: &Url)
        ensures
            *r == self.base(),
    {
        &self.base_url
    }

    /// `GET /audit/correlation/{id}`: every chain entry sharing this correlation id,
    /// oldest first.
    pub fn audit_correlation(&self, correlation_id: &str) -> (r: Result<Request<()>, WardenError>)
        ensures
            goes_to(r, endpoint(self.base(), correlation_path(correlation_id@))),
            r matches Ok(request) ==> request.method == Method::Get && request.bearer is None,
            !is_dot_segment(correlation_id@) ==> lands_on(
                self.base(),
                endpoint(self.base(), correlation_path(correlation_id@)),
                correlation_path(correlation_id@),
            ),
    {
        let mut path = "audit/correlation/".to_owned();
        path.append(percent_encode(correlation_id).as_str());
        proof {
            if !is_dot_segment(correlation_id@) {
                lemma_correlation_path(correlation_id@);
                lemma_plain_path(path@);
            }
        }
        request(Method::Get, &self.base_url, path.as_str(), &None, ())
    }

    /// `GET /audit/{agent_id}`: every chain entry naming `agent_id`, oldest first.
    pub fn audit_agent(&self, agent_id: &str) -> (r: Result<Request<()>, WardenError>)
        ensures
            goes_to(r, endpoint(self.base(), audit_path(agent_id@))),
            r matches Ok(request) ==> request.method == Method::Get && request.bearer is None,
            !is_dot_segment(agent_id@) ==> lands_on(
                self.base(),
                endpoint(self.base(), audit_path(agent_id@)),
                audit_path(agent_id@),
            ),
    {
        let mut path = "audit/".to_owned();
        path.append(percent_encode(agent_id).as_str());
        proof {
            if !is_dot_segment(agent_id@) {
                lemma_audit_path(agent_id@);
                lemma_plain_path(path@);
            }
        }
        request(Method::Get, &self.base_url, path.as_str(), &None, ())
    }

    /// `GET /audit/{agent_id}?limit=N&offset=M`: `N` chain entries naming `agent_id`,
    /// newest first, behind the first `M`.
    pub fn audit_agent_paged(&self, agent_id: &str, limit: usize, offset: usize) -> (r: Result<
        Request<()>,
        WardenError,
    >)
        ensures
            goes_to(
                r,
                endpoint(
                    self.base(),
                    audit_page_path(agent_id@, limit as nat, offset as nat),
                ),
            ),
            r matches Ok(request) ==> request.method == Method::Get && request.bearer is None,
            !is_dot_segment(agent_id@) ==> lands_on(
                self.base(),
                endpoint(
                    self.base(),
                    audit_page_path(agent_id@, limit as nat, offset as nat),
                ),
                audit_page_path(agent_id@, limit as nat, offset as nat),
            ),
    {
        let mut path = "audit/".to_owned();
        path.append(percent_encode(agent_id).as_str());
        path.append("?limit=");
        path.append(decimal_text(limit as u64).as_str());
        path.append("&offset=");
        path.append(decimal_text(offset as u64).as_str());
        proof {
            if !is_dot_segment(agent_id@) {
                lemma_audit_page_path(agent_id@, limit as nat, offset as nat);
            }
        }
        request(Method::Get, &self.base_url, path.as_str(), &None, ())
    }

    /// `GET /audit/{agent_id}/count`: how many chain entries name `agent_id`.
    pub fn audit_agent_count(&self, agent_id: &str) -> (r: Result<Request<()>, WardenError>)
        ensures
            goes_to(r, endpoint(self.base(), audit_count_path(agent_id@))),
            r matches Ok(request) ==> request.method == Method::Get && request.bearer is None,
            !is_dot_segment(agent_id@) ==> lands_on(
                self.base(),
                endpoint(self.base(), audit_count_path(agent_id@)),
                audit_count_path(agent_id@),
            ),
    {
        let mut path = "audit/".to_owned();
        path.append(percent_encode(agent_id).as_str());
        path.append("/count");
        proof {
            if !is_dot_segment(agent_id@) {
                lemma_audit_count_path(agent_id@);
                lemma_plain_path(path@);
            }
        }
        request(Method::Get, &self.base_url, path.as_str(), &None, ())
    }

    /// The count in a reply to [`LedgerClient::audit_agent_count`]; a negative one is 0.
    pub fn audit_agent_count_reply(
        status: u16,
        body: String,
        decoded: Result<AuditCount, serde_json::Error>,
    ) -> (r: Result<usize, WardenError>)
        ensures
            match success_reply(status, body, decoded) {
                Ok(found) => r matches Ok(n) && n == (if found.count < 0 {
                    0
                } else {
                    found.count as int
                }) as usize,
                Err(e) => r == Err::<usize, WardenError>(e),
            },
    {
        match LedgerClient::read_reply(status, body, decoded) {
            Ok(found) => {
                let count: i64 = if found.count < 0 {
                    0
                } else {
                    found.count
                };
                Ok(count as usize)
            },
            Err(e) => Err(e),
        }
    }

    /// `GET /verify`: re-hash every entry and check the chain.
    pub fn verify(&self) -> (r: Result<Request<()>, WardenError>)
        ensures
            goes_to(r, endpoint(self.base(), "verify"@)),
            r matches Ok(request) ==> request.method == Method::Get && request.bearer is None,
            lands_on(self.base(), endpoint(self.base(), "verify"@), "verify"@),
    {
        proof {
            reveal_strlit("verify");
            lemma_word("verify"@);
            lemma_first_segment("verify"@);
            lemma_plain_path("verify"@);
        }
        request(Method::Get, &self.base_url, "verify", &None, ())
    }

    /// `GET /agents`: every agent that has ever logged a row.
    pub fn list_agents(&self) -> (r: Result<Request<()>, WardenError>)
        ensures
            goes_to(r, endpoint(self.base(), "agents"@)),
            r matches Ok(request) ==> request.method == Method::Get && request.bearer is None,
            lands_on(self.base(), endpoint(self.base(), "agents"@), "agents"@),
    {
        proof {
            reveal_strlit("agents");
            lemma_word("agents"@);
            lemma_first_segment("agents"@);
            lemma_plain_path("agents"@);
        }
        request(Method::Get, &self.base_url, "agents", &None, ())
    }

    /// The names in a reply to [`LedgerClient::list_agents`].
    pub fn list_agents_reply(
        status: u16,
        body: String,
        decoded: Result<AgentNames, serde_json::Error>,
    ) -> (r: Result<Vec<String>, WardenError>)
        ensures
            match success_reply(status, body, decoded) {
                Ok(found) => r == Ok::<Vec<String>, WardenError>(found.agents),
                Err(e) => r == Err::<Vec<String>, WardenError>(e),
            },
    {
        match LedgerClient::read_reply(status, body, decoded) {
            Ok(found) => Ok(found.agents),
            Err(e) => Err(e),
        }
    }

    /// `GET /audit/agent/{tenant}/{agent_id}/lifecycle`: the lifecycle rows of a
    /// registered agent, oldest first.
    pub fn lifecycle_for_agent(&self, tenant: &str, agent_id: &str) -> (r: Result<
        Request<()>,
        WardenError,
    >)
        ensures
            goes_to(r, endpoint(self.base(), lifecycle_path(tenant@, agent_id@))),
            r matches Ok(request) ==> request.method == Method::Get && request.bearer is None,
            !is_dot_segment(tenant@) && !is_dot_segment(agent_id@) ==> lands_on(
                self.base(),
                endpoint(self.base(), lifecycle_path(tenant@, agent_id@)),
                lifecycle_path(tenant@, agent_id@),
            ),
    {
        let mut path = "audit/agent/".to_owned();
        path.append(percent_encode(tenant).as_str());
        path.append("/");
        path.append(percent_encode(agent_id).as_str());
        path.append("/lifecycle");
        proof {
            if !is_dot_segment(tenant@) && !is_dot_segment(agent_id@) {
                lemma_lifecycle_path(tenant@, agent_id@);
                lemma_plain_path(path@);
            }
        }
        request(Method::Get, &self.base_url, path.as_str(), &None, ())
    }

    /// `GET /exports`: the cold-tier snapshots, newest first.
    pub fn list_exports(&self) -> (r: Result<Request<()>, WardenError>)
        ensures
            goes_to(r, endpoint(self.base(), "exports"@)),
            r matches Ok(request) ==> request.method == Method::Get && request.bearer is None,
            lands_on(self.base(), endpoint(self.base(), "exports"@), "exports"@),
    {
        proof {
            reveal_strlit("exports");
            lemma_word("exports"@);
            lemma_first_segment("exports"@);
            lemma_plain_path("exports"@);
        }
        request(Method::Get, &self.base_url, "exports", &None, ())
    }

    /// `POST /export/regulatory?from=…&to=…[&include_exports=true]`: the regulatory
    /// bundle for the window from `from`, to and without `to`. A readme goes along as
    /// a `text/markdown` body; without one the body is empty.
    pub fn regulatory_export(
        &self,
        from: &Timestamp,
        to: &Timestamp,
        opts: RegulatoryExportOptions,
    ) -> (r: Result<Request<Option<Upload>>, WardenError>)
        ensures
            goes_to(r, endpoint(self.base(), regulatory_path(from@, to@, opts.include_exports))),
            lands_on(
                self.base(),
                endpoint(self.base(), regulatory_path(from@, to@, opts.include_exports)),
                regulatory_path(from@, to@, opts.include_exports),
            ),
            r matches Ok(request) ==> {
                &&& request.method == Method::Post
                &&& request.bearer is None
                &&& match opts.readme {
                    Some(readme) => request.body matches Some(upload) && upload.bytes == readme
                        && upload.content_type@ == "text/markdown"@,
                    None => request.body is None,
                }
            },
    {
        let mut path = "export/regulatory?from=".to_owned();
        path.append(percent_encode(from.as_str()).as_str());
        path.append("&to=");
        path.append(percent_encode(to.as_str()).as_str());
        if opts.include_exports {
            path.append("&include_exports=true");
        }
        proof {
            lemma_regulatory_path(from@, to@, opts.include_exports);
            assert(path@ =~= regulatory_path(from@, to@, opts.include_exports));
        }
        let body = match opts.readme {
            Some(bytes) => Some(Upload { content_type: "text/markdown", bytes }),
            None => None,
        };
        request(Method::Post, &self.base_url, path.as_str(), &None, body)
    }

    /// Whether a reply to [`LedgerClient::regulatory_export`] carries the bundle: any
    /// success status.
    pub fn regulatory_export_accepted(status: u16) -> (r: bool)
        ensures
            r == (200 <= status <= 299),
    {
        200 <= status && status <= 299
    }

    /// The error of a reply to [`LedgerClient::regulatory_export`] that carries no
    /// bundle, with the body where it could be read.
    pub fn regulatory_export_refused(status: u16, body: Option<String>) -> (e: WardenError)
        ensures
            e matches WardenError::Server { status: s, body: b } && s == status && match body {
                Some(text) => b == text,
                None => b@ == Seq::<char>::empty(),
            },
    {
        match body {
            Some(body) => WardenError::Server { status, body },
            None => WardenError::Server { status, body: String::new() },
        }
    }

    /// What a reply to [`LedgerClient::regulatory_export`] comes to: the bundle as it
    /// came, where the reply carries one, and the error otherwise. `bundle` is the body of
    /// a reply that carries a bundle, `text` that of a reply that carries none, where it
    /// could be read.
    pub fn regulatory_export_reply(
        status: u16,
        bundle: Vec<u8>,
        text: Option<String>,
    ) -> (r: Result<Vec<u8>, WardenError>)
        ensures
            200 <= status <= 299 ==> r == Ok::<Vec<u8>, WardenError>(bundle),
            !(200 <= status <= 299) ==> (r matches Err(
                WardenError::Server { status: s, body: b },
            ) && s == status && match text {
                Some(t) => b == t,
                None => b@ == Seq::<char>::empty(),
            }),
    {
        if LedgerClient::regulatory_export_accepted(status) {
            Ok(bundle)
        } else {
            Err(LedgerClient::regulatory_export_refused(status, text))
        }
    }

    /// What a reply comes to: the decoded body of a success, which is any status from 200
    /// to 299, and the status and body of every other reply.
    pub fn read_reply<T>(
        status: u16,
        body: String,
        decoded: Result<T, serde_json::Error>,
    ) -> (r: Result<T, WardenError>)
        ensures
            r == success_reply(status, body, decoded),
    {
        if 200 <= status && status <= 299 {
            read_decoded(decoded)
        } else {
            Err(WardenError::Server { status, body })
        }
    }
}

} // verus!
