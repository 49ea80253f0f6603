//! The policy engine's `/policies` endpoints.
//!
//! The bearer token is optional: it is sent where one was attached with
//! [`PoliciesClient::with_bearer`].
use crate::error::WardenError;
use crate::http::{
    add_pair, and_pair, base_url_of, copy_token, decoded_value, endpoint, first_pair, goes_to,
    lemma_first_pair, lemma_next_pair,
    join_for_query, lands_on, lands_on_query, lemma_lands_on_first_pair,
    lemma_lands_on_next_pair, next_pair, parse_base_url, query_endpoint, read_decoded,
    read_status_error, request, status_error, Method, Request,
};
use crate::outside::{directory, is_dot_segment, is_plain_path, url_text};
use crate::read::{
    law_number_round_trip, lemma_bare_path, lemma_first_value, lemma_front_pair,
    lemma_last_pair, lemma_last_value, lemma_path_and_query, lemma_word_is_kept, number_value,
    read_path, read_query,
};
use crate::route::{
    is_path_char, is_plain_segment, law_encoded_value_is_plain, lemma_first_segment,
    lemma_next_segment, lemma_no_fragment, lemma_plain_path, lemma_word, slash,
};
use crate::text::{
    decimal, form_pair, law_form_pair_injective, law_segment_alphabet, law_segment_injective,
    law_signed_decimal_injective, lemma_decimal_alphabet, lemma_no_separator,
    lemma_pair_alphabet, lemma_same_rest, lemma_split, percent_encode, percent_encoded,
    signed_decimal, signed_decimal_text,
};
use reqwest::Url;
use vstd::prelude::*;

verus! {

// ---------------------------------------------------------------------------
// Types
// ---------------------------------------------------------------------------
/// The current state of a managed policy file.
#[derive(Debug, Clone)]
pub struct PolicyRow {
    pub name: String,
    pub content_type: String,
    pub active: bool,
    pub current_version: i64,
    pub deleted_at: Option<String>,
    pub created_at: String,
    pub updated_at: String,
}

/// One version of a policy's body. Versions are only ever added.
#[derive(Debug, Clone)]
pub struct PolicyVersionRow {
    pub name: String,
    pub version: i64,
    pub body: String,
    pub body_sha256: String,
    pub reason: String,
    pub actor_sub: String,
    pub actor_idp: String,
    pub chain_seq: Option<i64>,
    pub created_at: String,
}

/// A policy with the body of its current version.
#[derive(Debug, Clone)]
pub struct PolicyDetail {
    pub policy: PolicyRow,
    pub current_body: String,
    pub current_body_sha256: String,
}

/// The body of a successful change, which comes with a 200 or a 201.
#[derive(Debug, Clone)]
pub struct MutationResponse {
    pub name: String,
    pub version: i64,
    pub body_sha256: String,
    pub current_version: i64,
    pub active: bool,
    pub event_kind: String,
}

/// The body of a 409: what the policy has become in the meantime.
#[derive(Debug, Clone)]
pub struct ConflictResponse {
    pub error: String,
    pub policy: PolicyRow,
}

/// The body of [`PoliciesClient::create`].
#[derive(Debug, Clone)]
pub struct CreatePolicyRequest<'a> {
    pub name: &'a str,
    pub content_type: &'a str,
    pub body: &'a str,
    pub reason: &'a str,
    pub actor_sub: &'a str,
    pub actor_idp: &'a str,
}

/// The body of [`PoliciesClient::update`].
#[derive(Debug, Clone)]
pub struct UpdatePolicyRequest<'a> {
    pub body: &'a str,
    pub reason: &'a str,
    pub actor_sub: &'a str,
    pub actor_idp: &'a str,
    pub expected_current_version: i64,
}

/// The body of [`PoliciesClient::activate`], [`PoliciesClient::deactivate`] and
/// [`PoliciesClient::delete`].
#[derive(Debug, Clone)]
pub struct StateChangeRequest<'a> {
    pub reason: &'a str,
    pub actor_sub: &'a str,
    pub actor_idp: &'a str,
    pub expected_current_version: i64,
}

/// The body of [`PoliciesClient::rollback`].
#[derive(Debug, Clone)]
pub struct RollbackRequest<'a> {
    pub reason: &'a str,
    pub actor_sub: &'a str,
    pub actor_idp: &'a str,
}

/// The reply body of [`PoliciesClient::list`].
#[derive(Debug, Clone)]
pub struct PoliciesListResponse {
    pub policies: Vec<PolicyRow>,
}

/// The reply body of [`PoliciesClient::list_versions`].
#[derive(Debug, Clone)]
pub struct VersionsListResponse {
    pub versions: Vec<PolicyVersionRow>,
}

/// The reply body of [`PoliciesClient::diff`].
#[derive(Debug, Clone)]
pub struct DiffResponse {
    pub name: String,
    pub from: i64,
    pub to: i64,
    pub diff: String,
}

// ---------------------------------------------------------------------------
// Where the requests go
// ---------------------------------------------------------------------------
/// The path of a policy.
pub open spec fn policy_path(name: Seq<char>) -> Seq<char> {
    "policies/"@ + percent_encoded(name)
}

/// The path of something that a policy has, or that can be done to it.
pub open spec fn policy_item_path(name: Seq<char>, item: Seq<char>) -> Seq<char> {
    policy_path(name) + "/"@ + item
}

/// The path of something that one version of a policy has, or that can be done to it.
pub open spec fn policy_version_path(name: Seq<char>, item: Seq<char>, version: int) -> Seq<char> {
    policy_item_path(name, item) + "/"@ + signed_decimal(version)
}

/// Where [`PoliciesClient::list`] goes.
pub open spec fn policies_target(base: Url, include_deleted: bool) -> Result<
    Seq<char>,
    Seq<char>,
> {
    if include_deleted {
        and_pair(query_endpoint(base, "policies"@), "include_deleted"@, "true"@)
    } else {
        endpoint(base, "policies"@)
    }
}

/// The query of [`PoliciesClient::list`].
pub open spec fn policies_query(include_deleted: bool) -> Seq<char> {
    if include_deleted {
        first_pair("include_deleted"@, "true"@)
    } else {
        seq![]
    }
}

/// Where [`PoliciesClient::diff`] goes.
pub open spec fn diff_target(base: Url, name: Seq<char>, from: int, to: int) -> Result<
    Seq<char>,
    Seq<char>,
> {
    and_pair(
        and_pair(
            query_endpoint(base, policy_item_path(name, "diff"@)),
            "from"@,
            signed_decimal(from),
        ),
        "to"@,
        signed_decimal(to),
    )
}

/// The query of [`PoliciesClient::diff`].
pub open spec fn diff_query(from: int, to: int) -> Seq<char> {
    next_pair(first_pair("from"@, signed_decimal(from)), "to"@, signed_decimal(to))
}

proof fn lemma_policies_path()
    ensures
        is_plain_path("policies"@),
{
    reveal_strlit("policies");
    lemma_word("policies"@);
    lemma_first_segment("policies"@);
}

proof fn lemma_policy_path(name: Seq<char>)
    ensures
        forall|i: int|
            0 <= i < policy_path(name).len() ==> is_path_char(#[trigger] policy_path(name)[i]),
        !is_dot_segment(name) ==> is_plain_path(policy_path(name)),
{
    reveal_strlit("policies/");
    reveal_strlit("policies");
    law_segment_alphabet(name);
    assert forall|i: int| 0 <= i < policy_path(name).len() implies is_path_char(
        #[trigger] policy_path(name)[i],
    ) by {
        if i >= 9 {
            assert(policy_path(name)[i] == percent_encoded(name)[i - 9]);
        }
    }
    if !is_dot_segment(name) {
        lemma_policies_path();
        law_encoded_value_is_plain(name);
        lemma_next_segment("policies"@, percent_encoded(name));
        assert(policy_path(name) == slash("policies"@, percent_encoded(name)));
    }
}

proof fn lemma_policy_item_path(name: Seq<char>, item: Seq<char>)
    requires
        is_plain_segment(item),
    ensures
        !policy_item_path(name, item).contains('#'),
        !policy_item_path(name, item).contains('?'),
        !is_dot_segment(name) ==> is_plain_path(policy_item_path(name, item)),
{
    let path = policy_path(name);
    let whole = policy_item_path(name, item);
    reveal_strlit("/");
    lemma_policy_path(name);
    assert(whole == slash(path, item));
    assert forall|i: int| 0 <= i < whole.len() implies is_path_char(#[trigger] whole[i]) by {
        if i < path.len() {
            assert(whole[i] == path[i]);
        } else if i > path.len() {
            assert(whole[i] == item[i - path.len() - 1]);
        }
    }
    lemma_no_fragment(whole);
    if !is_dot_segment(name) {
        lemma_next_segment(path, item);
    }
}

proof fn lemma_policy_version_path(name: Seq<char>, item: Seq<char>, version: int)
    requires
        is_plain_segment(item),
        !is_dot_segment(name),
    ensures
        is_plain_path(policy_version_path(name, item, version)),
{
    let number = signed_decimal(version);
    reveal_strlit("/");
    lemma_policy_item_path(name, item);
    lemma_decimal_alphabet(if version < 0 {
        (-version) as nat
    } else {
        version as nat
    });
    if version < 0 {
        assert forall|i: int| 0 < i < number.len() implies number[i] == decimal(
            (-version) as nat,
        )[i - 1] by {}
    }
    lemma_word(number);
    lemma_next_segment(policy_item_path(name, item), number);
    assert(policy_version_path(name, item, version) == slash(policy_item_path(name, item), number));
}

proof fn lemma_items()
    ensures
        is_plain_segment("versions"@),
        is_plain_segment("diff"@),
        is_plain_segment("activate"@),
        is_plain_segment("deactivate"@),
        is_plain_segment("rollback"@),
{
    reveal_strlit("versions");
    reveal_strlit("diff");
    reveal_strlit("activate");
    reveal_strlit("deactivate");
    reveal_strlit("rollback");
    lemma_word("versions"@);
    lemma_word("diff"@);
    lemma_word("activate"@);
    lemma_word("deactivate"@);
    lemma_word("rollback"@);
}

/// Two policies share no path.
pub proof fn law_policy_paths_are_distinct(a: Seq<char>, b: Seq<char>)
    requires
        a != b,
    ensures
        policy_path(a) != policy_path(b),
{
    if policy_path(a) == policy_path(b) {
        lemma_same_rest("policies/"@, percent_encoded(a), percent_encoded(b));
        law_segment_injective(a, b);
    }
}

/// Two items of the same or of different policies share no path, and no item of a
/// policy shares one with a policy.
pub proof fn law_policy_item_paths_are_distinct(
    a: Seq<char>,
    a_item: Seq<char>,
    b: Seq<char>,
    b_item: Seq<char>,
)
    ensures
        policy_item_path(a, a_item) == policy_item_path(b, b_item) ==> a == b && a_item == b_item,
        policy_item_path(a, a_item) != policy_path(b),
{
    reveal_strlit("/");
    let start = "policies/"@;
    let a_rest = percent_encoded(a) + seq!['/'] + a_item;
    let b_rest = percent_encoded(b) + seq!['/'] + b_item;
    assert(policy_item_path(a, a_item) == start + a_rest);
    assert(policy_item_path(b, b_item) == start + b_rest);
    lemma_no_separator(a, '/');
    lemma_no_separator(b, '/');
    if policy_item_path(a, a_item) == policy_item_path(b, b_item) {
        lemma_same_rest(start, a_rest, b_rest);
        lemma_split(percent_encoded(a), a_item, percent_encoded(b), b_item, '/');
        law_segment_injective(a, b);
    }
    if policy_item_path(a, a_item) == policy_path(b) {
        lemma_same_rest(start, a_rest, percent_encoded(b));
        assert(a_rest[percent_encoded(a).len() as int] == '/');
        assert(percent_encoded(b).contains('/'));
    }
}

/// Two versions of the same or of different policies share no path, neither to be read
/// nor to be rolled back to.
pub proof fn law_policy_version_paths_are_distinct(
    a: Seq<char>,
    a_version: int,
    b: Seq<char>,
    b_version: int,
    item: Seq<char>,
)
    requires
        policy_version_path(a, item, a_version) == policy_version_path(b, item, b_version),
    ensures
        a == b,
        a_version == b_version,
{
    let a_item = item + "/"@ + signed_decimal(a_version);
    let b_item = item + "/"@ + signed_decimal(b_version);
    assert(policy_version_path(a, item, a_version) == policy_item_path(a, a_item));
    assert(policy_version_path(b, item, b_version) == policy_item_path(b, b_item));
    law_policy_item_paths_are_distinct(a, a_item, b, b_item);
    lemma_same_rest(item + "/"@, signed_decimal(a_version), signed_decimal(b_version));
    law_signed_decimal_injective(a_version, b_version);
}

/// The lists with and without deleted policies have different queries.
pub proof fn law_policies_queries_are_distinct(a: bool, b: bool)
    requires
        policies_query(a) == policies_query(b),
    ensures
        a == b,
{
    assert(first_pair("include_deleted"@, "true"@)[0] == '?');
}

/// Two diffs have the same query only when they compare the same versions.
pub proof fn law_diff_queries_are_distinct(a_from: int, a_to: int, b_from: int, b_to: int)
    requires
        diff_query(a_from, a_to) == diff_query(b_from, b_to),
    ensures
        a_from == b_from,
        a_to == b_to,
{
    let a_first = form_pair("from"@, signed_decimal(a_from));
    let b_first = form_pair("from"@, signed_decimal(b_from));
    let a_second = form_pair("to"@, signed_decimal(a_to));
    let b_second = form_pair("to"@, signed_decimal(b_to));
    let a_rest = a_first + seq!['&'] + a_second;
    let b_rest = b_first + seq!['&'] + b_second;
    assert(diff_query(a_from, a_to) == seq!['?'] + a_rest);
    assert(diff_query(b_from, b_to) == seq!['?'] + b_rest);
    lemma_same_rest(seq!['?'], a_rest, b_rest);
    lemma_pair_alphabet("from"@, signed_decimal(a_from));
    lemma_pair_alphabet("from"@, signed_decimal(b_from));
    lemma_split(a_first, a_second, b_first, b_second, '&');
    law_form_pair_injective("from"@, signed_decimal(a_from), "from"@, signed_decimal(b_from));
    law_form_pair_injective("to"@, signed_decimal(a_to), "to"@, signed_decimal(b_to));
    law_signed_decimal_injective(a_from, b_from);
    law_signed_decimal_injective(a_to, b_to);
}

/// Two diffs have the same path and query only when they compare the same versions of
/// the same policy.
pub proof fn law_diffs_are_distinct(
    a: Seq<char>,
    a_from: int,
    a_to: int,
    b: Seq<char>,
    b_from: int,
    b_to: int,
)
    requires
        policy_item_path(a, "diff"@) + diff_query(a_from, a_to) == policy_item_path(b, "diff"@)
            + diff_query(b_from, b_to),
    ensures
        a == b,
        a_from == b_from,
        a_to == b_to,
{
    let a_path = policy_item_path(a, "diff"@);
    let b_path = policy_item_path(b, "diff"@);
    let a_query = diff_query(a_from, a_to);
    let b_query = diff_query(b_from, b_to);
    lemma_items();
    lemma_policy_item_path(a, "diff"@);
    lemma_policy_item_path(b, "diff"@);
    assert(a_query == seq!['?'] + a_query.skip(1));
    assert(b_query == seq!['?'] + b_query.skip(1));
    assert(a_path + a_query == a_path + seq!['?'] + a_query.skip(1));
    assert(b_path + b_query == b_path + seq!['?'] + b_query.skip(1));
    lemma_split(a_path, a_query.skip(1), b_path, b_query.skip(1), '?');
    law_policy_item_paths_are_distinct(a, "diff"@, b, "diff"@);
    law_diff_queries_are_distinct(a_from, a_to, b_from, b_to);
}

fn build_policy_path(name: &str) -> (path: String)
    ensures
        path@ == policy_path(name@),
{
    let mut path = "policies/".to_owned();
    path.append(percent_encode(name).as_str());
    path
}

fn build_item_path(name: &str, item: &str) -> (path: String)
    ensures
        path@ == policy_item_path(name@, item@),
{
    let mut path = build_policy_path(name);
    path.append("/");
    path.append(item);
    path
}

fn build_version_path(name: &str, item: &str, version: i64) -> (path: String)
    ensures
        path@ == policy_version_path(name@, item@, version as int),
{
    let mut path = build_item_path(name, item);
    path.append("/");
    path.append(signed_decimal_text(version).as_str());
    path
}

proof fn lemma_policy_words()
    ensures
        percent_encoded("policies"@) == "policies"@,
        !"policies"@.contains('?'),
{
    reveal_strlit("policies");
    lemma_word_is_kept("policies"@);
}

/// The path of a policy has two segments: `policies`, and one that stands for the name.
pub proof fn law_policy_path_reads_back(name: Seq<char>)
    ensures
        read_path(policy_path(name)) == seq!["policies"@, name],
        read_query(policy_path(name)) == Seq::<(Seq<char>, Seq<char>)>::empty(),
{
    lemma_policy_words();
    reveal_strlit("policies/");
    reveal_strlit("policies");
    lemma_last_value(name);
    lemma_first_value("policies"@, percent_encoded(name));
    assert(policy_path(name) == percent_encoded("policies"@) + seq!['/'] + percent_encoded(name));
    lemma_policy_path(name);
    lemma_no_fragment(policy_path(name));
    lemma_bare_path(policy_path(name));
    assert(read_path(policy_path(name)) =~= seq!["policies"@, name]);
}

/// The path of an item of a policy has three segments: `policies`, one that stands for the
/// name, and the item.
pub proof fn law_policy_item_path_reads_back(name: Seq<char>, item: Seq<char>)
    requires
        is_plain_segment(item),
        percent_encoded(item) == item,
    ensures
        read_path(policy_item_path(name, item)) == seq!["policies"@, name, item],
        read_query(policy_item_path(name, item)) == Seq::<(Seq<char>, Seq<char>)>::empty(),
{
    let rest = percent_encoded(name) + seq!['/'] + percent_encoded(item);
    lemma_policy_words();
    reveal_strlit("policies/");
    reveal_strlit("policies");
    reveal_strlit("/");
    lemma_last_value(item);
    lemma_first_value(name, percent_encoded(item));
    lemma_first_value("policies"@, rest);
    assert(policy_item_path(name, item) == percent_encoded("policies"@) + seq!['/'] + rest);
    lemma_policy_item_path(name, item);
    lemma_bare_path(policy_item_path(name, item));
    assert(read_path(policy_item_path(name, item)) =~= seq!["policies"@, name, item]);
}

/// The path of a version of a policy has four segments: `policies`, one that stands for the
/// name, the item, and one that reads back as the version.
pub proof fn law_policy_version_path_reads_back(name: Seq<char>, item: Seq<char>, version: int)
    requires
        is_plain_segment(item),
        percent_encoded(item) == item,
    ensures
        ({
            let found = read_path(policy_version_path(name, item, version));
            &&& found.len() == 4
            &&& found[0] == "policies"@ && found[1] == name && found[2] == item
            &&& number_value(found[3]) == version
        }),
        read_query(policy_version_path(name, item, version)) == Seq::<
            (Seq<char>, Seq<char>),
        >::empty(),
{
    let number = signed_decimal(version);
    let of_item = percent_encoded(item) + seq!['/'] + percent_encoded(number);
    let rest = percent_encoded(name) + seq!['/'] + of_item;
    let path = policy_version_path(name, item, version);
    lemma_policy_words();
    law_number_round_trip(version);
    reveal_strlit("policies/");
    reveal_strlit("policies");
    reveal_strlit("/");
    lemma_last_value(number);
    lemma_first_value(item, percent_encoded(number));
    lemma_first_value(name, of_item);
    lemma_first_value("policies"@, rest);
    assert(path == percent_encoded("policies"@) + seq!['/'] + rest);
    lemma_policy_item_path(name, item);
    lemma_no_separator(number, '?');
    let head = policy_item_path(name, item) + "/"@;
    assert forall|i: int| 0 <= i < path.len() implies path[i] != '?' by {
        if i < policy_item_path(name, item).len() {
            assert(policy_item_path(name, item).contains(policy_item_path(name, item)[i]));
        } else if i >= head.len() {
            assert(number.contains(number[i - head.len()]));
        }
    }
    lemma_bare_path(path);
    assert(read_path(path) =~= seq!["policies"@, name, item, number]);
}

/// The words that stand behind a policy's name are kept as they are: they are read back
/// from a path word for word.
pub proof fn law_policy_items_are_words()
    ensures
        is_plain_segment("versions"@) && percent_encoded("versions"@) == "versions"@,
        is_plain_segment("diff"@) && percent_encoded("diff"@) == "diff"@,
        is_plain_segment("activate"@) && percent_encoded("activate"@) == "activate"@,
        is_plain_segment("deactivate"@) && percent_encoded("deactivate"@) == "deactivate"@,
        is_plain_segment("rollback"@) && percent_encoded("rollback"@) == "rollback"@,
{
    lemma_items();
    reveal_strlit("versions");
    reveal_strlit("diff");
    reveal_strlit("activate");
    reveal_strlit("deactivate");
    reveal_strlit("rollback");
    lemma_word_is_kept("versions"@);
    lemma_word_is_kept("diff"@);
    lemma_word_is_kept("activate"@);
    lemma_word_is_kept("deactivate"@);
    lemma_word_is_kept("rollback"@);
}

/// A list has the path `policies`, and the query pair `include_deleted` with `true` exactly
/// where deleted policies are wanted.
pub proof fn law_policies_query_reads_back(include_deleted: bool)
    ensures
        read_path("policies"@ + policies_query(include_deleted)) == seq!["policies"@],
        include_deleted ==> read_query("policies"@ + policies_query(include_deleted)) == seq![
            ("include_deleted"@, "true"@),
        ],
        !include_deleted ==> read_query("policies"@ + policies_query(include_deleted)) == Seq::<
            (Seq<char>, Seq<char>),
        >::empty(),
{
    lemma_policy_words();
    lemma_last_value("policies"@);
    if include_deleted {
        lemma_last_pair("include_deleted"@, "true"@);
        lemma_path_and_query("policies"@, form_pair("include_deleted"@, "true"@));
    } else {
        assert("policies"@ + policies_query(false) == "policies"@);
        lemma_bare_path("policies"@);
    }
}

/// A diff has the path of the policy's item `diff`, and two query pairs: `from` with a value
/// that reads back as the version to start from, and `to` with a value that reads back as
/// the version to end with.
pub proof fn law_diff_query_reads_back(name: Seq<char>, from: int, to: int)
    ensures
        read_path(policy_item_path(name, "diff"@) + diff_query(from, to)) == seq![
            "policies"@,
            name,
            "diff"@,
        ],
        ({
            let pairs = read_query(policy_item_path(name, "diff"@) + diff_query(from, to));
            &&& pairs.len() == 2
            &&& pairs[0].0 == "from"@ && number_value(pairs[0].1) == from
            &&& pairs[1].0 == "to"@ && number_value(pairs[1].1) == to
        }),
{
    let path = policy_item_path(name, "diff"@);
    let last = form_pair("to"@, signed_decimal(to));
    let query = form_pair("from"@, signed_decimal(from)) + seq!['&'] + last;
    law_number_round_trip(from);
    law_number_round_trip(to);
    law_policy_items_are_words();
    lemma_policy_item_path(name, "diff"@);
    law_policy_item_path_reads_back(name, "diff"@);
    lemma_bare_path(path);
    lemma_last_pair("to"@, signed_decimal(to));
    lemma_front_pair("from"@, signed_decimal(from), last);
    assert(diff_query(from, to) == seq!['?'] + query);
    lemma_path_and_query(path, query);
    assert(read_query(path + diff_query(from, to)) =~= seq![
        ("from"@, signed_decimal(from)),
        ("to"@, signed_decimal(to)),
    ]);
}

/// Where the path of a diff leads to a URL without a query, the diff goes to that URL with
/// its query behind it.
pub proof fn law_diff_goes_to_its_query(
    base: Url,
    name: Seq<char>,
    from: int,
    to: int,
    url: Seq<char>,
)
    requires
        query_endpoint(base, policy_item_path(name, "diff"@)) == Ok::<Seq<char>, Seq<char>>(url),
        !url.contains('?'),
    ensures
        diff_target(base, name, from, to) == Ok::<Seq<char>, Seq<char>>(
            url + diff_query(from, to),
        ),
{
    lemma_first_pair(url, "from"@, signed_decimal(from));
    lemma_next_pair(
        url,
        first_pair("from"@, signed_decimal(from)),
        "to"@,
        signed_decimal(to),
    );
}

/// Where the path of a list leads to a URL without a query, the list goes to that URL with
/// its query behind it.
pub proof fn law_policies_go_to_their_query(base: Url, include_deleted: bool, url: Seq<char>)
    requires
        query_endpoint(base, "policies"@) == Ok::<Seq<char>, Seq<char>>(url),
        !url.contains('?'),
    ensures
        policies_target(base, include_deleted) == Ok::<Seq<char>, Seq<char>>(
            url + policies_query(include_deleted),
        ),
{
    lemma_first_pair(url, "include_deleted"@, "true"@);
    assert(url + policies_query(false) == url);
}

/// Where the path makes no URL, a list and a diff have the error of the path. A list
/// without deleted policies goes to the path itself.
pub proof fn law_policies_keep_the_error_of_the_path(
    base: Url,
    name: Seq<char>,
    from: int,
    to: int,
)
    ensures
        query_endpoint(base, "policies"@) is Err ==> policies_target(base, true)
            == query_endpoint(base, "policies"@),
        policies_target(base, false) == endpoint(base, "policies"@),
        query_endpoint(base, policy_item_path(name, "diff"@)) is Err ==> diff_target(
            base,
            name,
            from,
            to,
        ) == query_endpoint(base, policy_item_path(name, "diff"@)),
{
}

/// A policies reply is a value exactly where its status is 200 or 201 and its body could be
/// decoded, and then it is the decoded value. A body that could not be decoded is the
/// decoder's error. 401 and 400 have errors of their own, every other status is an error of
/// the service; all keep the body as it came.
pub proof fn law_policies_reply<T>(
    status: u16,
    body: String,
    decoded: Result<T, serde_json::Error>,
)
    ensures
        match policies_reply(status, body, decoded) {
            Ok(value) => (status == 200 || status == 201) && decoded == Ok::<
                T,
                serde_json::Error,
            >(value),
            Err(WardenError::Decode(e)) => (status == 200 || status == 201) && decoded == Err::<
                T,
                serde_json::Error,
            >(e),
            Err(WardenError::Unauthorized(b)) => status == 401 && b == body,
            Err(WardenError::BadRequest(b)) => status == 400 && b == body,
            Err(WardenError::Server { status: s, body: b }) => status != 200 && status != 201
                && status != 401 && status != 400 && s == status && b == body,
            Err(_) => false,
        },
{
}

/// What a client asks for is sent with that method, that body and the client's token, to
/// where the path leads.
pub proof fn law_what_is_asked_is_sent<B>(
    client: PoliciesClient,
    r: Result<Request<B>, WardenError>,
    method: Method,
    path: Seq<char>,
    body: B,
)
    requires
        client.asks(r, method, path, body),
    ensures
        match r {
            Ok(request) => {
                &&& request.method == method
                &&& request.bearer == client.token()
                &&& request.body == body
                &&& endpoint(client.base(), path) is Ok
                &&& endpoint(client.base(), path)->Ok_0 == url_text(request.url)
            },
            Err(WardenError::InvalidConfig(message)) => endpoint(client.base(), path) is Err
                && endpoint(client.base(), path)->Err_0 == message@,
            Err(_) => false,
        },
{
}

// ---------------------------------------------------------------------------
// Client
// ---------------------------------------------------------------------------
/// What a reply comes to: the decoded body of a 200 or a 201, and the error of every
/// other status.
pub open spec fn policies_reply<T>(
    status: u16,
    body: String,
    decoded: Result<T, serde_json::Error>,
) -> Result<T, WardenError> {
    if status == 200 || status == 201 {
        decoded_value(decoded)
    } else {
        Err(status_error(status, body))
    }
}

/// Client for the policy engine's `/policies` endpoints.
#[derive(Debug)]
pub struct PoliciesClient {
    base_url: Url,
    bearer: Option<String>,
}

impl Clone for PoliciesClient {
    fn clone(&self) -> (r: PoliciesClient)
        ensures
            r == *self,
    {
        PoliciesClient { base_url: self.base_url.clone(), bearer: copy_token(&self.bearer) }
    }
}

impl PoliciesClient {
    /// The configured base URL.
    pub closed spec fn base(&self) -> Url {
        self.base_url
    }

    /// The token that is sent with every request, where there is one.
    pub closed spec fn token(&self) -> Option<String> {
        self.bearer
    }

    /// Whether a result is the request with a method and a body for a path, sent with
    /// the client's token; or the configuration error of a path that makes no URL.
    pub open spec fn asks<B>(
        &self,
        r: Result<Request<B>, WardenError>,
        method: Method,
        path: Seq<char>,
        body: B,
    ) -> bool {
        &&& goes_to(r, endpoint(self.base(), path))
        &&& r matches Ok(request) ==> {
            &&& request.method == method
            &&& request.bearer == self.token()
            &&& request.body == body
        }
    }

    /// Build a client against `base_url` (e.g. `http://localhost:8082`). It has no
    /// token. A text that is no URL is a configuration error.
    pub fn new(base_url: &str) -> (r: Result<PoliciesClient, WardenError>)
        ensures
            match r {
                Ok(client) => base_url_of(base_url@) == Ok::<Seq<char>, Seq<char>>(
                    url_text(client.base()),
                ) && client.token() is None,
                Err(e) => e matches WardenError::InvalidConfig(message) && base_url_of(base_url@)
                    == Err::<Seq<char>, Seq<char>>(message@),
            },
    {
        match parse_base_url(base_url) {
            Ok(url) => Ok(PoliciesClient { base_url: url, bearer: None }),
            Err(e) => Err(e),
        }
    }

    /// Attach a bearer token, in place of the one that was there.
    pub fn with_bearer(self, token: String) -> (r: PoliciesClient)
        ensures
            r.base() == self.base(),
            r.token() == Some(token),
    {
        PoliciesClient { base_url: self.base_url, bearer: Some(token) }
    }

    /// Read-only access to the configured base URL.
    pub fn base_url(&self) -> (r: &Url)
        ensures
            *r == self.base(),
    {
        &self.base_url
    }

    /// Whether a token is attached.
    pub fn has_bearer(&self) -> (r: bool)
        ensures
            r == self.token() is Some,
    {
        self.bearer.is_some()
    }

    /// `GET /policies`, with `?include_deleted=true` where deleted policies are wanted
    /// too.
    pub fn list(&self, include_deleted: bool) -> (r: Result<Request<()>, WardenError>)
        ensures
            goes_to(r, policies_target(self.base(), include_deleted)),
            lands_on_query(
                self.base(),
                policies_target(self.base(), include_deleted),
                "policies"@,
                policies_query(include_deleted),
            ),
            r matches Ok(request) ==> request.method == Method::Get && request.bearer
                == self.token(),
    {
        proof {
            lemma_policies_path();
            lemma_plain_path("policies"@);
        }
        if !include_deleted {
            proof {
                let there = directory(url_text(self.base())) + "policies"@;
                assert(there + policies_query(false) == there);
            }
            return request(Method::Get, &self.base_url, "policies", &self.bearer, ());
        }
        let joined = join_for_query(&self.base_url, "policies");
        proof {
            lemma_lands_on_first_pair(
                self.base(),
                query_endpoint(self.base(), "policies"@),
                "policies"@,
                "include_deleted"@,
                "true"@,
            );
        }
        match joined {
            Ok(url) => {
                let mut url = url;
                add_pair(&mut url, "include_deleted", "true");
                Ok(Request { method: Method::Get, url, bearer: copy_token(&self.bearer), body: () })
            },
            Err(e) => Err(e),
        }
    }

    /// The policies in a reply to [`PoliciesClient::list`].
    pub fn list_reply(
        status: u16,
        body: String,
        decoded: Result<PoliciesListResponse, serde_json::Error>,
    ) -> (r: Result<Vec<PolicyRow>, WardenError>)
        ensures
            match policies_reply(status, body, decoded) {
                Ok(found) => r == Ok::<Vec<PolicyRow>, WardenError>(found.policies),
                Err(e) => r == Err::<Vec<PolicyRow>, WardenError>(e),
            },
    {
        match PoliciesClient::read_reply(status, body, decoded) {
            Ok(found) => Ok(found.policies),
            Err(e) => Err(e),
        }
    }

    /// `GET /policies/{name}`: the policy and the body of its current version.
    pub fn get(&self, name: &str) -> (r: Result<Request<()>, WardenError>)
        ensures
            self.asks(r, Method::Get, policy_path(name@), ()),
            !is_dot_segment(name@) ==> lands_on(
                self.base(),
                endpoint(self.base(), policy_path(name@)),
                policy_path(name@),
            ),
    {
        self.about_policy(Method::Get, name, ())
    }

    /// `GET /policies/{name}/versions`: every version, newest first.
    pub fn list_versions(&self, name: &str) -> (r: Result<Request<()>, WardenError>)
        ensures
            self.asks(r, Method::Get, policy_item_path(name@, "versions"@), ()),
            !is_dot_segment(name@) ==> lands_on(
                self.base(),
                endpoint(self.base(), policy_item_path(name@, "versions"@)),
                policy_item_path(name@, "versions"@),
            ),
    {
        proof {
            lemma_items();
        }
        self.about_item(Method::Get, name, "versions", ())
    }

    /// The versions in a reply to [`PoliciesClient::list_versions`].
    pub fn list_versions_reply(
        status: u16,
        body: String,
        decoded: Result<VersionsListResponse, serde_json::Error>,
    ) -> (r: Result<Vec<PolicyVersionRow>, WardenError>)
        ensures
            match policies_reply(status, body, decoded) {
                Ok(found) => r == Ok::<Vec<PolicyVersionRow>, WardenError>(found.versions),
                Err(e) => r == Err::<Vec<PolicyVersionRow>, WardenError>(e),
            },
    {
        match PoliciesClient::read_reply(status, body, decoded) {
            Ok(found) => Ok(found.versions),
            Err(e) => Err(e),
        }
    }

    /// `GET /policies/{name}/versions/{version}`: one version.
    pub fn get_version(&self, name: &str, version: i64) -> (r: Result<Request<()>, WardenError>)
        ensures
            self.asks(
                r,
                Method::Get,
                policy_version_path(name@, "versions"@, version as int),
                (),
            ),
            !is_dot_segment(name@) ==> lands_on(
                self.base(),
                endpoint(self.base(), policy_version_path(name@, "versions"@, version as int)),
                policy_version_path(name@, "versions"@, version as int),
            ),
    {
        proof {
            lemma_items();
        }
        self.about_version(Method::Get, name, "versions", version, ())
    }

    /// `GET /policies/{name}/diff?from=N&to=M`: what changed from one version to another.
    pub fn diff(&self, name: &str, from: i64, to: i64) -> (r: Result<Request<()>, WardenError>)
        ensures
            goes_to(r, diff_target(self.base(), name@, from as int, to as int)),
            !is_dot_segment(name@) ==> lands_on_query(
                self.base(),
                diff_target(self.base(), name@, from as int, to as int),
                policy_item_path(name@, "diff"@),
                diff_query(from as int, to as int),
            ),
            r matches Ok(request) ==> request.method == Method::Get && request.bearer
                == self.token(),
    {
        let path = build_item_path(name, "diff");
        let from_text = signed_decimal_text(from);
        let to_text = signed_decimal_text(to);
        let ghost bare = query_endpoint(self.base(), path@);
        proof {
            lemma_items();
            lemma_policy_item_path(name@, "diff"@);
            if !is_dot_segment(name@) {
                lemma_plain_path(path@);
            }
        }
        let joined = join_for_query(&self.base_url, path.as_str());
        proof {
            if !is_dot_segment(name@) {
                lemma_lands_on_first_pair(self.base(), bare, path@, "from"@, from_text@);
                lemma_lands_on_next_pair(
                    self.base(),
                    and_pair(bare, "from"@, from_text@),
                    path@,
                    first_pair("from"@, from_text@),
                    "to"@,
                    to_text@,
                );
            }
        }
        match joined {
            Ok(url) => {
                let mut url = url;
                add_pair(&mut url, "from", from_text.as_str());
                add_pair(&mut url, "to", to_text.as_str());
                Ok(Request { method: Method::Get, url, bearer: copy_token(&self.bearer), body: () })
            },
            Err(e) => Err(e),
        }
    }

    /// `POST /policies`: make a new policy.
    pub fn create<'a>(&self, req: &'a CreatePolicyRequest<'a>) -> (r: Result<
        Request<&'a CreatePolicyRequest<'a>>,
        WardenError,
    >)
        ensures
            self.asks(r, Method::Post, "policies"@, req),
            lands_on(self.base(), endpoint(self.base(), "policies"@), "policies"@),
    {
        proof {
            lemma_policies_path();
            lemma_plain_path("policies"@);
        }
        request(Method::Post, &self.base_url, "policies", &self.bearer, req)
    }

    /// `PUT /policies/{name}`: give a policy a new body.
    pub fn update<'a>(&self, name: &str, req: &'a UpdatePolicyRequest<'a>) -> (r: Result<
        Request<&'a UpdatePolicyRequest<'a>>,
        WardenError,
    >)
        ensures
            self.asks(r, Method::Put, policy_path(name@), req),
            !is_dot_segment(name@) ==> lands_on(
                self.base(),
                endpoint(self.base(), policy_path(name@)),
                policy_path(name@),
            ),
    {
        self.about_policy(Method::Put, name, req)
    }

    /// `POST /policies/{name}/activate`.
    pub fn activate<'a>(&self, name: &str, req: &'a StateChangeRequest<'a>) -> (r: Result<
        Request<&'a StateChangeRequest<'a>>,
        WardenError,
    >)
        ensures
            self.asks(r, Method::Post, policy_item_path(name@, "activate"@), req),
            !is_dot_segment(name@) ==> lands_on(
                self.base(),
                endpoint(self.base(), policy_item_path(name@, "activate"@)),
                policy_item_path(name@, "activate"@),
            ),
    {
        proof {
            lemma_items();
        }
        self.about_item(Method::Post, name, "activate", req)
    }

    /// `POST /policies/{name}/deactivate`.
    pub fn deactivate<'a>(&self, name: &str, req: &'a StateChangeRequest<'a>) -> (r: Result<
        Request<&'a StateChangeRequest<'a>>,
        WardenError,
    >)
        ensures
            self.asks(r, Method::Post, policy_item_path(name@, "deactivate"@), req),
            !is_dot_segment(name@) ==> lands_on(
                self.base(),
                endpoint(self.base(), policy_item_path(name@, "deactivate"@)),
                policy_item_path(name@, "deactivate"@),
            ),
    {
        proof {
            lemma_items();
        }
        self.about_item(Method::Post, name, "deactivate", req)
    }

    /// `DELETE /policies/{name}`: mark a policy as deleted.
    pub fn delete<'a>(&self, name: &str, req: &'a StateChangeRequest<'a>) -> (r: Result<
        Request<&'a StateChangeRequest<'a>>,
        WardenError,
    >)
        ensures
            self.asks(r, Method::Delete, policy_path(name@), req),
            !is_dot_segment(name@) ==> lands_on(
                self.base(),
                endpoint(self.base(), policy_path(name@)),
                policy_path(name@),
            ),
    {
        self.about_policy(Method::Delete, name, req)
    }

    /// `POST /policies/{name}/rollback/{version}`: make the body of a version the newest
    /// version.
    pub fn rollback<'a>(
        &self,
        name: &str,
        version: i64,
        req: &'a RollbackRequest<'a>,
    ) -> (r: Result<Request<&'a RollbackRequest<'a>>, WardenError>)
        ensures
            self.asks(
                r,
                Method::Post,
                policy_version_path(name@, "rollback"@, version as int),
                req,
            ),
            !is_dot_segment(name@) ==> lands_on(
                self.base(),
                endpoint(self.base(), policy_version_path(name@, "rollback"@, version as int)),
                policy_version_path(name@, "rollback"@, version as int),
            ),
    {
        proof {
            lemma_items();
        }
        self.about_version(Method::Post, name, "rollback", version, req)
    }

    /// The conflict that the body of a 409 tells of, where it tells of one: `found` is
    /// what the body is as a [`ConflictResponse`].
    pub fn parse_conflict(found: Result<ConflictResponse, serde_json::Error>) -> (r: Option<
        ConflictResponse,
    >)
        ensures
            match found {
                Ok(conflict) => r == Some(conflict),
                Err(_) => r is None,
            },
    {
        match found {
            Ok(conflict) => Some(conflict),
            Err(_) => None,
        }
    }

    /// What a reply comes to: the decoded body of a 200 or a 201; 401 and 400 have
    /// errors of their own, every other status is an error of the service.
    pub fn read_reply<T>(
        status: u16,
        body: String,
        decoded: Result<T, serde_json::Error>,
    ) -> (r: Result<T, WardenError>)
        ensures
            r == policies_reply(status, body, decoded),
    {
        if status == 200 || status == 201 {
            read_decoded(decoded)
        } else {
            Err(read_status_error(status, body))
        }
    }

    fn about_policy<B>(&self, method: Method, name: &str, body: B) -> (r: Result<
        Request<B>,
        WardenError,
    >)
        ensures
            self.asks(r, method, policy_path(name@), body),
            !is_dot_segment(name@) ==> lands_on(
                self.base(),
                endpoint(self.base(), policy_path(name@)),
                policy_path(name@),
            ),
    {
        let path = build_policy_path(name);
        proof {
            lemma_policy_path(name@);
            if !is_dot_segment(name@) {
                lemma_plain_path(path@);
            }
        }
        request(method, &self.base_url, path.as_str(), &self.bearer, body)
    }

    fn about_item<B>(&self, method: Method, name: &str, item: &str, body: B) -> (r: Result<
        Request<B>,
        WardenError,
    >)
        requires
            is_plain_segment(item@),
        ensures
            self.asks(r, method, policy_item_path(name@, item@), body),
            !is_dot_segment(name@) ==> lands_on(
                self.base(),
                endpoint(self.base(), policy_item_path(name@, item@)),
                policy_item_path(name@, item@),
            ),
    {
        let path = build_item_path(name, item);
        proof {
            lemma_policy_item_path(name@, item@);
            if !is_dot_segment(name@) {
                lemma_plain_path(path@);
            }
        }
        request(method, &self.base_url, path.as_str(), &self.bearer, body)
    }

    fn about_version<B>(
        &self,
        method: Method,
        name: &str,
        item: &str,
        version: i64,
        body: B,
    ) -> (r: Result<Request<B>, WardenError>)
        requires
            is_plain_segment(item@),
        ensures
            self.asks(r, method, policy_version_path(name@, item@, version as int), body),
            !is_dot_segment(name@) ==> lands_on(
                self.base(),
                endpoint(self.base(), policy_version_path(name@, item@, version as int)),
                policy_version_path(name@, item@, version as int),
            ),
    {
        let path = build_version_path(name, item, version);
        proof {
            if !is_dot_segment(name@) {
                lemma_policy_version_path(name@, item@, version as int);
                lemma_plain_path(path@);
            }
        }
        request(method, &self.base_url, path.as_str(), &self.bearer, body)
    }
}

} // verus!
