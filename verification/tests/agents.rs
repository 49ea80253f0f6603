use serde_json::Value;
use warden_sdk::{AgentListFilter, AgentRecord, AgentState, AgentsClient, Method, WardenError};

fn record(id: &str, tenant: &str, name: &str, state: AgentState, owner: &str) -> AgentRecord {
    AgentRecord {
        id: id.into(),
        tenant: tenant.into(),
        agent_name: name.into(),
        state,
        scope_envelope: vec!["mcp:read:tickets".into()],
        yellow_envelope: vec![],
        attestation_kinds_accepted: vec!["tpm".into()],
        created_by_sub: "user:alice@acme.com".into(),
        created_by_idp: "okta".into(),
        owner_team: owner.into(),
        created_at: "2026-05-01T00:00:00+00:00".into(),
        state_changed_at: "2026-05-01T00:00:00+00:00".into(),
        state_changed_by: "user:alice@acme.com".into(),
        description: None,
    }
}

fn client() -> AgentsClient {
    AgentsClient::new("http://127.0.0.1:54321/").unwrap().with_bearer("dev-token".to_owned())
}

fn pairs(url: &reqwest::Url) -> Vec<(String, String)> {
    url.query_pairs().map(|(k, v)| (k.into_owned(), v.into_owned())).collect()
}

#[test]
fn list_round_trips_records() {
    let request = client().list("acme", AgentListFilter::default()).unwrap();
    assert_eq!(request.method, Method::Get);
    assert_eq!(request.url.as_str(), "http://127.0.0.1:54321/agents?tenant=acme");
    assert_eq!(request.bearer.as_deref(), Some("dev-token"));
    let decoded = Ok(vec![
        record("01HW...A001", "acme", "support-bot-3", AgentState::Active, "payments"),
        record("01HW...A002", "acme", "legacy-bot", AgentState::Suspended, "infra"),
    ]);
    let rows = AgentsClient::read_reply(200, String::new(), decoded).unwrap();
    assert_eq!(rows.len(), 2);
    assert!(rows.iter().any(|r| r.agent_name == "support-bot-3"));
}

#[test]
fn list_passes_filter_query_params() {
    let filter = AgentListFilter {
        state: Some(AgentState::Suspended),
        owner_team: Some("infra".into()),
    };
    let request = client().list("acme", filter).unwrap();
    assert_eq!(
        request.url.as_str(),
        "http://127.0.0.1:54321/agents?tenant=acme&state=suspended&owner_team=infra"
    );
    let decoded = Ok(vec![record("a2", "acme", "legacy-bot", AgentState::Suspended, "infra")]);
    let rows = AgentsClient::read_reply(200, String::new(), decoded).unwrap();
    assert_eq!(rows.len(), 1);
    assert_eq!(rows[0].agent_name, "legacy-bot");
}

#[test]
fn get_round_trips_record() {
    let request = client().get("01HW-known", "acme").unwrap();
    assert_eq!(request.method, Method::Get);
    assert_eq!(
        request.url.as_str(),
        "http://127.0.0.1:54321/agents/01HW-known?tenant=acme"
    );
    assert_eq!(request.bearer.as_deref(), Some("dev-token"));
    let decoded =
        Ok(record("01HW-known", "acme", "support-bot-3", AgentState::Active, "payments"));
    let r = AgentsClient::read_reply(200, String::new(), decoded).unwrap();
    assert_eq!(r.agent_name, "support-bot-3");
    assert_eq!(r.owner_team, "payments");
}

#[test]
fn get_404_maps_to_server_error() {
    let request = client().get("nope", "acme").unwrap();
    assert_eq!(request.url.as_str(), "http://127.0.0.1:54321/agents/nope?tenant=acme");
    assert_eq!(request.bearer.as_deref(), Some("dev-token"));
    let raw = r#"{"error": "not_found"}"#;
    let decoded: Result<Value, serde_json::Error> = serde_json::from_str(raw);
    match AgentsClient::read_reply(404, raw.to_owned(), decoded).unwrap_err() {
        WardenError::Server { status, body } => {
            assert_eq!(status, 404);
            assert!(body.contains("not_found"), "got body: {body}");
        }
        other => panic!("expected Server, got {other:?}"),
    }
}

#[test]
fn agent_state_round_trips_through_json() {
    let r = record("a", "acme", "x", AgentState::Suspended, "t");
    let v = Value::from_iter([("state", r.state.as_wire())]);
    assert_eq!(v["state"], "suspended");
    let again = AgentState::from_wire(v["state"].as_str().unwrap()).unwrap();
    assert_eq!(again, AgentState::Suspended);
}

#[test]
fn agent_state_rejects_unknown_value() {
    let r: Result<Value, serde_json::Error> = serde_json::from_str(r#"{"state": "potato"}"#);
    assert!(r.is_ok(), "raw json parses fine");
    assert!(AgentState::parse("potato").is_none());
    let r = AgentState::from_wire("potato");
    assert_eq!(r.unwrap_err(), "invalid state: potato");
}

#[test]
fn list_url_includes_tenant_and_state() {
    let client = AgentsClient::new("http://example.test/").unwrap();
    let filter = AgentListFilter { state: Some(AgentState::Active), owner_team: None };
    let request = client.list("acme", filter).unwrap();
    assert_eq!(
        request.url.as_str(),
        "http://example.test/agents?tenant=acme&state=active"
    );
    assert!(request.bearer.is_none());
}

#[test]
fn every_state_is_read_back_from_both_of_its_forms() {
    let states = [
        (AgentState::Active, "active", "Active"),
        (AgentState::Suspended, "suspended", "Suspended"),
        (AgentState::Decommissioned, "decommissioned", "Decommissioned"),
    ];
    for (state, wire, capitalized) in states {
        assert_eq!(state.as_wire(), wire);
        assert_eq!(AgentState::parse(wire), Some(state));
        assert_eq!(AgentState::parse(capitalized), Some(state));
        assert_eq!(AgentState::from_wire(wire), Ok(state));
    }
    for text in ["", "ACTIVE", "aCtive", " active", "active ", "activ", "Deactivated"] {
        assert_eq!(AgentState::parse(text), None);
    }
}

#[test]
fn query_values_are_read_back_as_they_were() {
    let tenant = "a&b=c d+e%\u{e4}~*#?/";
    let filter = AgentListFilter { state: None, owner_team: Some("x y".into()) };
    let request = client().list(tenant, filter).unwrap();
    assert_eq!(
        request.url.query().unwrap(),
        "tenant=a%26b%3Dc+d%2Be%25%C3%A4%7E*%23%3F%2F&owner_team=x+y"
    );
    assert_eq!(
        pairs(&request.url),
        [
            ("tenant".to_owned(), tenant.to_owned()),
            ("owner_team".to_owned(), "x y".to_owned()),
        ]
    );
    let empty = client().list("", AgentListFilter::default()).unwrap();
    assert_eq!(empty.url.as_str(), "http://127.0.0.1:54321/agents?tenant=");
}

#[test]
fn different_lists_have_different_queries() {
    let query = |tenant: &str, state: Option<AgentState>, team: Option<&str>| {
        let filter = AgentListFilter { state, owner_team: team.map(str::to_owned) };
        client().list(tenant, filter).unwrap().url.query().unwrap().to_owned()
    };
    let active = Some(AgentState::Active);
    let queries = [
        query("t", None, None),
        query("t", active, None),
        query("t", Some(AgentState::Suspended), None),
        query("t", None, Some("x")),
        query("t", active, Some("x")),
        query("t", active, Some("")),
        query("t&state=active", None, None),
        query("t", None, Some("x&state=active")),
        query("t&owner_team=x", None, None),
    ];
    for (i, a) in queries.iter().enumerate() {
        for b in &queries[i + 1..] {
            assert_ne!(a, b);
        }
    }
}

#[test]
fn different_reads_of_an_agent_have_different_urls() {
    let url = |id: &str, tenant: &str| client().get(id, tenant).unwrap().url;
    assert_ne!(url("a", "t"), url("b", "t"));
    assert_ne!(url("a", "t"), url("a", "u"));
    assert_ne!(url("a", "t"), url("a?tenant=t", "t"));
}

#[test]
fn the_query_of_the_base_url_is_dropped() {
    let client = AgentsClient::new("http://id.test/v1/x?old=1#frag").unwrap();
    let request = client.list("t", AgentListFilter::default()).unwrap();
    assert_eq!(request.url.as_str(), "http://id.test/v1/agents?tenant=t");
    let request = client.get("a/b", "t").unwrap();
    assert_eq!(request.url.as_str(), "http://id.test/v1/agents/a%2Fb?tenant=t");
}

#[test]
fn agents_replies_by_status() {
    let read = |status: u16| AgentsClient::read_reply(status, "why".to_owned(), Ok(7u8));
    assert_eq!(read(200).unwrap(), 7);
    assert!(matches!(read(401), Err(WardenError::Unauthorized(b)) if b == "why"));
    assert!(matches!(read(400), Err(WardenError::BadRequest(b)) if b == "why"));
    for status in [201, 204, 403, 404, 409, 500] {
        match read(status) {
            Err(WardenError::Server { status: s, body }) => {
                assert_eq!(s, status);
                assert_eq!(body, "why");
            }
            other => panic!("expected Server, got {other:?}"),
        }
    }
    let undecoded: Result<u8, serde_json::Error> = serde_json::from_str("x");
    assert!(matches!(
        AgentsClient::read_reply(200, "x".to_owned(), undecoded),
        Err(WardenError::Decode(_))
    ));
}

#[test]
fn the_last_token_counts() {
    let client = client().with_bearer("other".to_owned());
    assert_eq!(client.base_url().as_str(), "http://127.0.0.1:54321/");
    let request = client.clone().get("a", "t").unwrap();
    assert_eq!(request.bearer.as_deref(), Some("other"));
}

#[test]
fn agents_reject_malformed_base_url() {
    assert!(matches!(
        AgentsClient::new("not a url"),
        Err(WardenError::InvalidConfig(m)) if m == "base_url: relative URL without a base"
    ));
    let client = AgentsClient::new("mailto:a@b.test").unwrap();
    assert!(matches!(
        client.list("t", AgentListFilter::default()),
        Err(WardenError::InvalidConfig(m))
            if m == "join agents: relative URL with a cannot-be-a-base base"
    ));
    assert!(matches!(
        client.get("x y", "t"),
        Err(WardenError::InvalidConfig(m))
            if m == "join agents/x%20y: relative URL with a cannot-be-a-base base"
    ));
}
