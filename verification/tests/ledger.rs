use serde_json::Value;
use warden_sdk::{
    default_chain_version, AgentNames, AuditCount, LedgerClient, Method, RegulatoryExportOptions,
    Timestamp, VerifyResult, WardenError,
};

const LEDGER: &str = "http://127.0.0.1:54321";

fn ledger() -> LedgerClient {
    LedgerClient::new(LEDGER).unwrap()
}

fn not_json() -> serde_json::Error {
    serde_json::from_str::<Value>("not json").unwrap_err()
}

/// What a body is as a `VerifyResult`.
fn verified(raw: &str) -> Result<VerifyResult, serde_json::Error> {
    let v: Value = serde_json::from_str(raw)?;
    Ok(VerifyResult {
        valid: v["valid"].as_bool().unwrap(),
        entries_checked: v["entries_checked"].as_u64().unwrap() as usize,
        first_invalid_seq: v["first_invalid_seq"].as_i64(),
        unsupported_chain_version: v["unsupported_chain_version"].as_i64(),
    })
}

fn verify_reply(raw: &str) -> VerifyResult {
    LedgerClient::read_reply(200, raw.to_owned(), verified(raw)).unwrap()
}

/// What a body is as a list of rows.
fn rows(raw: &str) -> Result<Vec<Value>, serde_json::Error> {
    serde_json::from_str(raw)
}

#[test]
fn verify_result_round_trips() {
    let parsed = verify_reply(
        r#"{"valid": true, "entries_checked": 47, "first_invalid_seq": null}"#,
    );
    assert!(parsed.valid);
    assert_eq!(parsed.entries_checked, 47);
    assert!(parsed.first_invalid_seq.is_none());
    assert!(parsed.unsupported_chain_version.is_none());

    let parsed = verify_reply(r#"{"valid": false, "entries_checked": 12, "first_invalid_seq": 7}"#);
    assert!(!parsed.valid);
    assert_eq!(parsed.first_invalid_seq, Some(7));
}

#[test]
fn verify_result_decodes_unsupported_chain_version_signal() {
    let parsed = verify_reply(
        r#"{"valid": false, "entries_checked": 4, "first_invalid_seq": null,
            "unsupported_chain_version": 2}"#,
    );
    assert!(!parsed.valid);
    assert!(parsed.first_invalid_seq.is_none());
    assert_eq!(parsed.unsupported_chain_version, Some(2));
}

#[test]
fn verify_decodes_chain_status() {
    let request = ledger().verify().unwrap();
    assert_eq!(request.method, Method::Get);
    assert_eq!(request.url.as_str(), "http://127.0.0.1:54321/verify");
    let v = verify_reply(r#"{"valid": true, "entries_checked": 47, "first_invalid_seq": null}"#);
    assert!(v.valid);
    assert_eq!(v.entries_checked, 47);
    assert!(v.first_invalid_seq.is_none());
}

#[test]
fn lifecycle_for_agent_round_trips_against_mock() {
    let request = ledger().lifecycle_for_agent("acme", "01HW-AGENT-uuid").unwrap();
    assert_eq!(request.method, Method::Get);
    assert_eq!(
        request.url.as_str(),
        "http://127.0.0.1:54321/audit/agent/acme/01HW-AGENT-uuid/lifecycle"
    );
    let raw = r#"[
        {
            "id": "01940000-0000-7000-8000-000000000001",
            "timestamp": "2026-05-05T14:00:00Z",
            "agent_id": "01HW-AGENT-uuid",
            "method": "agent.registered",
            "intent_category": "Lifecycle",
            "authorized": true,
            "reasoning": "",
            "policy_decision": null,
            "seq": 1,
            "chain_version": 3,
            "event_kind": "agent.registered",
            "tenant": "acme",
            "agent_name": "support-bot-3",
            "actor_sub": "user:alice@acme.com",
            "actor_idp": "okta",
            "payload": { "owner_team": "payments" }
        },
        {
            "id": "01940000-0000-7000-8000-000000000002",
            "timestamp": "2026-05-05T14:30:00Z",
            "agent_id": "01HW-AGENT-uuid",
            "method": "agent.suspended",
            "intent_category": "Lifecycle",
            "authorized": true,
            "reasoning": "",
            "policy_decision": null,
            "seq": 2,
            "chain_version": 3,
            "event_kind": "agent.suspended",
            "tenant": "acme",
            "agent_name": "support-bot-3",
            "actor_sub": "user:alice@acme.com",
            "actor_idp": "okta",
            "payload": { "state_before": "active", "state_after": "suspended" }
        }
    ]"#;
    let found = LedgerClient::read_reply(200, raw.to_owned(), rows(raw)).unwrap();
    assert_eq!(found.len(), 2);
    assert_eq!(found[0]["event_kind"], "agent.registered");
    assert_eq!(found[1]["event_kind"], "agent.suspended");
    assert_eq!(found[1]["payload"]["state_after"], "suspended");
}

#[test]
fn regulatory_export_threads_query_params_and_optional_readme() {
    let client = LedgerClient::new("http://127.0.0.1:54321/").unwrap();
    let from = Timestamp::from_unix(1_700_000_000, 0).unwrap();
    let to = Timestamp::from_unix(1_700_010_000, 0).unwrap();
    assert!(from.as_str().starts_with("2023-"));
    assert!(to.as_str().starts_with("2023-"));

    let request = client
        .regulatory_export(&from, &to, RegulatoryExportOptions::default())
        .unwrap();
    assert_eq!(request.method, Method::Post);
    assert!(request.bearer.is_none());
    assert_eq!(
        request.url.as_str(),
        "http://127.0.0.1:54321/export/regulatory\
         ?from=2023-11-14T22%3A13%3A20Z&to=2023-11-15T01%3A00%3A00Z"
    );
    assert!(request.body.is_none(), "no readme, empty body");
    let placeholder = vec![0x1F, 0x8B, 0x08, 0x00, 0x00, 0x00, 0x00, 0x00];
    assert!(LedgerClient::regulatory_export_accepted(200));
    let bytes =
        LedgerClient::regulatory_export_reply(200, placeholder.clone(), None).unwrap();
    assert_eq!(bytes.len(), 8, "placeholder bundle bytes returned verbatim");
    assert_eq!(bytes, placeholder);

    let prose = b"# Warden\n\nProse here.\n";
    let request = client
        .regulatory_export(
            &from,
            &to,
            RegulatoryExportOptions { readme: Some(prose.to_vec()), include_exports: true },
        )
        .unwrap();
    assert_eq!(
        request.url.as_str(),
        "http://127.0.0.1:54321/export/regulatory\
         ?from=2023-11-14T22%3A13%3A20Z&to=2023-11-15T01%3A00%3A00Z&include_exports=true"
    );
    let pairs: Vec<(String, String)> = request
        .url
        .query_pairs()
        .map(|(k, v)| (k.into_owned(), v.into_owned()))
        .collect();
    assert_eq!(pairs[0], ("from".to_owned(), "2023-11-14T22:13:20Z".to_owned()));
    assert_eq!(pairs[1], ("to".to_owned(), "2023-11-15T01:00:00Z".to_owned()));
    assert_eq!(pairs[2], ("include_exports".to_owned(), "true".to_owned()));
    let upload = request.body.unwrap();
    assert_eq!(upload.content_type, "text/markdown");
    assert_eq!(upload.bytes.len(), prose.len());
    assert_eq!(upload.bytes, prose);
    assert!(LedgerClient::regulatory_export_reply(200, placeholder, None).is_ok());
}

#[test]
fn regulatory_export_propagates_4xx_as_server_error() {
    let client = LedgerClient::new("http://127.0.0.1:54321/").unwrap();
    let from = Timestamp::from_unix(1_700_000_000, 0).unwrap();
    let to = Timestamp::from_unix(1_700_010_000, 0).unwrap();
    let request = client
        .regulatory_export(&from, &to, RegulatoryExportOptions::default())
        .unwrap();
    assert_eq!(request.url.path(), "/export/regulatory");
    assert!(!LedgerClient::regulatory_export_accepted(413));
    let text = Some("readme too big".to_owned());
    let err = LedgerClient::regulatory_export_reply(413, Vec::new(), text)
        .expect_err("413 must surface as WardenError::Server");
    match err {
        WardenError::Server { status, body } => {
            assert_eq!(status, 413);
            assert!(body.contains("too big"));
        }
        other => panic!("expected WardenError::Server, got {other:?}"),
    }
}

#[test]
fn regulatory_export_takes_every_success_and_nothing_else() {
    assert!(!LedgerClient::regulatory_export_accepted(199));
    assert!(LedgerClient::regulatory_export_accepted(204));
    assert!(LedgerClient::regulatory_export_accepted(299));
    assert!(!LedgerClient::regulatory_export_accepted(300));
    for status in [200, 201, 299] {
        let text = Some("not looked at".to_owned());
        let bytes = LedgerClient::regulatory_export_reply(status, vec![1, 2, 3], text);
        assert_eq!(bytes.unwrap(), [1, 2, 3]);
    }
    for status in [199, 300, 400] {
        assert!(matches!(
            LedgerClient::regulatory_export_reply(status, vec![1, 2, 3], Some("no".to_owned())),
            Err(WardenError::Server { status: s, body }) if s == status && body == "no"
        ));
    }
    match LedgerClient::regulatory_export_refused(503, None) {
        WardenError::Server { status, body } => {
            assert_eq!(status, 503);
            assert!(body.is_empty());
        }
        other => panic!("expected WardenError::Server, got {other:?}"),
    }
}

fn written(seconds: i64, nanos: u32) -> String {
    Timestamp::from_unix(seconds, nanos).unwrap().as_str().to_owned()
}

#[test]
fn timestamps_are_written_to_the_second() {
    assert_eq!(written(0, 0), "1970-01-01T00:00:00Z");
    assert_eq!(written(-1, 999_999_999), "1969-12-31T23:59:59Z");
    assert_eq!(written(1_700_000_000, 123_456_789), "2023-11-14T22:13:20Z");
    assert_eq!(written(1_700_000_000, 999_999_999), written(1_700_000_000, 0));
}

#[test]
fn leap_seconds_are_written_as_one_more_second() {
    assert_eq!(written(59, 1_000_000_000), "1970-01-01T00:00:60Z");
    assert_eq!(written(1_700_000_000, 1_500_000_000), "2023-11-14T22:13:21Z");
    assert_eq!(written(1_700_000_000, 1_999_999_999), "2023-11-14T22:13:21Z");
    assert!(Timestamp::from_unix(0, 2_000_000_000).is_none());
}

#[test]
fn timestamps_reach_as_far_as_the_calendar() {
    let (first, last) = (-8_334_601_228_800, 8_210_266_876_799);
    assert_eq!(written(first, 0), "-262143-01-01T00:00:00Z");
    assert_eq!(written(last, 999_999_999), "+262142-12-31T23:59:59Z");
    assert_eq!(written(last, 1_999_999_999), "+262142-12-31T23:59:60Z");
    assert!(Timestamp::from_unix(first - 1, 0).is_none());
    assert!(Timestamp::from_unix(last + 1, 0).is_none());
    assert!(Timestamp::from_unix(i64::MAX, 0).is_none());
    assert!(Timestamp::from_unix(i64::MIN, 0).is_none());
    let (zero, nines) = (-62_167_219_200, 253_402_300_799);
    assert_eq!(written(zero, 0), "0000-01-01T00:00:00Z");
    assert_eq!(written(nines, 0), "9999-12-31T23:59:59Z");
    assert_eq!(written(zero - 1, 0), "-0001-12-31T23:59:59Z");
    assert_eq!(written(nines + 1, 0), "+10000-01-01T00:00:00Z");
}

#[test]
fn instants_of_the_same_second_make_the_same_request() {
    let request = |a: u32, b: u32| {
        let from = Timestamp::from_unix(1_700_000_000, a).unwrap();
        let to = Timestamp::from_unix(1_700_010_000, b).unwrap();
        ledger().regulatory_export(&from, &to, RegulatoryExportOptions::default()).unwrap()
    };
    assert_eq!(request(0, 0).url, request(999_999_999, 1).url);
    assert_ne!(request(0, 0).url, request(1_000_000_000, 0).url);
}

#[test]
fn audit_correlation_decodes_ledger_entries() {
    let cid = "3f4b8c2a-9e1d-47fa-8a6c-c0a8d8888c8c";
    let request = ledger().audit_correlation(cid).unwrap();
    assert_eq!(
        request.url.as_str(),
        "http://127.0.0.1:54321/audit/correlation/3f4b8c2a-9e1d-47fa-8a6c-c0a8d8888c8c"
    );
    let row = |seq: i64, layer: &str| {
        format!(
            r#"{{"id": "550e8400-e29b-41d4-a716-446655440000",
                "timestamp": "2026-05-02T12:34:56Z",
                "agent_id": "demo-bot",
                "method": "tools/call:{layer}",
                "intent_category": "BenignTool",
                "authorized": true,
                "reasoning": "layer={layer}",
                "policy_decision": null,
                "seq": {seq},
                "correlation_id": "{cid}"}}"#
        )
    };
    let raw = format!("[{}, {}]", row(1, "proxy"), row(2, "policy"));
    let found = LedgerClient::read_reply(200, raw.clone(), rows(&raw)).expect("audit");
    assert_eq!(found.len(), 2);
    assert!(found.iter().all(|r| r["correlation_id"].is_string()));
    assert_eq!(found[0]["seq"], 1);
    assert_eq!(found[1]["seq"], 2);
}

#[test]
fn audit_correlation_percent_encodes_path() {
    let request = ledger().audit_correlation("a/b").unwrap();
    assert_eq!(request.url.path(), "/audit/correlation/a%2Fb");
    let found = LedgerClient::read_reply(200, "[]".to_owned(), rows("[]")).expect("audit");
    assert!(found.is_empty());
}

#[test]
fn audit_agent_paged_forwards_limit_and_offset() {
    let request = ledger().audit_agent_paged("demo-bot", 25, 50).unwrap();
    assert_eq!(request.url.path(), "/audit/demo-bot");
    let pairs: Vec<(String, String)> = request
        .url
        .query_pairs()
        .map(|(k, v)| (k.into_owned(), v.into_owned()))
        .collect();
    assert_eq!(pairs.len(), 2);
    assert_eq!(pairs[0], ("limit".to_owned(), "25".to_owned()));
    assert_eq!(pairs[1], ("offset".to_owned(), "50".to_owned()));
    let found = LedgerClient::read_reply(200, "[]".to_owned(), rows("[]")).expect("paged");
    assert!(found.is_empty());
}

#[test]
fn audit_agent_count_decodes_count_field() {
    let request = ledger().audit_agent_count("demo-bot").unwrap();
    assert_eq!(request.url.as_str(), "http://127.0.0.1:54321/audit/demo-bot/count");
    let count = |n: i64| {
        LedgerClient::audit_agent_count_reply(200, String::new(), Ok(AuditCount { count: n }))
    };
    assert_eq!(count(1234).expect("count"), 1234);
    assert_eq!(count(0).unwrap(), 0);
    assert_eq!(count(-5).unwrap(), 0);
}

#[test]
fn list_exports_decodes_export_records() {
    let request = ledger().list_exports().unwrap();
    assert_eq!(request.method, Method::Get);
    assert_eq!(request.url.as_str(), "http://127.0.0.1:54321/exports");
    let raw = r#"[
        {
            "snapshot_id": "550e8400-e29b-41d4-a716-446655440000",
            "written_at": "2026-05-04T08:00:00Z",
            "data_uri": "file:///snap/v2.parquet",
            "byte_size": 2048,
            "row_count": 100,
            "seq_lo": 51,
            "seq_hi": 150
        },
        {
            "snapshot_id": "660f9511-f3ac-52e5-b827-557766551111",
            "written_at": "2026-05-03T08:00:00Z",
            "data_uri": "file:///snap/v1.parquet",
            "byte_size": 1024,
            "row_count": 50,
            "seq_lo": 1,
            "seq_hi": 50
        }
    ]"#;
    let found = LedgerClient::read_reply(200, raw.to_owned(), rows(raw)).expect("exports");
    assert_eq!(found.len(), 2);
    assert_eq!(found[0]["row_count"], 100);
    assert_eq!(found[0]["seq_lo"], 51);
    assert_eq!(found[1]["row_count"], 50);
}

#[test]
fn list_agents_gives_the_names() {
    let request = ledger().list_agents().unwrap();
    assert_eq!(request.url.as_str(), "http://127.0.0.1:54321/agents");
    let decoded = Ok(AgentNames { agents: vec!["a".to_owned(), "b".to_owned()] });
    let names = LedgerClient::list_agents_reply(200, String::new(), decoded).unwrap();
    assert_eq!(names, ["a", "b"]);
    assert!(matches!(
        LedgerClient::list_agents_reply(200, String::new(), Err(not_json())),
        Err(WardenError::Decode(_))
    ));
}

#[test]
fn every_success_is_read() {
    for status in [200, 201, 202, 204, 299] {
        let found = LedgerClient::read_reply(status, r#"["a"]"#.to_owned(), rows(r#"["a"]"#));
        assert_eq!(found.unwrap(), [Value::from("a")]);
        let count = Ok(AuditCount { count: 3 });
        assert_eq!(
            LedgerClient::audit_agent_count_reply(status, String::new(), count).unwrap(),
            3
        );
        let names = Ok(AgentNames { agents: vec!["a".to_owned()] });
        assert_eq!(
            LedgerClient::list_agents_reply(status, String::new(), names).unwrap(),
            ["a"]
        );
        assert!(matches!(
            LedgerClient::read_reply(status, "text".to_owned(), rows("text")),
            Err(WardenError::Decode(_))
        ));
    }
}

#[test]
fn every_other_status_is_an_error_of_the_ledger() {
    for status in [100, 199, 300, 301, 400, 401, 403, 404, 500] {
        match LedgerClient::read_reply(status, "text".to_owned(), rows("[]")) {
            Err(WardenError::Server { status: s, body }) => {
                assert_eq!(s, status);
                assert_eq!(body, "text");
            }
            other => panic!("expected Server, got {other:?}"),
        }
    }
    assert!(matches!(
        LedgerClient::audit_agent_count_reply(404, "no".to_owned(), Err(not_json())),
        Err(WardenError::Server { status: 404, .. })
    ));
    let names = Ok(AgentNames { agents: vec![] });
    assert!(matches!(
        LedgerClient::list_agents_reply(300, "no".to_owned(), names),
        Err(WardenError::Server { status: 300, .. })
    ));
}

#[test]
fn no_value_changes_the_route() {
    let client = LedgerClient::new("http://ledger.test/base/").unwrap();
    let path = |id: &str| client.audit_agent(id).unwrap().url.path().to_owned();
    assert_eq!(path("../verify"), "/base/audit/..%2Fverify");
    assert_eq!(path("%2e%2e"), "/base/audit/%252e%252e");
    assert_eq!(path("a?b#c"), "/base/audit/a%3Fb%23c");
    assert_eq!(path("http://x.test/"), "/base/audit/http%3A%2F%2Fx.test%2F");
    assert_eq!(path("..."), "/base/audit/...");
    assert_eq!(path(""), "/base/audit/");
    assert_eq!(path("a\\b"), "/base/audit/a%5Cb");
    assert_eq!(path("correlation"), "/base/audit/correlation");
    let count = client.audit_agent_count("").unwrap();
    assert_eq!(count.url.as_str(), "http://ledger.test/base/audit//count");
    let lifecycle = client.lifecycle_for_agent("a/b", "c d").unwrap();
    assert_eq!(
        lifecycle.url.as_str(),
        "http://ledger.test/base/audit/agent/a%2Fb/c%20d/lifecycle"
    );
    let lifecycle = client.lifecycle_for_agent("", "").unwrap();
    assert_eq!(lifecycle.url.as_str(), "http://ledger.test/base/audit/agent///lifecycle");
}

#[test]
fn dot_values_are_resolved_like_every_dot_segment() {
    let client = LedgerClient::new("http://ledger.test/base/").unwrap();
    assert_eq!(client.audit_agent(".").unwrap().url.path(), "/base/audit/");
    assert_eq!(client.audit_agent("..").unwrap().url.path(), "/base/");
}

#[test]
fn audit_routes_are_separate_but_for_one_pair_of_ids() {
    let client = ledger();
    let count = |id: &str| client.audit_agent_count(id).unwrap().url;
    let rows = |cid: &str| client.audit_correlation(cid).unwrap().url;
    assert_eq!(count("correlation"), rows("count"));
    assert_ne!(count("correlation"), rows("Count"));
    assert_ne!(client.audit_agent("correlation/x").unwrap().url, rows("x"));
    assert_ne!(client.audit_agent("x/count").unwrap().url, count("x"));
    assert_ne!(
        client.audit_agent("agent/t/x/lifecycle").unwrap().url,
        client.lifecycle_for_agent("t", "x").unwrap().url
    );
}

#[test]
fn a_dot_id_may_lead_to_another_endpoint() {
    let client = ledger();
    assert_eq!(
        client.audit_correlation("..").unwrap().url,
        client.audit_agent("").unwrap().url
    );
}

#[test]
fn different_pages_have_different_urls() {
    let url = |id: &str, limit: usize, offset: usize| {
        ledger().audit_agent_paged(id, limit, offset).unwrap().url.as_str().to_owned()
    };
    assert_ne!(url("a", 1, 2), url("a", 12, 2));
    assert_ne!(url("a", 1, 2), url("a", 1, 22));
    assert_ne!(url("a", 1, 2), url("a?limit=1", 1, 2));
}

#[test]
fn ledger_rejects_malformed_base_url() {
    match LedgerClient::new("http://") {
        Err(WardenError::InvalidConfig(message)) => assert_eq!(message, "base_url: empty host"),
        other => panic!("expected InvalidConfig, got {other:?}"),
    }
    let client = LedgerClient::new("http://ledger.test").unwrap();
    assert_eq!(client.base_url().as_str(), "http://ledger.test/");
    assert_eq!(client.clone().base_url().as_str(), "http://ledger.test/");
}

#[test]
fn a_path_that_makes_no_url_is_named_in_the_error() {
    let client = LedgerClient::new("data:text").unwrap();
    match client.audit_agent("a b") {
        Err(WardenError::InvalidConfig(message)) => assert_eq!(
            message,
            "join audit/a%20b: relative URL with a cannot-be-a-base base"
        ),
        other => panic!("expected InvalidConfig, got {other:?}"),
    }
}

#[test]
fn rows_without_a_chain_version_are_of_the_first() {
    assert_eq!(default_chain_version(), 1);
}
