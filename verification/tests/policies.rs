use serde_json::Value;
use warden_sdk::{
    ConflictResponse, CreatePolicyRequest, Method, MutationResponse, PoliciesClient,
    PoliciesListResponse, PolicyRow, PolicyVersionRow, RollbackRequest, StateChangeRequest,
    UpdatePolicyRequest, VersionsListResponse, WardenError,
};

const ENGINE: &str = "http://127.0.0.1:54321";

fn engine() -> PoliciesClient {
    PoliciesClient::new(ENGINE).unwrap()
}

fn text(v: &Value) -> String {
    v.as_str().unwrap().to_owned()
}

fn row(v: &Value) -> PolicyRow {
    PolicyRow {
        name: text(&v["name"]),
        content_type: text(&v["content_type"]),
        active: v["active"].as_bool().unwrap(),
        current_version: v["current_version"].as_i64().unwrap(),
        deleted_at: v["deleted_at"].as_str().map(str::to_owned),
        created_at: text(&v["created_at"]),
        updated_at: text(&v["updated_at"]),
    }
}

/// What a body is as a `ConflictResponse`.
fn conflict(raw: &str) -> Result<ConflictResponse, serde_json::Error> {
    let v: Value = serde_json::from_str(raw)?;
    Ok(ConflictResponse { error: text(&v["error"]), policy: row(&v["policy"]) })
}

const CONFLICT: &str = r#"{
    "error": "version_conflict",
    "policy": {
        "name": "governance.rego",
        "content_type": "rego",
        "active": true,
        "current_version": 7,
        "deleted_at": null,
        "created_at": "2026-05-08T00:00:00Z",
        "updated_at": "2026-05-08T00:00:00Z"
    }
}"#;

/// The same conflict, five hours on.
const LATER_CONFLICT: &str = r#"{
    "error": "version_conflict",
    "policy": {
        "name": "governance.rego",
        "content_type": "rego",
        "active": true,
        "current_version": 7,
        "deleted_at": null,
        "created_at": "2026-05-08T00:00:00Z",
        "updated_at": "2026-05-08T05:00:00Z"
    }
}"#;

fn state_change() -> StateChangeRequest<'static> {
    StateChangeRequest {
        reason: "test",
        actor_sub: "alice",
        actor_idp: "oidc:test",
        expected_current_version: 3,
    }
}

#[test]
fn rejects_malformed_base_url() {
    match PoliciesClient::new("not a url") {
        Ok(_) => panic!("expected InvalidConfig"),
        Err(WardenError::InvalidConfig(_)) => {}
        Err(other) => panic!("unexpected error: {other:?}"),
    }
}

#[test]
fn parse_conflict_recovers_policy_row() {
    let parsed = PoliciesClient::parse_conflict(conflict(CONFLICT)).unwrap();
    assert_eq!(parsed.error, "version_conflict");
    assert_eq!(parsed.policy.current_version, 7);
    assert_eq!(parsed.policy.name, "governance.rego");
}

#[test]
fn parse_conflict_returns_none_for_plain_text() {
    assert!(PoliciesClient::parse_conflict(conflict("policy already exists")).is_none());
}

#[test]
fn policies_list_decodes_into_typed_rows() {
    let request = engine().list(false).unwrap();
    assert_eq!(request.method, Method::Get);
    assert_eq!(request.url.as_str(), "http://127.0.0.1:54321/policies");
    let raw = r#"[
        {"name": "governance.rego", "content_type": "rego", "active": true,
         "current_version": 3, "deleted_at": null,
         "created_at": "2026-05-08T00:00:00Z", "updated_at": "2026-05-08T01:00:00Z"},
        {"name": "attestation_allowlist.json", "content_type": "json", "active": true,
         "current_version": 1, "deleted_at": null,
         "created_at": "2026-05-08T00:00:00Z", "updated_at": "2026-05-08T00:00:00Z"}
    ]"#;
    let values: Vec<Value> = serde_json::from_str(raw).unwrap();
    let decoded = Ok(PoliciesListResponse { policies: values.iter().map(row).collect() });
    let rows = PoliciesClient::list_reply(200, raw.to_owned(), decoded).expect("list");
    assert_eq!(rows.len(), 2);
    assert_eq!(rows[0].name, "governance.rego");
    assert_eq!(rows[0].current_version, 3);
    assert_eq!(rows[1].content_type, "json");
}

#[test]
fn policies_create_round_trips_typed_request_and_response() {
    let req = CreatePolicyRequest {
        name: "extra.rego",
        content_type: "rego",
        body: "package warden.authz\nimport rego.v1\ndefault allow := false",
        reason: "test",
        actor_sub: "alice",
        actor_idp: "oidc:test",
    };
    let request = engine().create(&req).unwrap();
    assert_eq!(request.method, Method::Post);
    assert_eq!(request.url.as_str(), "http://127.0.0.1:54321/policies");
    assert_eq!(request.body.name, "extra.rego");
    assert_eq!(request.body.content_type, "rego");
    assert_eq!(request.body.reason, "test");
    assert_eq!(request.body.actor_sub, "alice");
    assert_eq!(request.body.actor_idp, "oidc:test");
    let decoded = Ok(MutationResponse {
        name: "extra.rego".into(),
        version: 1,
        body_sha256: "deadbeef".into(),
        current_version: 1,
        active: true,
        event_kind: "policy.created".into(),
    });
    let resp = PoliciesClient::read_reply(201, String::new(), decoded).expect("create");
    assert_eq!(resp.event_kind, "policy.created");
    assert_eq!(resp.version, 1);
}

#[test]
fn policies_update_409_carries_conflict_response() {
    let req = UpdatePolicyRequest {
        body: "package warden.authz\ndefault allow := false",
        reason: "test",
        actor_sub: "alice",
        actor_idp: "oidc:test",
        expected_current_version: 1,
    };
    let request = engine().update("governance.rego", &req).unwrap();
    assert_eq!(request.method, Method::Put);
    assert_eq!(request.url.as_str(), "http://127.0.0.1:54321/policies/governance.rego");
    assert_eq!(request.body.expected_current_version, 1);

    let undecoded: Result<Vec<Value>, serde_json::Error> = serde_json::from_str(LATER_CONFLICT);
    let err = match PoliciesClient::read_reply(409, LATER_CONFLICT.to_owned(), undecoded) {
        Ok(_) => panic!("expected 409"),
        Err(e) => e,
    };
    let WardenError::Server { status, body } = err else {
        panic!("expected Server, got {err:?}");
    };
    assert_eq!(status, 409);
    let conflict = PoliciesClient::parse_conflict(conflict(&body)).expect("parse_conflict");
    assert_eq!(conflict.error, "version_conflict");
    assert_eq!(conflict.policy.current_version, 7);
}

#[test]
fn deleted_policies_are_listed_on_request() {
    let request = engine().list(true).unwrap();
    assert_eq!(
        request.url.as_str(),
        "http://127.0.0.1:54321/policies?include_deleted=true"
    );
}

#[test]
fn policy_urls() {
    let client = engine().with_bearer("token".to_owned());
    let get = client.get("a/b c").unwrap();
    assert_eq!(get.method, Method::Get);
    assert_eq!(get.url.as_str(), "http://127.0.0.1:54321/policies/a%2Fb%20c");
    assert_eq!(get.bearer.as_deref(), Some("token"));
    let versions = client.list_versions("p.rego").unwrap();
    assert_eq!(versions.url.as_str(), "http://127.0.0.1:54321/policies/p.rego/versions");
    let version = client.get_version("p.rego", 12).unwrap();
    assert_eq!(version.url.as_str(), "http://127.0.0.1:54321/policies/p.rego/versions/12");
    let diff = client.diff("p.rego", 3, -4).unwrap();
    assert_eq!(diff.method, Method::Get);
    assert_eq!(diff.url.as_str(), "http://127.0.0.1:54321/policies/p.rego/diff?from=3&to=-4");
    assert_eq!(diff.bearer.as_deref(), Some("token"));
}

#[test]
fn policy_changes() {
    let client = engine();
    let change = state_change();
    let activate = client.activate("p", &change).unwrap();
    assert_eq!(activate.method, Method::Post);
    assert_eq!(activate.url.as_str(), "http://127.0.0.1:54321/policies/p/activate");
    assert_eq!(activate.body.expected_current_version, 3);
    let deactivate = client.deactivate("p", &change).unwrap();
    assert_eq!(deactivate.method, Method::Post);
    assert_eq!(deactivate.url.as_str(), "http://127.0.0.1:54321/policies/p/deactivate");
    let delete = client.delete("p", &change).unwrap();
    assert_eq!(delete.method, Method::Delete);
    assert_eq!(delete.url.as_str(), "http://127.0.0.1:54321/policies/p");
    let back = RollbackRequest { reason: "r", actor_sub: "s", actor_idp: "i" };
    let rollback = client.rollback("p", 5, &back).unwrap();
    assert_eq!(rollback.method, Method::Post);
    assert_eq!(rollback.url.as_str(), "http://127.0.0.1:54321/policies/p/rollback/5");
    assert_eq!(rollback.body.reason, "r");
    assert!(rollback.bearer.is_none());
}

#[test]
fn different_policies_have_different_urls() {
    let url = |name: &str| engine().get(name).unwrap().url.as_str().to_owned();
    let versions = |name: &str| engine().list_versions(name).unwrap().url.as_str().to_owned();
    assert_ne!(url("a"), url("A"));
    assert_ne!(url("a/versions"), versions("a"));
    let version = |name: &str, n: i64| {
        engine().get_version(name, n).unwrap().url.as_str().to_owned()
    };
    assert_ne!(version("a", 1), version("a", -1));
    assert_ne!(version("a", 1), version("a/versions/1", 1));
}

#[test]
fn different_diffs_have_different_urls() {
    let url = |name: &str, from: i64, to: i64| engine().diff(name, from, to).unwrap().url;
    assert_ne!(url("p", 1, 2), url("p", 2, 1));
    assert_ne!(url("p", 1, 22), url("p", 12, 2));
    assert_ne!(url("p", 1, 2), url("p", -1, 2));
    assert_ne!(url("p", 1, 2), url("q", 1, 2));
    assert_ne!(engine().list(true).unwrap().url, engine().list(false).unwrap().url);
}

#[test]
fn tokens_of_the_policies_client() {
    let client = engine();
    assert!(!client.has_bearer());
    let client = client.with_bearer("a".to_owned()).with_bearer("b".to_owned());
    assert!(client.has_bearer());
    assert!(client.clone().has_bearer());
    assert_eq!(client.get("p").unwrap().bearer.as_deref(), Some("b"));
    assert_eq!(client.base_url().as_str(), "http://127.0.0.1:54321/");
}

#[test]
fn policies_replies_by_status() {
    let read = |status: u16| PoliciesClient::read_reply(status, "why".to_owned(), Ok(7u8));
    assert_eq!(read(200).unwrap(), 7);
    assert_eq!(read(201).unwrap(), 7);
    assert!(matches!(read(401), Err(WardenError::Unauthorized(b)) if b == "why"));
    assert!(matches!(read(400), Err(WardenError::BadRequest(b)) if b == "why"));
    for status in [403, 404, 409, 500] {
        assert!(matches!(
            read(status),
            Err(WardenError::Server { status: s, body }) if s == status && body == "why"
        ));
    }
    let undecoded: Result<u8, serde_json::Error> = serde_json::from_str("x");
    assert!(matches!(
        PoliciesClient::read_reply(201, "x".to_owned(), undecoded),
        Err(WardenError::Decode(_))
    ));
}

#[test]
fn versions_are_taken_out_of_their_wrapper() {
    let version = PolicyVersionRow {
        name: "p".into(),
        version: 2,
        body: "b".into(),
        body_sha256: "h".into(),
        reason: "r".into(),
        actor_sub: "s".into(),
        actor_idp: "i".into(),
        chain_seq: Some(9),
        created_at: "2026-05-08T00:00:00Z".into(),
    };
    let decoded = Ok(VersionsListResponse { versions: vec![version] });
    let rows = PoliciesClient::list_versions_reply(200, String::new(), decoded).unwrap();
    assert_eq!(rows.len(), 1);
    assert_eq!(rows[0].version, 2);
    let decoded = Ok(VersionsListResponse { versions: vec![] });
    assert!(matches!(
        PoliciesClient::list_versions_reply(500, "down".to_owned(), decoded),
        Err(WardenError::Server { status: 500, .. })
    ));
}

#[test]
fn a_policy_path_that_makes_no_url_is_named_in_the_error() {
    let client = PoliciesClient::new("mailto:a@b.test").unwrap();
    let message = |e: WardenError| match e {
        WardenError::InvalidConfig(message) => message,
        other => panic!("expected InvalidConfig, got {other:?}"),
    };
    let reason = "relative URL with a cannot-be-a-base base";
    assert_eq!(message(client.list(true).unwrap_err()), format!("join policies: {reason}"));
    assert_eq!(message(client.list(false).unwrap_err()), format!("join policies: {reason}"));
    assert_eq!(
        message(client.diff("p q", 1, 2).unwrap_err()),
        format!("join policies/p%20q/diff: {reason}")
    );
    assert_eq!(
        message(client.get_version("p", 1).unwrap_err()),
        format!("join policies/p/versions/1: {reason}")
    );
}
