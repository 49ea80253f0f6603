use serde_json::Value;
use warden_sdk::{
    decode_json_body, parse_veto, Auth, DenyResponse, Method, WardenClient, WardenError,
};

const PROXY: &str = "http://127.0.0.1:54321";

fn texts(v: &Value) -> Vec<String> {
    match v.as_array() {
        Some(items) => items.iter().map(|t| t.as_str().unwrap().to_owned()).collect(),
        None => Vec::new(),
    }
}

/// What a body is as a `DenyResponse`.
fn deny(raw: &str) -> Result<DenyResponse, serde_json::Error> {
    let v: Value = serde_json::from_str(raw)?;
    Ok(DenyResponse {
        reasons: texts(&v["reasons"]),
        review_reasons: texts(&v["review_reasons"]),
        intent_category: v["intent_category"].as_str().unwrap_or("").to_owned(),
    })
}

fn json(text: &str) -> Value {
    serde_json::from_str(text).unwrap()
}

fn reply(status: u16, raw: &str) -> Result<Value, WardenError> {
    WardenClient::read_reply(status, raw.to_owned(), deny(raw))
}

#[test]
fn parse_veto_with_structured_body() {
    let body = r#"{
            "error": "security_violation",
            "reasons": ["Direct execution of SQL queries is prohibited."],
            "review_reasons": [],
            "intent_category": "DangerousTool"
        }"#;
    match parse_veto(body, deny(body)) {
        WardenError::Veto { intent_category, reasons, review_reasons, raw } => {
            assert_eq!(intent_category, "DangerousTool");
            assert_eq!(reasons.len(), 1);
            assert!(review_reasons.is_empty());
            assert_eq!(raw, body);
        }
        other => panic!("expected Veto, got {other:?}"),
    }
}

#[test]
fn parse_veto_with_plain_text_body() {
    let body = "Security Violation: shell_exec is denied for this agent";
    match parse_veto(body, deny(body)) {
        WardenError::Veto { intent_category, reasons, review_reasons, raw } => {
            assert!(intent_category.is_empty());
            assert!(reasons.is_empty());
            assert!(review_reasons.is_empty());
            assert_eq!(raw, body);
        }
        other => panic!("expected Veto, got {other:?}"),
    }
}

#[test]
fn parse_veto_with_partial_body_keeps_present_fields() {
    let body = r#"{ "intent_category": "Velocity" }"#;
    match parse_veto(body, deny(body)) {
        WardenError::Veto { intent_category, reasons, .. } => {
            assert_eq!(intent_category, "Velocity");
            assert!(reasons.is_empty());
        }
        other => panic!("expected Veto, got {other:?}"),
    }
}

#[test]
fn builder_rejects_invalid_url() {
    let err = WardenClient::builder("not a url").unwrap_err();
    match err {
        WardenError::InvalidConfig(msg) => {
            assert!(msg.contains("base_url"));
            assert_eq!(msg, "base_url: relative URL without a base");
        }
        other => panic!("expected InvalidConfig, got {other:?}"),
    }
}

#[test]
fn call_tool_happy_path_returns_upstream_json() {
    let mut client = WardenClient::builder(PROXY).unwrap().build();
    let request = client.call_tool("search", json(r#"{"q": "rust async"}"#)).unwrap();
    assert_eq!(request.method, Method::Post);
    assert_eq!(request.url.as_str(), "http://127.0.0.1:54321/mcp");
    assert!(request.bearer.is_none());
    assert_eq!(
        request.body,
        json(
            r#"{"jsonrpc": "2.0", "id": 1, "method": "tools/call",
                "params": {"name": "search", "arguments": {"q": "rust async"}}}"#
        )
    );

    let raw = r#"{"jsonrpc": "2.0", "id": 1,
                  "result": {"content": [{"type": "text", "text": "ok"}]}}"#;
    let value = reply(200, raw).expect("happy path");
    assert_eq!(value["jsonrpc"], "2.0");
    assert_eq!(value["result"]["content"][0]["text"], "ok");
}

#[test]
fn call_tool_structured_veto_parses_fields() {
    let body = r#"{"error":"security_violation",
        "reasons":["Direct execution of SQL queries is prohibited."],
        "review_reasons":[],"intent_category":"DangerousTool"}"#;
    match reply(403, body).expect_err("expected veto") {
        WardenError::Veto { intent_category, reasons, review_reasons, raw } => {
            assert_eq!(intent_category, "DangerousTool");
            assert_eq!(reasons.len(), 1);
            assert!(reasons[0].contains("SQL"));
            assert!(review_reasons.is_empty());
            assert!(raw.contains("security_violation"));
        }
        other => panic!("expected Veto, got {other:?}"),
    }
}

#[test]
fn call_tool_plain_text_veto_keeps_body_in_raw() {
    let body = "Security Violation: shell_exec is denied for this agent";
    match reply(403, body).expect_err("expected veto") {
        WardenError::Veto { intent_category, reasons, review_reasons, raw } => {
            assert!(intent_category.is_empty());
            assert!(reasons.is_empty());
            assert!(review_reasons.is_empty());
            assert!(raw.starts_with("Security Violation"));
            assert_eq!(raw, body);
        }
        other => panic!("expected Veto, got {other:?}"),
    }
}

#[test]
fn unauthorized_response_maps_to_unauthorized_error() {
    match reply(401, "missing or invalid bearer token").expect_err("expected unauthorized") {
        WardenError::Unauthorized(body) => assert!(body.contains("bearer")),
        other => panic!("expected Unauthorized, got {other:?}"),
    }
}

#[test]
fn bad_request_maps_to_bad_request_error() {
    let raw = "invalid JSON-RPC body: missing field `method`";
    match reply(400, raw).expect_err("expected bad request") {
        WardenError::BadRequest(body) => assert!(body.contains("method")),
        other => panic!("expected BadRequest, got {other:?}"),
    }
}

#[test]
fn bearer_token_is_forwarded_in_authorization_header() {
    let mut client = WardenClient::builder(PROXY)
        .unwrap()
        .auth(Auth::Bearer("secret-token".into()))
        .build();
    let request = client.call_tool("search", json("{}")).unwrap();
    assert_eq!(request.bearer.as_deref(), Some("secret-token"));
    let value = reply(200, r#"{"jsonrpc":"2.0","id":1,"result":"ok"}"#)
        .expect("token should be accepted");
    assert_eq!(value["result"], "ok");
}

#[test]
fn the_last_credentials_count() {
    let mut client = WardenClient::builder(PROXY)
        .unwrap()
        .auth(Auth::Bearer("first".into()))
        .auth(Auth::Anonymous)
        .build();
    assert!(client.call_tool("t", Value::Null).unwrap().bearer.is_none());
}

#[test]
fn every_other_status_is_a_server_error() {
    for status in [201, 204, 301, 402, 404, 409, 429, 500, 503] {
        match reply(status, "{}").expect_err("no success") {
            WardenError::Server { status: s, body } => {
                assert_eq!(s, status);
                assert_eq!(body, "{}");
            }
            other => panic!("expected Server, got {other:?}"),
        }
    }
}

#[test]
fn a_success_that_is_no_json_is_a_decode_error() {
    assert!(matches!(reply(200, "<html>"), Err(WardenError::Decode(_))));
    assert!(matches!(decode_json_body(""), Err(WardenError::Decode(_))));
    assert_eq!(decode_json_body(" [1, 2] ").unwrap(), json("[1,2]"));
}

#[test]
fn requests_are_numbered_from_one() {
    let mut client = WardenClient::builder(PROXY).unwrap().build();
    let first = client.call_tool("a", Value::Null).unwrap();
    let second = client.send_jsonrpc("tools/list", json("{}")).unwrap();
    let third = client.call_tool("a", Value::Null).unwrap();
    assert_eq!(first.body["id"], 1);
    assert_eq!(second.body["id"], 2);
    assert_eq!(third.body["id"], 3);
}

#[test]
fn send_jsonrpc_sends_method_and_params_as_they_are() {
    let mut client = WardenClient::builder(PROXY).unwrap().build();
    let request = client.send_jsonrpc("tools/list", json(r#"{"cursor": null}"#)).unwrap();
    assert_eq!(request.method, Method::Post);
    assert_eq!(
        request.body,
        json(r#"{"jsonrpc":"2.0","id":1,"method":"tools/list","params":{"cursor":null}}"#)
    );
}

#[test]
fn mcp_is_appended_to_the_directory_of_the_base_url() {
    let url = |base: &str| {
        let mut client = WardenClient::builder(base).unwrap().build();
        client.call_tool("t", Value::Null).unwrap().url.as_str().to_owned()
    };
    assert_eq!(url("https://proxy.test"), "https://proxy.test/mcp");
    assert_eq!(url("https://proxy.test/a/b/"), "https://proxy.test/a/b/mcp");
    assert_eq!(url("https://proxy.test/a/b"), "https://proxy.test/a/mcp");
    assert_eq!(url("https://proxy.test/a/?q=1/2#f/g"), "https://proxy.test/a/mcp");
}

#[test]
fn a_base_url_that_takes_no_path_is_a_configuration_error() {
    let mut client = WardenClient::builder("mailto:alice@acme.test").unwrap().build();
    match client.call_tool("t", Value::Null) {
        Err(WardenError::InvalidConfig(message)) => {
            assert_eq!(message, "join /mcp: relative URL with a cannot-be-a-base base");
        }
        other => panic!("expected InvalidConfig, got {other:?}"),
    }
    let mut client = WardenClient::builder("mailto:alice@acme.test").unwrap().build();
    assert!(client.send_jsonrpc("m", Value::Null).is_err());
}
