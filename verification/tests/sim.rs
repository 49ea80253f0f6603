use serde_json::Value;
use warden_sdk::{Method, SimClient, SpawnedAgents, WardenError};

fn json(text: &str) -> Value {
    serde_json::from_str(text).unwrap()
}

fn sim() -> SimClient {
    SimClient::new("http://simulator:9100").unwrap()
}

#[test]
fn sim_client_surfaces_configured_base_url() {
    let client = SimClient::new("http://simulator:9100/").unwrap();
    assert_eq!(client.base_url().as_str(), "http://simulator:9100/");
    assert_eq!(client.clone().base_url().as_str(), "http://simulator:9100/");
}

#[test]
fn status_is_read_with_a_get() {
    let request = sim().status().unwrap();
    assert_eq!(request.method, Method::Get);
    assert_eq!(request.url.as_str(), "http://simulator:9100/status");
    assert!(request.bearer.is_none());
}

#[test]
fn the_multiplier_is_posted() {
    let request = sim().set_multiplier(Value::from(2.5)).unwrap();
    assert_eq!(request.method, Method::Post);
    assert_eq!(request.url.as_str(), "http://simulator:9100/multiplier");
    assert_eq!(request.body, json(r#"{"traffic_multiplier": 2.5}"#));
    assert!(request.bearer.is_none());
}

#[test]
fn the_run_flag_is_posted() {
    let request = sim().set_running(true).unwrap();
    assert_eq!(request.url.as_str(), "http://simulator:9100/running");
    assert_eq!(request.body, json(r#"{"running": true}"#));
    assert_eq!(sim().set_running(false).unwrap().body, json(r#"{"running": false}"#));
}

#[test]
fn the_auto_decide_flag_is_posted() {
    let request = sim().set_auto_decide(false).unwrap();
    assert_eq!(request.method, Method::Post);
    assert_eq!(request.url.as_str(), "http://simulator:9100/auto-decide");
    assert_eq!(request.body, json(r#"{"enabled": false}"#));
}

#[test]
fn new_agents_are_posted() {
    let request = sim().add_agents("cs-bot", 3).unwrap();
    assert_eq!(request.method, Method::Post);
    assert_eq!(request.url.as_str(), "http://simulator:9100/agents");
    assert_eq!(request.body, json(r#"{"persona": "cs-bot", "count": 3}"#));
    let decoded = Ok(SpawnedAgents { spawned: vec!["cs-bot-t1".into(), "cs-bot-t2".into()] });
    let names = SimClient::add_agents_reply(200, String::new(), decoded).unwrap();
    assert_eq!(names, ["cs-bot-t1", "cs-bot-t2"]);
}

#[test]
fn sim_replies_by_status() {
    let read = |status: u16| SimClient::read_reply(status, "why".to_owned(), Ok(7u8));
    assert_eq!(read(200).unwrap(), 7);
    for status in [201, 400, 401, 404, 409, 500] {
        match read(status) {
            Err(WardenError::Server { status: s, body }) => {
                assert_eq!(s, status);
                assert_eq!(body, "why");
            }
            other => panic!("expected Server, got {other:?}"),
        }
    }
    let decoded = Ok(SpawnedAgents { spawned: vec![] });
    assert!(matches!(
        SimClient::add_agents_reply(409, "no sidecar".to_owned(), decoded),
        Err(WardenError::Server { status: 409, .. })
    ));
    let undecoded: Result<u8, serde_json::Error> = serde_json::from_str("x");
    assert!(matches!(
        SimClient::read_reply(200, "x".to_owned(), undecoded),
        Err(WardenError::Decode(_))
    ));
}

#[test]
fn sim_rejects_malformed_base_url() {
    assert!(matches!(
        SimClient::new(""),
        Err(WardenError::InvalidConfig(m)) if m == "base_url: relative URL without a base"
    ));
    let client = SimClient::new("mailto:a@b.test").unwrap();
    assert!(matches!(
        client.set_auto_decide(true),
        Err(WardenError::InvalidConfig(m))
            if m == "join auto-decide: relative URL with a cannot-be-a-base base"
    ));
}
