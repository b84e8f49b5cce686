use buzz_device::json::{Json, JsonNumber};
use buzz_device::linear::{
    connect_key, connect_outcome, connection_from_viewer, connection_outcome, disconnected, get_outcome,
    graphql_outcome, http_error_text, issue_from_graphql, issue_from_payload, issues_from_payload, json_has_secret,
    mock_connection, mock_get, mock_issues, mock_search, redact_secret, search_outcome, search_request, stored_key,
    LinearConnection, LinearSecretSlot, IDENTITY_SLOT, LINEAR_GRAPHQL_URL, LINEAR_SECRET_SLOT, LIST_QUERY, SEARCH_QUERY,
};
use std::sync::Mutex;

fn text(s: &str) -> Json {
    Json::Str(s.to_string())
}

fn object(members: Vec<(&str, Json)>) -> Json {
    Json::Object(members.into_iter().map(|(k, v)| (k.to_string(), v)).collect())
}

fn issue_node() -> Json {
    object(vec![
        ("id", text("issue-1")),
        ("identifier", text("AQU-1")),
        ("title", text("Real-shaped tank")),
        ("url", text("https://linear.app/aquarium-test/issue/AQU-1")),
        ("state", object(vec![("name", text("Todo"))])),
        ("project", object(vec![("name", text("Aquarium"))])),
    ])
}

struct MapSlot(Mutex<Option<String>>);

impl LinearSecretSlot for MapSlot {
    fn store(&self, value: &str) -> Result<(), String> {
        *self.0.lock().expect("map slot") = Some(value.to_string());
        Ok(())
    }
    fn load(&self) -> Result<Option<String>, String> {
        Ok(self.0.lock().expect("map slot").clone())
    }
    fn delete(&self) -> Result<(), String> {
        *self.0.lock().expect("map slot") = None;
        Ok(())
    }
}

/// Connect as the desktop does: trim the key, take the transport's answer,
/// store the key only when the decision says so.
fn connect(slot: &MapSlot, api_key: &str, verified: impl FnOnce(&str) -> Result<LinearConnection, String>) -> Result<LinearConnection, String> {
    let key = connect_key(api_key)?;
    let (conn, store) = connect_outcome(&key, verified(&key))?;
    if store {
        slot.store(&key)?;
    }
    Ok(conn)
}

#[test]
fn production_has_no_magic_fixture_prefix() {
    assert_eq!(LINEAR_GRAPHQL_URL, "https://api.linear.app/graphql");
    let slot = MapSlot(Mutex::new(None));
    let rejected = graphql_outcome(401, None).map(|_| mock_connection()).map_err(|e| e.to_string());
    let conn = connect(&slot, "lin_fixture_not_real", |_| rejected).unwrap_or_else(|m| disconnected(&m));
    assert!(!conn.connected);
    assert!(slot.load().unwrap().is_none());
}

#[test]
fn no_aquarium_linear_secret_get() {
    let slot = MapSlot(Mutex::new(None));
    let key = "lin_api_real_test_key";
    let viewer = object(vec![("data", object(vec![("viewer", object(vec![("id", text("user-1"))]))]))]);
    let conn = connect(&slot, key, |_| connection_from_viewer(&viewer)).unwrap();
    assert!(!json_has_secret(&conn.to_json(), key));
    let status = connection_outcome(key, connection_from_viewer(&viewer)).unwrap();
    assert!(!json_has_secret(&status.to_json(), key));
    let echoed = LinearConnection {
        source: "linear".into(),
        connected: true,
        workspace_name: Some(key.to_string()),
        message: "connected".into(),
    };
    assert_eq!(connection_outcome(key, Ok(echoed)), Err("linear connection refused to emit a credential".to_string()));
}

#[test]
fn linear_slot_is_not_identity_nsec() {
    assert_eq!(LINEAR_SECRET_SLOT, "aquarium-linear-api-key");
    assert_ne!(LINEAR_SECRET_SLOT, IDENTITY_SLOT);
    assert!(!LINEAR_SECRET_SLOT.contains("nsec"));
    assert!(!LINEAR_SECRET_SLOT.contains("identity"));
}

#[test]
fn explicit_mock_mode_is_source_mock_not_live() {
    let slot = MapSlot(Mutex::new(None));
    let key = "lin_fixture_demo_secret";
    let conn = connect(&slot, key, |_| Ok(mock_connection())).unwrap();
    assert!(!json_has_secret(&conn.to_json(), key));
    assert_eq!(conn.source, "mock");
    assert!(!conn.connected, "mock must not auto-bind as live Linear");
    let stored = stored_key(slot.load().unwrap()).unwrap();
    let issues = search_outcome(&stored, Ok(mock_search("tank"))).unwrap();
    assert_eq!(issues.len(), 1);
    assert_eq!(issues[0].source, "mock");
    assert!(issues.iter().all(|issue| issue.source == "mock"));
}

#[test]
fn magic_prefix_without_http_success_is_not_live_linear() {
    let slot = MapSlot(Mutex::new(None));
    let answer = graphql_outcome(401, Some(object(vec![("errors", Json::Array(vec![object(vec![])]))])));
    let conn = connect(&slot, "lin_fixture_not_real", |_| answer.and_then(|p| connection_from_viewer(&p)))
        .unwrap_or_else(|message| disconnected(&message));
    assert_ne!((conn.source.as_str(), conn.connected), ("linear", true));
    assert!(!conn.connected);
    assert!(!conn.message.contains("lin_fixture_not_real"));
}

#[test]
fn viewer_success_via_mock_http_is_source_linear() {
    let key = "lin_api_real_test_key";
    let slot = MapSlot(Mutex::new(None));
    let viewer = object(vec![(
        "data",
        object(vec![
            ("viewer", object(vec![("id", text("user-1")), ("name", text("Test User"))])),
            ("organization", object(vec![("id", text("org-1")), ("name", text("Aquarium Test Org")), ("urlKey", text("aquarium-test"))])),
        ]),
    )]);
    let payload = graphql_outcome(200, Some(viewer)).unwrap();
    let conn = connect(&slot, key, |_| connection_from_viewer(&payload)).unwrap();
    assert_eq!(conn.source, "linear");
    assert!(conn.connected);
    assert_eq!(conn.workspace_name.as_deref(), Some("Aquarium Test Org"));
    assert!(!json_has_secret(&conn.to_json(), key));
    assert_eq!(slot.load().unwrap().as_deref(), Some(key));
    let search_payload = object(vec![("data", object(vec![("searchIssues", object(vec![("nodes", Json::Array(vec![issue_node()]))]))]))]);
    let issues = search_outcome(key, Ok(issues_from_payload(&search_payload, "tank"))).unwrap();
    assert_eq!(issues.len(), 1);
    assert_eq!(issues[0].source, "linear");
    assert_eq!(issues[0].identifier, "AQU-1");
    let get_payload = object(vec![("data", object(vec![("issue", issue_node())]))]);
    let issue = get_outcome(key, Ok(issue_from_payload(&get_payload))).unwrap().expect("issue");
    assert_eq!(issue.source, "linear");
    assert_eq!(issue.id, "issue-1");
}

#[test]
fn no_http_without_stored_key() {
    let slot = MapSlot(Mutex::new(None));
    let err = stored_key(slot.load().unwrap()).unwrap_err();
    assert!(err.contains("not connected"), "{err}");
    let conn = disconnected("not connected");
    assert!(!conn.connected);
    assert_eq!(conn.source, "linear");
}

#[test]
fn rejected_key_does_not_echo_secret() {
    let slot = MapSlot(Mutex::new(None));
    let key = "lin_api_wrong_secret_value";
    let err = connect(&slot, key, |k| Err(format!("linear said {k} was wrong"))).unwrap_err();
    assert!(!err.contains(key), "{err}");
    assert_eq!(err, "linear said [redacted] was wrong");
    let err = connect(&slot, key, |_| graphql_outcome(401, None).map(|_| mock_connection())).unwrap_err();
    assert!(err.contains("rejected") || err.contains("linear"), "{err}");
    assert!(slot.load().unwrap().is_none());
}

#[test]
fn map_slot_round_trip_delete() {
    let slot = MapSlot(Mutex::new(None));
    slot.store("lin_api_x").unwrap();
    assert_eq!(slot.load().unwrap().as_deref(), Some("lin_api_x"));
    slot.delete().unwrap();
    assert!(slot.load().unwrap().is_none());
}

#[test]
fn blank_key_is_refused() {
    assert_eq!(connect_key("   "), Err("linear api key is required".to_string()));
    assert_eq!(connect_key("  lin_api_x \n"), Ok("lin_api_x".to_string()));
}

#[test]
fn redaction_replaces_every_occurrence() {
    assert_eq!(redact_secret("k and k", "k"), "[redacted] and [redacted]");
    assert_eq!(redact_secret("nothing here", "secret"), "nothing here");
    assert_eq!(redact_secret("anything", ""), "anything");
    assert_eq!(redact_secret("aaa", "aa"), "[redacted]a");
}

#[test]
fn secret_detection_reads_escaped_json_text() {
    let value = object(vec![("message", text("say \"hi\""))]);
    assert!(json_has_secret(&value, "\\\"hi\\\""));
    assert!(!json_has_secret(&value, "\"hi\""));
    assert!(json_has_secret(&object(vec![("n", Json::Number(JsonNumber::Unsigned(1234)))]), "\"n\":1234"));
    assert!(!json_has_secret(&value, ""));
}

#[test]
fn graphql_status_handling() {
    assert_eq!(graphql_outcome(403, None), Err("linear rejected the API key".to_string()));
    assert_eq!(graphql_outcome(500, None), Err("linear http 500".to_string()));
    assert_eq!(graphql_outcome(200, None), Err("linear returned a non-JSON body".to_string()));
    assert_eq!(
        graphql_outcome(200, Some(object(vec![("errors", Json::Array(vec![text("x")]))]))),
        Err("linear graphql returned errors".to_string())
    );
    assert!(graphql_outcome(204, Some(object(vec![("errors", Json::Array(vec![]))]))).is_ok());
    assert_eq!(http_error_text(true, true), "linear unreachable: request timed out");
    assert_eq!(http_error_text(false, true), "linear unreachable: could not connect");
    assert_eq!(http_error_text(false, false), "linear unreachable: network error");
}

#[test]
fn graphql_nodes_are_mapped_and_invalid_ones_skipped() {
    let list = object(vec![(
        "data",
        object(vec![("issues", object(vec![("nodes", Json::Array(vec![issue_node(), object(vec![("id", text(""))]), text("x")]))]))]),
    )]);
    let issues = issues_from_payload(&list, "  ");
    assert_eq!(issues.len(), 1);
    assert_eq!(issues[0].status, "Todo");
    assert_eq!(issues[0].project_name.as_deref(), Some("Aquarium"));
    assert!(issues_from_payload(&list, "tank").is_empty());
    let bare = issue_from_graphql(&object(vec![("id", text("i")), ("identifier", text("A-2"))]), "linear").unwrap();
    assert_eq!(bare.title, "");
    assert_eq!(bare.status, "");
    assert_eq!(bare.url, None);
    assert!(issue_from_payload(&object(vec![("data", object(vec![("issue", Json::Null)]))])).is_none());
    assert_eq!(
        connection_from_viewer(&object(vec![])),
        Err("linear connect missing data".to_string())
    );
    assert_eq!(
        connection_from_viewer(&object(vec![("data", object(vec![("viewer", Json::Null)]))])),
        Err("linear connect did not return a viewer".to_string())
    );
}

#[test]
fn mock_fixture_search_and_get() {
    assert_eq!(mock_issues().len(), 1);
    assert_eq!(mock_search("").len(), 1);
    assert_eq!(mock_search("FIXTURE").len(), 1);
    assert_eq!(mock_search("aqu-1").len(), 1);
    assert!(mock_search("zzz").is_empty());
    assert_eq!(mock_get("AQU-1").unwrap().id, "fixture-issue-1");
    assert_eq!(mock_get("fixture-issue-1").unwrap().identifier, "AQU-1");
    assert!(mock_get("AQU-2").is_none());
}

#[test]
fn search_request_picks_list_or_search() {
    let blank = search_request(" ");
    assert_eq!(blank.get("query").and_then(|q| q.as_str()).map(|s| s.as_str()), Some(LIST_QUERY));
    let search = search_request("tank");
    assert_eq!(search.get("query").and_then(|q| q.as_str()).map(|s| s.as_str()), Some(SEARCH_QUERY));
    assert_eq!(
        search.get("variables").and_then(|v| v.get("term")).and_then(|t| t.as_str()).map(|s| s.as_str()),
        Some("tank")
    );
}

#[test]
fn redacted_errors_do_not_echo_ordinary_keys() {
    let key = "lin_api_abc";
    let out = redact_secret("lin_api_abclin_api_abc: lin_api_abc!", key);
    assert_eq!(out, "[redacted][redacted]: [redacted]!");
    assert!(!out.contains(key));
    assert_eq!(redact_secret("d]xx", "d]x"), "[redacted]x");
}
