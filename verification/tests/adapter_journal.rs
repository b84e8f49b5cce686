use buzz_device::adapter::{capabilities_from_inspect_evidence, op_result_from_receipt, AdapterSource};
use buzz_device::host::DeviceError;
use buzz_device::coord::CoordError;
use buzz_device::journal::{Journal, JournalEntry, RequestState};
use buzz_device::json::{Json, JsonNumber};
use buzz_device::wire::{DeviceReceipt, ReceiptStatus};

fn text(s: &str) -> Json {
    Json::Str(s.to_string())
}

fn object(members: Vec<(&str, Json)>) -> Json {
    Json::Object(members.into_iter().map(|(k, v)| (k.to_string(), v)).collect())
}

#[test]
fn inspect_mapping_is_device_source_and_refuses_empty() {
    let err = capabilities_from_inspect_evidence(&object(vec![])).unwrap_err();
    assert!(err.message().contains("refusing local fallback"));

    let caps = capabilities_from_inspect_evidence(&object(vec![
        ("device_id", text("dev-1")),
        ("device_pubkey_hex", text(&"aa".repeat(32))),
        ("online", Json::Bool(true)),
        ("protocol_version", Json::Number(JsonNumber::Unsigned(1))),
        ("harnesses", Json::Array(vec![text("fixture-agent")])),
        ("setup_readiness", text("ready")),
        ("grant_generation", Json::Number(JsonNumber::Unsigned(3))),
    ]))
    .unwrap();
    assert_eq!(caps.source, AdapterSource::Device);
    assert_ne!(caps.source, AdapterSource::Mock);
    assert_eq!(caps.device_id, "dev-1");
    assert_eq!(caps.grant_generation, 3);
    assert!(caps.online);
    assert_eq!(caps.harnesses, vec!["fixture-agent".to_string()]);
    assert_eq!(caps.protocol_version, "1");
}

#[test]
fn receipt_mapping_never_marks_mock_or_local_success_on_failure() {
    let receipt = DeviceReceipt {
        v: 1,
        request_id: "1788581600001-bbbbbbbbbbbbbbbbbbbbbbbbbbbbbbbb".into(),
        fingerprint: "fp".into(),
        status: ReceiptStatus::Failed,
        evidence: Json::Null,
        error: Some("device offline".into()),
    };
    let result = op_result_from_receipt(&receipt);
    assert_eq!(result.source, AdapterSource::Device);
    assert_eq!(result.status, "failed");
    assert_eq!(result.message, "device offline");
    assert_eq!(result.request_id.as_deref(), Some("1788581600001-bbbbbbbbbbbbbbbbbbbbbbbbbbbbbbbb"));
}

#[test]
fn successful_checkout_receipt_maps_evidence() {
    let receipt = DeviceReceipt {
        v: 1,
        request_id: "1788581600001-bbbbbbbbbbbbbbbbbbbbbbbbbbbbbbbb".into(),
        fingerprint: "fp".into(),
        status: ReceiptStatus::Succeeded,
        evidence: object(vec![("path", text("/srv/tanks/t1")), ("branch", text("aquarium/t1")), ("head", text("abc"))]),
        error: None,
    };
    let result = op_result_from_receipt(&receipt);
    assert_eq!(result.source, AdapterSource::Device);
    assert_eq!(result.status, "succeeded");
    assert_eq!(result.worktree_path.as_deref(), Some("/srv/tanks/t1"));
    assert_eq!(result.branch.as_deref(), Some("aquarium/t1"));
}

#[test]
fn put_get_round_trip() {
    let mut journal = Journal::new();
    let entry = JournalEntry {
        request_id: "1700000000000-0123456789abcdef0123456789abcdef".into(),
        fingerprint: "abc".into(),
        state: RequestState::Succeeded,
        op: "create_checkout".into(),
        actor_pubkey_hex: "aa".into(),
        grant_generation: 1,
        outcome: object(vec![("ok", Json::Bool(true))]),
        error: None,
        params: object(vec![]),
    };
    let id = entry.request_id.clone();
    journal.put(entry);
    let loaded = journal.get(&id).unwrap();
    assert_eq!(loaded.state, RequestState::Succeeded);
    assert_eq!(loaded.fingerprint, "abc");
}

#[test]
fn overwrite_keeps_one_row_and_logs_each_write() {
    let mut journal = Journal::new();
    for state in [RequestState::Accepted, RequestState::Executing, RequestState::Succeeded] {
        journal.put(JournalEntry {
            request_id: "1700000000000-0123456789abcdef0123456789abcdef".into(),
            fingerprint: "abc".into(),
            state,
            op: "create_checkout".into(),
            actor_pubkey_hex: "aa".into(),
            grant_generation: 1,
            outcome: Json::Null,
            error: None,
            params: Json::Null,
        });
    }
    assert_eq!(journal.len(), 1);
    let writes = journal.take_writes();
    assert_eq!(writes.len(), 3);
    assert_eq!(writes[2].state, RequestState::Succeeded);
    assert_eq!(journal.take_writes().len(), 0);
    assert_eq!(journal.get("1700000000000-0123456789abcdef0123456789abcdef").unwrap().state, RequestState::Succeeded);
    assert!(journal.get("1700000000001-0123456789abcdef0123456789abcdef").is_none());
    assert_eq!(Journal::path_for("abc"), "abc.json");
}

#[test]
fn device_error_messages() {
    assert_eq!(DeviceError::Git("boom".into()).message(), "git: boom");
    assert_eq!(DeviceError::Path("nope".into()).message(), "nope");
    assert_eq!(
        DeviceError::from_coord(CoordError::HopLimit),
        DeviceError::Transport("delegation hop limit exceeded".into())
    );
}
