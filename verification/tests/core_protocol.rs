use buzz_device::coord::{
    assignment_fingerprint, authorize_coord_peer, check_assignment_id, CoordError, CoordPeers, CoordPhase, CoordStatus,
    COORD_MAX_EVENTS,
};
use buzz_device::device::{
    check_request_freshness, parameter_fingerprint, parse_request_timestamp, relative_path_is_safe, DeviceGrant, DeviceOp,
    DeviceProtocolError, DEVICE_MAX_NEW_OPERATION_AGE_MS,
};
use buzz_device::json::Json;
use buzz_device::wire::{format_request_id, generate_request_id};

fn peers() -> CoordPeers {
    CoordPeers {
        leader_pubkey_hex: "aa".repeat(32),
        worker_pubkey_hex: "bb".repeat(32),
    }
}

fn grant() -> DeviceGrant {
    DeviceGrant {
        device_id: "dev-1".into(),
        device_pubkey_hex: "aa".repeat(32),
        owner_pubkey_hex: "bb".repeat(32),
        actor_pubkeys: vec!["cc".repeat(32)],
        allowed_roots: vec!["/tmp/aquarium-fixture".into()],
        generation: 1,
        expires_at_ms: None,
        revoked: false,
    }
}

fn text(s: &str) -> Json {
    Json::Str(s.to_string())
}

fn object(members: Vec<(&str, Json)>) -> Json {
    Json::Object(members.into_iter().map(|(k, v)| (k.to_string(), v)).collect())
}

#[test]
fn unrelated_sender_is_rejected() {
    let err = authorize_coord_peer(&peers(), &"cc".repeat(32), CoordPhase::Delegate, 0, 0);
    assert_eq!(err, Err(CoordError::UnauthorizedPeer));
}

#[test]
fn worker_cannot_delegate() {
    let err = authorize_coord_peer(&peers(), &"bb".repeat(32), CoordPhase::Delegate, 0, 0);
    assert_eq!(err, Err(CoordError::WrongPhase));
}

#[test]
fn hop_limit_blocks_nested_delegate() {
    let err = authorize_coord_peer(&peers(), &"aa".repeat(32), CoordPhase::Delegate, 1, 0);
    assert_eq!(err, Err(CoordError::HopLimit));
}

#[test]
fn event_budget_is_hard_capped() {
    let err = authorize_coord_peer(&peers(), &"bb".repeat(32), CoordPhase::Ack, 0, COORD_MAX_EVENTS);
    assert_eq!(err, Err(CoordError::EventBudget));
}

#[test]
fn fingerprints_are_stable() {
    let a = assignment_fingerprint("t", "c", "BB", "do").unwrap();
    let b = assignment_fingerprint("t", "c", "bb", "do").unwrap();
    assert_eq!(a, b);
    assert_ne!(a, assignment_fingerprint("t", "c", "bb", "other").unwrap());
}

#[test]
fn worker_key_spelling_does_not_change_fingerprint() {
    let a = assignment_fingerprint("t", "c", "  BB\n", "do").unwrap();
    let b = assignment_fingerprint("t", "c", "bb", "do").unwrap();
    assert_eq!(a, b);
    assert_eq!(a.len(), 64);
    assert!(a.chars().all(|c| c.is_ascii_hexdigit() && !c.is_ascii_uppercase()));
}

#[test]
fn leader_and_worker_phases_are_authorized() {
    assert_eq!(authorize_coord_peer(&peers(), &"AA".repeat(32), CoordPhase::Delegate, 0, 0), Ok(()));
    assert_eq!(authorize_coord_peer(&peers(), &"aa".repeat(32), CoordPhase::Continue, 5, 0), Ok(()));
    assert_eq!(authorize_coord_peer(&peers(), &"bb".repeat(32), CoordPhase::Result, 0, 7), Ok(()));
    assert_eq!(authorize_coord_peer(&peers(), &"aa".repeat(32), CoordPhase::Ack, 0, 0), Err(CoordError::WrongPhase));
}

#[test]
fn phases_and_statuses_round_trip() {
    for p in [CoordPhase::Delegate, CoordPhase::Ack, CoordPhase::Result, CoordPhase::Continue] {
        assert_eq!(CoordPhase::parse(p.as_str()), Some(p));
    }
    for s in [CoordStatus::Succeeded, CoordStatus::Failed, CoordStatus::Rejected, CoordStatus::Duplicate] {
        assert_eq!(CoordStatus::parse(s.as_str()), Some(s));
    }
    assert_eq!(CoordPhase::parse("delegate "), None);
    assert_eq!(CoordStatus::parse("yolo-ok"), None);
}

#[test]
fn assignment_ids_use_request_id_grammar() {
    assert_eq!(check_assignment_id("1788581600001-bbbbbbbbbbbbbbbbbbbbbbbbbbbbbbbb"), Ok(()));
    assert_eq!(check_assignment_id("1788581600001-BBBBBBBBBBBBBBBBBBBBBBBBBBBBBBBB"), Err(CoordError::InvalidAssignmentId));
    assert_eq!(check_assignment_id("task-1"), Err(CoordError::InvalidAssignmentId));
}

#[test]
fn request_id_round_trip() {
    let id = "1700000000000-0123456789abcdef0123456789abcdef";
    assert_eq!(parse_request_timestamp(id).unwrap(), 1_700_000_000_000);
    check_request_freshness(id, 1_700_000_000_000).unwrap();
}

#[test]
fn minted_request_id_reads_back() {
    let bytes: Vec<u8> = (0u8..16).map(|b| b * 17).collect();
    let id = format_request_id(42, &bytes);
    assert_eq!(id, "0000000000042-00112233445566778899aabbccddeeff");
    assert_eq!(parse_request_timestamp(&id), Ok(42));
    let fresh = generate_request_id().unwrap();
    assert_eq!(fresh.len(), 46);
    assert!(parse_request_timestamp(&fresh).is_ok());
}

#[test]
fn device_expired_request_is_rejected() {
    let id = "1000000000000-0123456789abcdef0123456789abcdef";
    let now = 1000000000000 + DEVICE_MAX_NEW_OPERATION_AGE_MS + 1;
    assert_eq!(check_request_freshness(id, now), Err(DeviceProtocolError::RequestExpired));
}

#[test]
fn future_request_is_rejected() {
    let id = "2000000000000-0123456789abcdef0123456789abcdef";
    assert_eq!(check_request_freshness(id, 1_000_000_000_000), Err(DeviceProtocolError::RequestInFuture));
}

#[test]
fn freshness_edges() {
    let id = "1000000000000-0123456789abcdef0123456789abcdef";
    assert_eq!(check_request_freshness(id, 1000000000000 + DEVICE_MAX_NEW_OPERATION_AGE_MS), Ok(()));
    assert_eq!(check_request_freshness(id, 1000000000000 - 300_000), Ok(()));
    assert_eq!(check_request_freshness(id, 1000000000000 - 300_001), Err(DeviceProtocolError::RequestInFuture));
    assert_eq!(check_request_freshness("not-an-id", 0), Err(DeviceProtocolError::InvalidRequestId));
    assert_eq!(parse_request_timestamp("1000000000000_0123456789abcdef0123456789abcdef"), Err(DeviceProtocolError::InvalidRequestId));
}

#[test]
fn fingerprint_is_stable_across_key_order() {
    let a = object(vec![("branch", text("tank")), ("tank_id", text("t1"))]);
    let b = object(vec![("tank_id", text("t1")), ("branch", text("tank"))]);
    let left = parameter_fingerprint(DeviceOp::CreateCheckout, "dev-1", 1, &a).unwrap();
    let right = parameter_fingerprint(DeviceOp::CreateCheckout, "dev-1", 1, &b).unwrap();
    assert_eq!(left, right);
    let different = parameter_fingerprint(
        DeviceOp::CreateCheckout,
        "dev-1",
        1,
        &object(vec![("branch", text("other")), ("tank_id", text("t1"))]),
    )
    .unwrap();
    assert_ne!(left, different);
}

#[test]
fn nested_key_order_does_not_change_fingerprint() {
    let a = object(vec![("outer", object(vec![("b", Json::Bool(true)), ("a", Json::Null)])), ("z", text("q\"\n"))]);
    let b = object(vec![("z", text("q\"\n")), ("outer", object(vec![("a", Json::Null), ("b", Json::Bool(true))]))]);
    assert_eq!(
        parameter_fingerprint(DeviceOp::StartSession, "dev-1", 3, &a),
        parameter_fingerprint(DeviceOp::StartSession, "dev-1", 3, &b)
    );
    assert_ne!(
        parameter_fingerprint(DeviceOp::StartSession, "dev-1", 3, &a),
        parameter_fingerprint(DeviceOp::StartSession, "dev-1", 4, &b)
    );
}

#[test]
fn grant_allows_owner_and_listed_actor() {
    let g = grant();
    let now = 1_700_000_000_000;
    g.authorize(&g.owner_pubkey_hex, &g.device_pubkey_hex, now).unwrap();
    g.authorize(&g.actor_pubkeys[0], &g.device_pubkey_hex, now).unwrap();
    assert_eq!(g.authorize(&"dd".repeat(32), &g.device_pubkey_hex, now), Err(DeviceProtocolError::UnauthorizedActor));
    assert_eq!(g.authorize(&g.owner_pubkey_hex, &"ee".repeat(32), now), Err(DeviceProtocolError::WrongDevice));
}

#[test]
fn revoked_or_expired_grant_is_inactive() {
    let mut g = grant();
    g.revoked = true;
    assert_eq!(g.authorize(&g.owner_pubkey_hex, &g.device_pubkey_hex, 1), Err(DeviceProtocolError::GrantInactive));
    g.revoked = false;
    g.expires_at_ms = Some(10);
    assert_eq!(g.authorize(&g.owner_pubkey_hex, &g.device_pubkey_hex, 11), Err(DeviceProtocolError::GrantInactive));
    assert_eq!(g.authorize(&g.owner_pubkey_hex, &g.device_pubkey_hex, 10), Ok(()));
}

#[test]
fn relative_path_rejects_escape() {
    relative_path_is_safe("tanks/tank-a").unwrap();
    assert_eq!(relative_path_is_safe("../outside"), Err(DeviceProtocolError::UnsafeRelativePath));
    assert_eq!(relative_path_is_safe("/absolute"), Err(DeviceProtocolError::UnsafeRelativePath));
    assert_eq!(relative_path_is_safe(""), Err(DeviceProtocolError::UnsafeRelativePath));
    assert_eq!(relative_path_is_safe("tanks/../../x"), Err(DeviceProtocolError::UnsafeRelativePath));
    assert_eq!(relative_path_is_safe("tanks/..hidden"), Ok(()));
}

#[test]
fn op_names_round_trip() {
    for op in [
        DeviceOp::InspectCapabilities,
        DeviceOp::CreateCheckout,
        DeviceOp::InspectRequest,
        DeviceOp::StartSession,
        DeviceOp::CancelSession,
    ] {
        assert_eq!(DeviceOp::parse(op.as_str()), Some(op));
    }
    assert_eq!(DeviceOp::CreateCheckout.as_str(), "create_checkout");
    assert_eq!(DeviceOp::parse("run_anything"), None);
}

#[test]
fn protocol_error_messages() {
    assert_eq!(DeviceProtocolError::InvalidRequestId.message(), "invalid device request id");
    assert_eq!(CoordError::UnauthorizedPeer.message().is_empty(), false);
}

#[test]
fn fingerprints_are_sixty_four_lowercase_hex_digits() {
    let fps = [
        parameter_fingerprint(DeviceOp::InspectCapabilities, "dev-1", 3, &Json::Null).unwrap(),
        assignment_fingerprint("tank", "conv", "BB", "task").unwrap(),
    ];
    for fp in fps {
        assert_eq!(fp.len(), 64);
        assert!(fp.chars().all(|c| c.is_ascii_digit() || ('a'..='f').contains(&c)));
    }
}
