use buzz_device::checkout::{
    append_capped, check_new_worktree, check_repository, git_failure, next_worktree_step, worktree_add_args, WorktreeProgress,
    WorktreeStep,
};
use buzz_device::control::{ctl_params, ctl_request, finish_with_receipt, require_device_pubkey, CtlOp};
use buzz_device::host::DeviceError;
use buzz_device::json::{Json, JsonNumber};
use buzz_device::mux::{answer_frame, auth_challenge, event_matches, fanout_frames, MuxStep};
use buzz_device::paths::{check_inside, path_within, split_words};
use buzz_device::session::{check_cancel_pid, check_cwd_proof, command_argv, fixture_argv, fixture_files};
use buzz_device::wire::{
    advertisement_body, is_request_for, receipt_tags, request_tags, DeviceReceipt, DeviceRequest, ReceiptStatus,
    KIND_DEVICE_RECEIPT, KIND_DEVICE_REQUEST,
};

fn text(s: &str) -> Json {
    Json::Str(s.to_string())
}

fn num(n: u64) -> Json {
    Json::Number(JsonNumber::Unsigned(n))
}

fn object(members: Vec<(&str, Json)>) -> Json {
    Json::Object(members.into_iter().map(|(k, v)| (k.to_string(), v)).collect())
}

fn event(kind: u64, pubkey: &str, p: &str) -> Json {
    object(vec![
        ("id", text("ev-1")),
        ("kind", num(kind)),
        ("pubkey", text(pubkey)),
        ("tags", Json::Array(vec![Json::Array(vec![text("p"), text(p)])])),
    ])
}

#[test]
fn filters_match_kind_author_and_p_tag() {
    let ev = event(43200, "alice", "bob");
    assert!(event_matches(&ev, &object(vec![])));
    assert!(event_matches(&ev, &object(vec![("kinds", Json::Array(vec![num(1), num(43200)]))])));
    assert!(!event_matches(&ev, &object(vec![("kinds", Json::Array(vec![num(43201)]))])));
    assert!(event_matches(&ev, &object(vec![("authors", Json::Array(vec![text("alice")]))])));
    assert!(!event_matches(&ev, &object(vec![("authors", Json::Array(vec![text("carol")]))])));
    assert!(event_matches(&ev, &object(vec![("#p", Json::Array(vec![text("x"), text("bob")]))])));
    assert!(!event_matches(&ev, &object(vec![("#p", Json::Array(vec![text("carol")]))])));
    let untagged = object(vec![("kind", num(43200))]);
    assert!(!event_matches(&untagged, &object(vec![("#p", Json::Array(vec![text("bob")]))])));
}

#[test]
fn frames_are_answered() {
    assert_eq!(auth_challenge(), Json::Array(vec![text("AUTH"), text("aquarium-device-mux")]));
    match answer_frame(&vec![text("AUTH"), object(vec![("id", text("a1"))])]) {
        MuxStep::Reply(r) => assert_eq!(r, Json::Array(vec![text("OK"), text("a1"), Json::Bool(true), text("")])),
        other => panic!("unexpected {other:?}"),
    }
    match answer_frame(&vec![text("AUTH")]) {
        MuxStep::Reply(r) => assert_eq!(r, Json::Array(vec![text("OK"), text("auth"), Json::Bool(true), text("")])),
        other => panic!("unexpected {other:?}"),
    }
    match answer_frame(&vec![text("EVENT"), event(9, "a", "b")]) {
        MuxStep::Publish { event: e, reply } => {
            assert_eq!(e, event(9, "a", "b"));
            assert_eq!(reply, Json::Array(vec![text("OK"), text("ev-1"), Json::Bool(true), text("")]));
        }
        other => panic!("unexpected {other:?}"),
    }
    match answer_frame(&vec![text("REQ"), text("device-in")]) {
        MuxStep::Subscribe { sub, filter, reply } => {
            assert_eq!(sub, "device-in");
            assert_eq!(filter, Json::Object(vec![]));
            assert_eq!(reply, Json::Array(vec![text("EOSE"), text("device-in")]));
        }
        other => panic!("unexpected {other:?}"),
    }
    assert!(matches!(answer_frame(&vec![text("CLOSE"), text("device-in")]), MuxStep::Ignore));
    assert!(matches!(answer_frame(&vec![]), MuxStep::Ignore));
}

#[test]
fn events_fan_out_to_matching_subscriptions_in_order() {
    let ev = event(43200, "alice", "bob");
    let subs = vec![
        ("s1".to_string(), object(vec![("kinds", Json::Array(vec![num(43200)]))])),
        ("s2".to_string(), object(vec![("kinds", Json::Array(vec![num(9)]))])),
        ("s3".to_string(), object(vec![])),
    ];
    let frames = fanout_frames(&ev, &subs);
    assert_eq!(frames.len(), 2);
    assert_eq!(frames[0], Json::Array(vec![text("EVENT"), text("s1"), event(43200, "alice", "bob")]));
    assert_eq!(frames[1], Json::Array(vec![text("EVENT"), text("s3"), event(43200, "alice", "bob")]));
}

#[test]
fn request_and_receipt_events_are_tagged() {
    let req = DeviceRequest {
        v: 1,
        request_id: "1700000000000-0123456789abcdef0123456789abcdef".into(),
        op: "inspect_capabilities".into(),
        grant_generation: 1,
        device_id: "dev-1".into(),
        params: object(vec![]),
    };
    let tags = request_tags("aa", "dev-1", &req);
    assert_eq!(
        tags,
        vec![
            vec!["p".to_string(), "aa".to_string()],
            vec!["d".to_string(), req.request_id.clone()],
            vec!["device".to_string(), "dev-1".to_string()],
            vec!["op".to_string(), "inspect_capabilities".to_string()],
        ]
    );
    assert!(is_request_for(KIND_DEVICE_REQUEST as u16, &tags, "AA"));
    assert!(!is_request_for(KIND_DEVICE_RECEIPT as u16, &tags, "aa"));
    assert!(!is_request_for(KIND_DEVICE_REQUEST as u16, &tags, "bb"));
    let receipt = DeviceReceipt {
        v: 1,
        request_id: req.request_id.clone(),
        fingerprint: "fp".into(),
        status: ReceiptStatus::Succeeded,
        evidence: Json::Null,
        error: None,
    };
    assert_eq!(receipt_tags("cc", "dev-1", &receipt).len(), 3);
    let ad = advertisement_body("dev-1", 4);
    assert_eq!(ad.get("grant_generation").and_then(|g| g.as_u64()), Some(4));
    assert_eq!(ad.get("online").and_then(|o| o.as_bool()), Some(true));
}

#[test]
fn controller_builds_requests_and_refuses_local_runs() {
    let op = CtlOp::CreateCheckout {
        tank_id: "tank-1".into(),
        branch: "aquarium/t1".into(),
        relpath: "tanks/t1".into(),
        repo_relpath: "repo".into(),
        start_rev: "HEAD".into(),
    };
    let (name, params) = ctl_params(&op);
    assert_eq!(name, "create_checkout");
    assert_eq!(params.get("relpath").and_then(|r| r.as_str()).map(|s| s.as_str()), Some("tanks/t1"));
    let req = ctl_request("dev-1", 2, Some("1700000000000-0123456789abcdef0123456789abcdef".into()), &op).unwrap();
    assert_eq!(req.request_id, "1700000000000-0123456789abcdef0123456789abcdef");
    assert_eq!(req.grant_generation, 2);
    let minted = ctl_request("dev-1", 1, None, &CtlOp::CancelSession { pid: 7 }).unwrap();
    assert_eq!(minted.request_id.len(), 46);
    assert_eq!(minted.params.get("pid").and_then(|p| p.as_u64()), Some(7));
    let (_, start) = ctl_params(&CtlOp::StartSession { checkout_path: "/c".into(), session_id: None });
    assert_eq!(start.get("session_id"), Some(&Json::Null));
    assert_eq!(require_device_pubkey("  "), Err("device_pubkey is required; refusing to run locally".to_string()));
    assert_eq!(require_device_pubkey(" ab "), Ok("ab".to_string()));
}

#[test]
fn receipts_end_the_command() {
    let mut receipt = DeviceReceipt {
        v: 1,
        request_id: "r".into(),
        fingerprint: "fp".into(),
        status: ReceiptStatus::Succeeded,
        evidence: Json::Null,
        error: None,
    };
    assert_eq!(finish_with_receipt(&receipt), Ok(()));
    receipt.status = ReceiptStatus::Conflict;
    assert_eq!(finish_with_receipt(&receipt), Err("conflict".to_string()));
    receipt.error = Some("request id reused with different parameters".into());
    assert_eq!(finish_with_receipt(&receipt), Err("request id reused with different parameters".to_string()));
}

#[test]
fn worktree_checks_and_arguments() {
    assert!(check_repository(true).is_ok());
    assert_eq!(check_repository(false).unwrap_err().message(), "git: repository path is not a git checkout");
    assert_eq!(
        check_new_worktree(true, "/r/tanks/t1", "b", "HEAD"),
        Err(DeviceError::Git("worktree path already exists: /r/tanks/t1".into()))
    );
    assert_eq!(
        check_new_worktree(false, "/r/tanks/t1", "-b", "HEAD"),
        Err(DeviceError::Git("branch/rev must not start with '-'".into()))
    );
    assert_eq!(
        check_new_worktree(false, "/r/tanks/t1", "b", "--upload-pack=x"),
        Err(DeviceError::Git("branch/rev must not start with '-'".into()))
    );
    assert_eq!(check_new_worktree(false, "/r/tanks/t1", "aquarium/t1", "HEAD"), Ok(()));
    assert_eq!(
        worktree_add_args("aquarium/t1", "/r/tanks/t1", "HEAD"),
        vec!["worktree", "add", "-b", "aquarium/t1", "--", "/r/tanks/t1", "HEAD"]
    );
    assert_eq!(git_failure("worktree", "fatal: x").message(), "git: git worktree failed: fatal: x");
}

#[test]
fn output_capture_is_capped() {
    let mut out = Vec::new();
    assert!(!append_capped(&mut out, &[1, 2, 3], 5));
    assert!(append_capped(&mut out, &[4, 5, 6, 7], 5));
    assert_eq!(out, vec![1, 2, 3, 4, 5]);
    assert!(append_capped(&mut out, &[8], 5));
    assert_eq!(out.len(), 5);
}

#[test]
fn accepts_nested_relative() {
    assert!(path_within("/srv/aquarium", "/srv/aquarium/tanks/a"));
    assert!(path_within("/srv/aquarium/", "/srv//aquarium/./tanks/a/"));
    assert!(path_within("/srv/aquarium", "/srv/aquarium"));
}

#[test]
fn rejects_dotdot_and_absolute() {
    assert!(!path_within("/srv/aquarium", "/srv/aquarium-other/x"));
    assert!(!path_within("/srv/aquarium", "/tmp"));
    assert!(!path_within("/srv/aquarium", "srv/aquarium/x"));
}

#[test]
fn rejects_symlink_escape() {
    let err = check_inside("/srv/aquarium", "/tmp/outside", "resolved path escaped the allowed root").unwrap_err();
    assert!(err.message().contains("escaped"));
    assert!(check_inside("/srv/aquarium", "/srv/aquarium/link", "x").is_ok());
}

#[test]
fn agent_command_is_split_on_whitespace() {
    assert_eq!(split_words("  harness  --print\t-x\n"), vec!["harness", "--print", "-x"]);
    assert!(split_words("   ").is_empty());
}

#[test]
fn sessions_prove_their_cwd() {
    assert_eq!(check_cwd_proof("/srv/tanks/t1\n", "/srv/tanks/t1"), Ok(()));
    assert_eq!(
        check_cwd_proof("/elsewhere\n", "/srv/tanks/t1").unwrap_err().message(),
        "agent: agent cwd /elsewhere != checkout /srv/tanks/t1"
    );
    assert_eq!(check_cancel_pid(0).unwrap_err().message(), "agent: refusing to signal pid 0");
    assert!(check_cancel_pid(12).is_ok());
    assert!(command_argv(&vec![]).is_err());
    assert_eq!(command_argv(&vec!["sh".into(), "-c".into()]).unwrap(), vec!["sh", "-c"]);
    assert_eq!(fixture_argv("/bin/buzz-device", "s1"), vec!["/bin/buzz-device", "agent-fixture", "--session-id", "s1"]);
    let files = fixture_files("s1", "/srv/tanks/t1", 4321);
    assert_eq!(files[1], (".aquarium-session-cwd".to_string(), "/srv/tanks/t1\n".to_string()));
    assert_eq!(files[2], (".aquarium-session-pid".to_string(), "4321\n".to_string()));
}

fn progress(repo_is_git: Option<bool>, worktree: Option<&str>, exists: Option<bool>, parent_made: bool) -> WorktreeProgress {
    WorktreeProgress {
        repo_resolved: true,
        repo_is_git,
        worktree: worktree.map(|w| w.to_string()),
        worktree_exists: exists,
        parent_made,
    }
}

fn failure(step: WorktreeStep) -> String {
    match step {
        WorktreeStep::Fail(e) => e.message(),
        other => panic!("expected a failure, got {other:?}"),
    }
}

#[test]
fn worktree_steps_keep_the_check_order() {
    let fresh = WorktreeProgress { repo_resolved: false, repo_is_git: None, worktree: None, worktree_exists: None, parent_made: false };
    assert!(matches!(next_worktree_step("repo", "tanks/t1", "b", "HEAD", &fresh), WorktreeStep::ResolveRepo));
    assert_eq!(
        failure(next_worktree_step("/abs", "tanks/t1", "b", "HEAD", &fresh)),
        "path is outside the allowed root grammar"
    );
    assert!(matches!(next_worktree_step("repo", "tanks/t1", "b", "HEAD", &progress(None, None, None, false)), WorktreeStep::InspectRepo));
    // A repository that is not a git checkout is reported before the worktree path's grammar.
    assert_eq!(
        failure(next_worktree_step("repo", "../escape", "b", "HEAD", &progress(Some(false), None, None, false))),
        "git: repository path is not a git checkout"
    );
    assert_eq!(
        failure(next_worktree_step("repo", "../escape", "b", "HEAD", &progress(Some(true), None, None, false))),
        "path is outside the allowed root grammar"
    );
    assert!(matches!(
        next_worktree_step("repo", "tanks/t1", "b", "HEAD", &progress(Some(true), None, None, false)),
        WorktreeStep::ResolveWorktree
    ));
    assert!(matches!(
        next_worktree_step("repo", "tanks/t1", "b", "HEAD", &progress(Some(true), Some("/r/tanks/t1"), None, false)),
        WorktreeStep::InspectWorktree
    ));
    assert_eq!(
        failure(next_worktree_step("repo", "tanks/t1", "b", "HEAD", &progress(Some(true), Some("/r/tanks/t1"), Some(true), false))),
        "git: worktree path already exists: /r/tanks/t1"
    );
    assert_eq!(
        failure(next_worktree_step("repo", "tanks/t1", "-b", "HEAD", &progress(Some(true), Some("/r/tanks/t1"), Some(false), false))),
        "git: branch/rev must not start with '-'"
    );
    assert!(matches!(
        next_worktree_step("repo", "tanks/t1", "b", "HEAD", &progress(Some(true), Some("/r/tanks/t1"), Some(false), false)),
        WorktreeStep::MakeParent
    ));
    match next_worktree_step("repo", "tanks/t1", "b", "HEAD", &progress(Some(true), Some("/r/tanks/t1"), Some(false), true)) {
        WorktreeStep::AddWorktree { args } => {
            assert_eq!(args, vec!["worktree", "add", "-b", "b", "--", "/r/tanks/t1", "HEAD"]);
        }
        other => panic!("expected git, got {other:?}"),
    }
}
