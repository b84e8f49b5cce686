use buzz_device::checkout::{next_worktree_step, WorktreeProgress, WorktreeStep};
use buzz_device::device::DEVICE_PROTOCOL_VERSION;
use buzz_device::host::{DeviceError, GrantFile};
use buzz_device::journal::{Journal, RequestState};
use buzz_device::json::{Json, JsonNumber};
use buzz_device::service::{
    CheckoutEvidence, DeviceService, HandleOutcome, HostAction, HostResult, RequestStep,
};
use buzz_device::wire::{generate_request_id, DeviceRequest, ReceiptStatus};
use nostr::key::Keys;

const ROOT: &str = "/srv/aquarium";

fn now_ms() -> u64 {
    std::time::SystemTime::now()
        .duration_since(std::time::UNIX_EPOCH)
        .expect("clock")
        .as_millis() as u64
}

fn text(s: &str) -> Json {
    Json::Str(s.to_string())
}

fn object(members: Vec<(&str, Json)>) -> Json {
    Json::Object(members.into_iter().map(|(k, v)| (k.to_string(), v)).collect())
}

/// The host with a simulated worktree runner: created worktrees are kept
/// by path instead of on disk.
struct Host {
    service: DeviceService,
    host_hex: String,
    worktrees: Vec<String>,
}

impl Host {
    /// Follow the library's worktree steps against the simulated disk: the
    /// repository is a git checkout, and a worktree exists once created.
    fn create_worktree(&mut self, repo: &str, rel: &str, branch: &str, start_rev: &str) -> HostResult {
        let mut progress = WorktreeProgress {
            repo_resolved: false,
            repo_is_git: None,
            worktree: None,
            worktree_exists: None,
            parent_made: false,
        };
        loop {
            match next_worktree_step(repo, rel, branch, start_rev, &progress) {
                WorktreeStep::ResolveRepo => progress.repo_resolved = true,
                WorktreeStep::InspectRepo => progress.repo_is_git = Some(true),
                WorktreeStep::ResolveWorktree => progress.worktree = Some(format!("{ROOT}/{rel}")),
                WorktreeStep::InspectWorktree => {
                    progress.worktree_exists = Some(self.worktrees.contains(progress.worktree.as_ref().unwrap()))
                }
                WorktreeStep::MakeParent => progress.parent_made = true,
                WorktreeStep::AddWorktree { .. } => {
                    let path = progress.worktree.clone().unwrap();
                    self.worktrees.push(path.clone());
                    return HostResult::Checkout {
                        evidence: CheckoutEvidence {
                            path,
                            branch: branch.to_string(),
                            head: "0".repeat(40),
                            host: "test-host".into(),
                        },
                        worktree_list: String::new(),
                    };
                }
                WorktreeStep::Fail(e) => return HostResult::Failed(e),
            }
        }
    }

    fn handle(&mut self, actor: &str, device: &str, req: &DeviceRequest, now: u64) -> HandleOutcome {
        match self.service.begin_request(actor, device, req, now).unwrap() {
            RequestStep::Done(outcome) => outcome,
            RequestStep::Pending(pending) => {
                let result = match &pending.action {
                    HostAction::CreateWorktree { repo_relpath, worktree_relpath, branch, start_rev } => {
                        self.create_worktree(repo_relpath, worktree_relpath, branch, start_rev)
                    }
                    HostAction::StartAgent { .. } => HostResult::Failed(DeviceError::Agent("no agents here".into())),
                    HostAction::CancelAgent { .. } => HostResult::Cancelled,
                };
                self.service.finish_request(pending, result)
            }
        }
    }
}

fn grant(host: &Keys, owner: &Keys, generation: u64, revoked: bool) -> GrantFile {
    GrantFile {
        device_id: "dev-1".into(),
        device_pubkey_hex: host.public_key().to_hex(),
        owner_pubkey_hex: owner.public_key().to_hex(),
        actor_pubkeys: vec![],
        allowed_roots: vec![ROOT.into()],
        generation,
        expires_at_ms: None,
        revoked,
    }
}

fn setup() -> (Host, Keys, Keys) {
    let host = Keys::generate();
    let owner = Keys::generate();
    let service = DeviceService::open(Journal::new(), grant(&host, &owner, 1, false), None).unwrap();
    (Host { service, host_hex: host.public_key().to_hex(), worktrees: vec![] }, host, owner)
}

fn checkout_req(device_id: &str, relpath: &str, branch: &str) -> DeviceRequest {
    DeviceRequest {
        v: DEVICE_PROTOCOL_VERSION,
        request_id: generate_request_id().unwrap(),
        op: "create_checkout".into(),
        grant_generation: 1,
        device_id: device_id.into(),
        params: object(vec![
            ("tank_id", text("tank-1")),
            ("branch", text(branch)),
            ("relpath", text(relpath)),
            ("repo_relpath", text("repo")),
            ("start_rev", text("HEAD")),
        ]),
    }
}

fn with_branch(req: &DeviceRequest, branch: &str) -> DeviceRequest {
    DeviceRequest {
        v: req.v,
        request_id: req.request_id.clone(),
        op: req.op.clone(),
        grant_generation: req.grant_generation,
        device_id: req.device_id.clone(),
        params: object(vec![
            ("tank_id", text("tank-1")),
            ("branch", text(branch)),
            ("relpath", text("tanks/t1")),
            ("repo_relpath", text("repo")),
            ("start_rev", text("HEAD")),
        ]),
    }
}

#[test]
fn authorized_create_checkout_makes_one_worktree() {
    let (mut host, _keys, owner) = setup();
    let device = host.host_hex.clone();
    let req = checkout_req("dev-1", "tanks/t1", "aquarium/t1");
    let outcome = host.handle(&owner.public_key().to_hex(), &device, &req, now_ms());
    assert_eq!(outcome.receipt.status, ReceiptStatus::Succeeded);
    assert!(outcome.mutated);
    let path = outcome.receipt.evidence.get("path").and_then(|p| p.as_str()).unwrap().clone();
    assert_eq!(path, format!("{ROOT}/tanks/t1"));
    let head = outcome.receipt.evidence.get("head").and_then(|p| p.as_str()).unwrap();
    assert_eq!(head.len(), 40);
    assert_eq!(host.worktrees, vec![path]);
}

#[test]
fn retry_same_id_does_not_duplicate_worktree() {
    let (mut host, _keys, owner) = setup();
    let device = host.host_hex.clone();
    let req = checkout_req("dev-1", "tanks/t1", "aquarium/t1");
    let first = host.handle(&owner.public_key().to_hex(), &device, &req, now_ms());
    let second = host.handle(&owner.public_key().to_hex(), &device, &req, now_ms());
    assert_eq!(second.receipt.status, ReceiptStatus::Succeeded);
    assert!(!second.mutated);
    assert_eq!(first.receipt.evidence.get("path"), second.receipt.evidence.get("path"));
    assert_eq!(first.receipt.fingerprint, second.receipt.fingerprint);
    assert_eq!(host.worktrees.len(), 1);
}

#[test]
fn different_params_same_id_conflict() {
    let (mut host, _keys, owner) = setup();
    let device = host.host_hex.clone();
    let req = checkout_req("dev-1", "tanks/t1", "aquarium/t1");
    host.handle(&owner.public_key().to_hex(), &device, &req, now_ms());
    let changed = with_branch(&req, "aquarium/other");
    let outcome = host.handle(&owner.public_key().to_hex(), &device, &changed, now_ms());
    assert_eq!(outcome.receipt.status, ReceiptStatus::Conflict);
    assert!(!outcome.mutated);
    assert_eq!(outcome.receipt.error.as_deref(), Some("request id reused with different parameters"));
    assert_eq!(host.worktrees.len(), 1);
}

#[test]
fn unauthorized_cannot_overwrite_successful_journal() {
    let (mut host, _keys, owner) = setup();
    let device = host.host_hex.clone();
    let req = checkout_req("dev-1", "tanks/t1", "aquarium/t1");
    let ok = host.handle(&owner.public_key().to_hex(), &device, &req, now_ms());
    assert_eq!(ok.receipt.status, ReceiptStatus::Succeeded);
    let stranger = Keys::generate();
    let denied = host.handle(&stranger.public_key().to_hex(), &device, &req, now_ms());
    assert_eq!(denied.receipt.status, ReceiptStatus::Rejected);
    assert!(!denied.mutated);
    let replay = host.handle(&owner.public_key().to_hex(), &device, &req, now_ms());
    assert_eq!(replay.receipt.status, ReceiptStatus::Succeeded);
    let row = host.service.journal.get(&req.request_id).unwrap();
    assert_eq!(row.state, RequestState::Succeeded);
    assert_eq!(host.worktrees.len(), 1);
}

#[test]
fn unauthorized_actor_does_not_mutate() {
    let (mut host, _keys, _owner) = setup();
    let device = host.host_hex.clone();
    let stranger = Keys::generate();
    let req = checkout_req("dev-1", "tanks/nope", "aquarium/nope");
    let outcome = host.handle(&stranger.public_key().to_hex(), &device, &req, now_ms());
    assert_eq!(outcome.receipt.status, ReceiptStatus::Rejected);
    assert!(!outcome.mutated);
    assert!(host.worktrees.is_empty());
    assert_eq!(host.service.journal.get(&req.request_id).unwrap().state, RequestState::Rejected);
}

#[test]
fn wrong_device_pubkey_does_not_mutate() {
    let (mut host, _keys, owner) = setup();
    let other = Keys::generate();
    let req = checkout_req("dev-1", "tanks/wrong", "aquarium/wrong");
    let outcome = host.handle(&owner.public_key().to_hex(), &other.public_key().to_hex(), &req, now_ms());
    assert_eq!(outcome.receipt.status, ReceiptStatus::Rejected);
    assert_eq!(outcome.receipt.error.as_deref(), Some("request targets the wrong device"));
    assert!(host.worktrees.is_empty());
}

#[test]
fn path_escape_is_rejected() {
    let (mut host, _keys, owner) = setup();
    let device = host.host_hex.clone();
    let req = checkout_req("dev-1", "../escape", "aquarium/escape");
    let outcome = host.handle(&owner.public_key().to_hex(), &device, &req, now_ms());
    assert_ne!(outcome.receipt.status, ReceiptStatus::Succeeded);
    assert!(!outcome.mutated);
    assert!(host.worktrees.is_empty());
}

#[test]
fn service_ops_expired_request_is_rejected() {
    let (mut host, _keys, owner) = setup();
    let device = host.host_hex.clone();
    let mut req = checkout_req("dev-1", "tanks/old", "aquarium/old");
    req.request_id = "1000000000000-0123456789abcdef0123456789abcdef".into();
    let outcome = host.handle(&owner.public_key().to_hex(), &device, &req, now_ms());
    assert_eq!(outcome.receipt.status, ReceiptStatus::Rejected);
    assert!(host.worktrees.is_empty());
}

#[test]
fn revoked_grant_is_rejected() {
    let keys = Keys::generate();
    let owner = Keys::generate();
    let service = DeviceService::open(Journal::new(), grant(&keys, &owner, 2, true), None).unwrap();
    let mut host = Host { service, host_hex: keys.public_key().to_hex(), worktrees: vec![] };
    let device = host.host_hex.clone();
    let mut req = checkout_req("dev-1", "tanks/revoked", "aquarium/revoked");
    req.grant_generation = 2;
    let outcome = host.handle(&owner.public_key().to_hex(), &device, &req, now_ms());
    assert_eq!(outcome.receipt.status, ReceiptStatus::Rejected);
    assert_eq!(outcome.receipt.error.as_deref(), Some("device grant is not active"));
    assert!(host.worktrees.is_empty());
}

#[test]
fn stale_generation_and_wrong_device_id_are_rejected() {
    let (mut host, _keys, owner) = setup();
    let device = host.host_hex.clone();
    let mut req = checkout_req("dev-1", "tanks/t2", "aquarium/t2");
    req.grant_generation = 7;
    let outcome = host.handle(&owner.public_key().to_hex(), &device, &req, now_ms());
    assert_eq!(outcome.receipt.error.as_deref(), Some("grant generation mismatch"));
    let other = checkout_req("dev-2", "tanks/t3", "aquarium/t3");
    let outcome = host.handle(&owner.public_key().to_hex(), &device, &other, now_ms());
    assert_eq!(outcome.receipt.error.as_deref(), Some("device_id does not match this host"));
    assert!(host.worktrees.is_empty());
}

#[test]
fn missing_branch_fails_without_mutation() {
    let (mut host, _keys, owner) = setup();
    let device = host.host_hex.clone();
    let req = DeviceRequest {
        v: DEVICE_PROTOCOL_VERSION,
        request_id: generate_request_id().unwrap(),
        op: "create_checkout".into(),
        grant_generation: 1,
        device_id: "dev-1".into(),
        params: object(vec![("tank_id", text("tank-1")), ("relpath", text("tanks/t1"))]),
    };
    let outcome = host.handle(&owner.public_key().to_hex(), &device, &req, now_ms());
    assert_eq!(outcome.receipt.status, ReceiptStatus::Failed);
    assert_eq!(outcome.receipt.error.as_deref(), Some("transport: missing params.branch"));
    assert!(!outcome.mutated);
}

#[test]
fn unknown_op_is_a_transport_error() {
    let (mut host, _keys, owner) = setup();
    let device = host.host_hex.clone();
    let mut req = checkout_req("dev-1", "tanks/t1", "aquarium/t1");
    req.op = "format_disk".into();
    let err = host.service.begin_request(&owner.public_key().to_hex(), &device, &req, now_ms()).unwrap_err();
    assert_eq!(err, DeviceError::Transport("unknown op format_disk".into()));
    assert!(host.service.journal.get(&req.request_id).is_none());
}

#[test]
fn inspect_capabilities_and_request() {
    let (mut host, _keys, owner) = setup();
    let device = host.host_hex.clone();
    let checkout = checkout_req("dev-1", "tanks/t1", "aquarium/t1");
    host.handle(&owner.public_key().to_hex(), &device, &checkout, now_ms());
    let caps = DeviceRequest {
        v: DEVICE_PROTOCOL_VERSION,
        request_id: generate_request_id().unwrap(),
        op: "inspect_capabilities".into(),
        grant_generation: 1,
        device_id: "dev-1".into(),
        params: object(vec![]),
    };
    let outcome = host.handle(&owner.public_key().to_hex(), &device, &caps, now_ms());
    assert_eq!(outcome.receipt.status, ReceiptStatus::Succeeded);
    assert!(!outcome.mutated);
    assert_eq!(outcome.receipt.evidence.get("device_id").and_then(|v| v.as_str()).map(|s| s.as_str()), Some("dev-1"));
    assert_eq!(outcome.receipt.evidence.get("grant_generation").and_then(|v| v.as_u64()), Some(1));
    let inspect = DeviceRequest {
        v: DEVICE_PROTOCOL_VERSION,
        request_id: generate_request_id().unwrap(),
        op: "inspect_request".into(),
        grant_generation: 1,
        device_id: "dev-1".into(),
        params: object(vec![("request_id", text(&checkout.request_id))]),
    };
    let outcome = host.handle(&owner.public_key().to_hex(), &device, &inspect, now_ms());
    assert_eq!(outcome.receipt.status, ReceiptStatus::Succeeded);
    assert_eq!(outcome.receipt.evidence.get("status").and_then(|v| v.as_str()).map(|s| s.as_str()), Some("succeeded"));
}

#[test]
fn cancel_needs_a_pid() {
    let (mut host, _keys, owner) = setup();
    let device = host.host_hex.clone();
    let mut req = checkout_req("dev-1", "tanks/t1", "aquarium/t1");
    req.op = "cancel_session".into();
    req.params = object(vec![]);
    let outcome = host.handle(&owner.public_key().to_hex(), &device, &req, now_ms());
    assert_eq!(outcome.receipt.status, ReceiptStatus::Failed);
    assert_eq!(outcome.receipt.error.as_deref(), Some("agent: cancel_session needs params.pid"));
    let mut req = checkout_req("dev-1", "tanks/t1", "aquarium/t1");
    req.op = "cancel_session".into();
    req.params = object(vec![("pid", Json::Number(JsonNumber::Unsigned(4242)))]);
    let outcome = host.handle(&owner.public_key().to_hex(), &device, &req, now_ms());
    assert_eq!(outcome.receipt.status, ReceiptStatus::Succeeded);
    assert!(outcome.mutated);
    assert_eq!(outcome.receipt.evidence.get("cancelled_pid").and_then(|v| v.as_u64()), Some(4242));
}

#[test]
fn restart_marks_executing_rows_uncertain() {
    let (mut host, _keys, owner) = setup();
    let device = host.host_hex.clone();
    let req = checkout_req("dev-1", "tanks/t9", "aquarium/t9");
    match host.service.begin_request(&owner.public_key().to_hex(), &device, &req, now_ms()).unwrap() {
        RequestStep::Pending(_) => {}
        RequestStep::Done(_) => panic!("a checkout needs the runner"),
    }
    assert_eq!(host.service.journal.get(&req.request_id).unwrap().state, RequestState::Executing);
    host.service.reconcile_on_start(&vec![]);
    let row = host.service.journal.get(&req.request_id).unwrap();
    assert_eq!(row.state, RequestState::Uncertain);
    assert!(row.error.as_deref().unwrap().contains("will not be retried"));
    let replay = host.handle(&owner.public_key().to_hex(), &device, &req, now_ms());
    assert_eq!(replay.receipt.status, ReceiptStatus::Uncertain);
    assert!(!replay.mutated);
    assert!(host.worktrees.is_empty());
}

#[test]
fn grant_needs_exactly_one_root() {
    let keys = Keys::generate();
    let owner = Keys::generate();
    let mut g = grant(&keys, &owner, 1, false);
    g.allowed_roots = vec![];
    let err = DeviceService::open(Journal::new(), g, None).err().unwrap();
    assert_eq!(err.message(), "grant: prototype requires exactly one allowed root");
}

#[test]
fn inspecting_an_unknown_request_fails() {
    let (mut host, _keys, owner) = setup();
    let device = host.host_hex.clone();
    let inspect = DeviceRequest {
        v: DEVICE_PROTOCOL_VERSION,
        request_id: generate_request_id().unwrap(),
        op: "inspect_request".into(),
        grant_generation: 1,
        device_id: "dev-1".into(),
        params: object(vec![("request_id", text("1700000000000-ffffffffffffffffffffffffffffffff"))]),
    };
    let outcome = host.handle(&owner.public_key().to_hex(), &device, &inspect, now_ms());
    assert_eq!(outcome.receipt.status, ReceiptStatus::Failed);
    assert_eq!(outcome.receipt.error.as_deref(), Some("journal: request not found"));
    assert!(!outcome.mutated);
}

#[test]
fn reconciling_twice_changes_nothing_more() {
    let (mut host, _keys, owner) = setup();
    let device = host.host_hex.clone();
    let req = checkout_req("dev-1", "tanks/t8", "aquarium/t8");
    let _ = host.service.begin_request(&owner.public_key().to_hex(), &device, &req, now_ms()).unwrap();
    host.service.reconcile_on_start(&vec![]);
    let first = host.service.journal.get(&req.request_id).unwrap().state;
    host.service.reconcile_on_start(&vec![]);
    assert_eq!(host.service.journal.get(&req.request_id).unwrap().state, first);
    assert_eq!(first, RequestState::Uncertain);
}

#[test]
fn unsafe_paths_fail_before_any_host_action() {
    for (repo, rel) in [("repo", "../escape"), ("/etc", "tanks/t9"), ("repo", "tanks/../../x")] {
        let (mut host, _keys, owner) = setup();
        let device = host.host_hex.clone();
        let mut req = checkout_req("dev-1", rel, "aquarium/escape");
        if let Json::Object(members) = &mut req.params {
            for (k, v) in members.iter_mut() {
                if k == "repo_relpath" {
                    *v = text(repo);
                }
            }
        }
        let outcome = host.handle(&owner.public_key().to_hex(), &device, &req, now_ms());
        assert_eq!(outcome.receipt.status, ReceiptStatus::Failed);
        assert_eq!(outcome.receipt.error.as_deref(), Some("path is outside the allowed root grammar"));
        assert!(!outcome.mutated);
        let row = host.service.journal.get(&req.request_id).unwrap();
        assert_eq!(row.state, RequestState::Failed);
        assert!(host.worktrees.is_empty());
    }
}

#[test]
fn unsafe_repository_path_fails_without_the_runner() {
    let (mut host, _keys, owner) = setup();
    let device = host.host_hex.clone();
    let mut req = checkout_req("dev-1", "tanks/t9", "aquarium/t9");
    if let Json::Object(members) = &mut req.params {
        for (k, v) in members.iter_mut() {
            if k == "repo_relpath" {
                *v = text("../outside");
            }
        }
    }
    match host.service.begin_request(&owner.public_key().to_hex(), &device, &req, now_ms()).unwrap() {
        RequestStep::Done(o) => assert_eq!(o.receipt.status, ReceiptStatus::Failed),
        RequestStep::Pending(_) => panic!("an unsafe repository path reached the runner"),
    }
}

#[test]
fn pending_request_rows_are_handed_over_before_acting() {
    let (mut host, _keys, owner) = setup();
    let device = host.host_hex.clone();
    host.service.journal.take_writes();
    let req = checkout_req("dev-1", "tanks/w1", "aquarium/w1");
    let step = host.service.begin_request(&owner.public_key().to_hex(), &device, &req, now_ms()).unwrap();
    let written = host.service.journal.take_writes();
    assert_eq!(written.len(), 2);
    assert_eq!(written[0].state, RequestState::Accepted);
    assert_eq!(written[1].state, RequestState::Executing);
    assert_eq!(written[1].request_id, req.request_id);
    let pending = match step {
        RequestStep::Pending(p) => p,
        RequestStep::Done(_) => panic!("checkout should wait for the runner"),
    };
    let result = HostResult::Failed(DeviceError::Git("boom".into()));
    host.service.finish_request(pending, result);
    let written = host.service.journal.take_writes();
    assert_eq!(written.len(), 1);
    assert_eq!(written[0].state, RequestState::Failed);
}

#[test]
fn journal_row_keeps_request_params() {
    let (mut host, _keys, owner) = setup();
    let device = host.host_hex.clone();
    let req = checkout_req("dev-1", "tanks/p1", "aquarium/p1");
    let outcome = host.handle(&owner.public_key().to_hex(), &device, &req, now_ms());
    assert_eq!(outcome.receipt.status, ReceiptStatus::Succeeded);
    let row = host.service.journal.get(&req.request_id).unwrap();
    assert_eq!(row.params, req.params);
}

#[test]
fn host_key_must_match_grant() {
    let keys = Keys::generate();
    let owner = Keys::generate();
    let g = grant(&keys, &owner, 1, false);
    let hex = keys.public_key().to_hex();
    assert_eq!(g.check_host_key(&hex), Ok(()));
    assert_eq!(g.check_host_key(&hex.to_uppercase()), Ok(()));
    assert_eq!(
        g.check_host_key(&owner.public_key().to_hex()),
        Err("nsec file does not match grant device_pubkey_hex".to_string())
    );
    assert!(g.check_host_key(&format!(" {hex}")).is_err());
}
