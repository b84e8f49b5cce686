use buzz_device::assignment::{
    coord_tags, handle_coord, parse_coord_event, CoordBind, CoordDecision, CoordJournal, CoordMessage, EventFields,
    KIND_STREAM_MESSAGE,
};
use buzz_device::coord::{CoordPeers, CoordPhase, CoordStatus};
use buzz_device::json::{Json, JsonNumber};
use nostr::key::Keys;

fn hex(keys: &Keys) -> String {
    keys.public_key().to_hex()
}

fn worker_bind(worker: &Keys) -> CoordBind {
    CoordBind {
        self_pubkey_hex: hex(worker),
        conversation_id: "conv".into(),
        tank_id: "tank".into(),
    }
}

fn assignment_id() -> &'static str {
    "1788581600001-bbbbbbbbbbbbbbbbbbbbbbbbbbbbbbbb"
}

fn body(members: Vec<(&str, Json)>) -> Json {
    Json::Object(members.into_iter().map(|(k, v)| (k.to_string(), v)).collect())
}

fn text(s: &str) -> Json {
    Json::Str(s.to_string())
}

fn num(n: u64) -> Json {
    Json::Number(JsonNumber::Unsigned(n))
}

/// A marker-writing host: applies the decision to the journal and to the
/// set of marker files, as the host runner does.
struct Host {
    journal: CoordJournal,
    markers: Vec<(String, String)>,
}

impl Host {
    fn new() -> Host {
        Host { journal: CoordJournal::new(), markers: Vec::new() }
    }

    fn handle(
        &mut self,
        peers: &CoordPeers,
        bind: &CoordBind,
        msg: &CoordMessage,
    ) -> Result<(CoordStatus, bool), String> {
        match handle_coord(&self.journal, peers, bind, msg, true) {
            Err(e) => Err(e.message()),
            Ok(CoordDecision::Answer(status)) => Ok((status, false)),
            Ok(CoordDecision::Record { status, marker, entry }) => {
                let mut mutated = false;
                if let Some(m) = marker {
                    if !self.markers.iter().any(|(name, _)| name == &m.file_name) {
                        self.markers.push((m.file_name, m.content));
                    }
                    mutated = true;
                }
                self.journal.put(entry);
                Ok((status, mutated))
            }
        }
    }

    fn marker(&self, name: &str) -> Option<String> {
        self.markers.iter().find(|(n, _)| n == name).map(|(_, c)| c.clone())
    }
}

fn message(sender: &Keys, phase: CoordPhase, p_tags: Vec<String>, conversation: &str, body: Json) -> CoordMessage {
    CoordMessage {
        sender: hex(sender),
        phase,
        assignment_id: assignment_id().into(),
        tank_id: "tank".into(),
        conversation_id: conversation.into(),
        p_tags,
        body,
    }
}

#[test]
fn unrelated_sender_does_not_mutate() {
    let mut host = Host::new();
    let leader = Keys::generate();
    let worker = Keys::generate();
    let stranger = Keys::generate();
    let peers = CoordPeers { leader_pubkey_hex: hex(&leader), worker_pubkey_hex: hex(&worker) };
    let msg = message(&stranger, CoordPhase::Delegate, vec![hex(&worker)], "conv", body(vec![("task", text("x")), ("hops", num(0))]));
    let (status, mutated) = host.handle(&peers, &worker_bind(&worker), &msg).unwrap();
    assert_eq!(status, CoordStatus::Rejected);
    assert!(!mutated);
    assert!(host.journal.get(&msg.assignment_id).is_none());
}

#[test]
fn duplicate_result_does_not_rewrite_marker() {
    let mut host = Host::new();
    let leader = Keys::generate();
    let worker = Keys::generate();
    let peers = CoordPeers { leader_pubkey_hex: hex(&leader), worker_pubkey_hex: hex(&worker) };
    let id = assignment_id();
    let msg = message(
        &worker,
        CoordPhase::Result,
        vec![hex(&leader)],
        "conv",
        body(vec![("task", text("hello")), ("hops", num(0)), ("status", text("succeeded"))]),
    );
    let (first, mutated) = host.handle(&peers, &worker_bind(&worker), &msg).unwrap();
    assert_eq!(first, CoordStatus::Succeeded);
    assert!(mutated);
    let marker = format!("COORD-{id}.txt");
    assert_eq!(host.marker(&marker).as_deref(), Some("hello\n"));
    host.markers[0].1 = "tamper\n".to_string();
    let (second, mutated_again) = host.handle(&peers, &worker_bind(&worker), &msg).unwrap();
    assert_eq!(second, CoordStatus::Duplicate);
    assert!(!mutated_again);
    assert_eq!(host.marker(&marker).as_deref(), Some("tamper\n"));
}

#[test]
fn unknown_result_status_does_not_write_marker() {
    let mut host = Host::new();
    let leader = Keys::generate();
    let worker = Keys::generate();
    let peers = CoordPeers { leader_pubkey_hex: hex(&leader), worker_pubkey_hex: hex(&worker) };
    let msg = message(
        &worker,
        CoordPhase::Result,
        vec![hex(&leader)],
        "conv",
        body(vec![("task", text("hello")), ("hops", num(0)), ("status", text("yolo-ok"))]),
    );
    let (status, mutated) = host.handle(&peers, &worker_bind(&worker), &msg).unwrap();
    assert_eq!(status, CoordStatus::Rejected);
    assert!(!mutated);
    assert!(host.journal.get(&msg.assignment_id).is_none());
    assert!(host.marker(&format!("COORD-{}.txt", assignment_id())).is_none());
}

#[test]
fn missing_p_tag_is_rejected() {
    let mut host = Host::new();
    let leader = Keys::generate();
    let worker = Keys::generate();
    let peers = CoordPeers { leader_pubkey_hex: hex(&leader), worker_pubkey_hex: hex(&worker) };
    let msg = message(&leader, CoordPhase::Delegate, vec![], "conv", body(vec![("task", text("x")), ("hops", num(0))]));
    let (status, mutated) = host.handle(&peers, &worker_bind(&worker), &msg).unwrap();
    assert_eq!(status, CoordStatus::Rejected);
    assert!(!mutated);
    assert!(host.journal.get(&msg.assignment_id).is_none());
}

#[test]
fn wrong_conversation_is_rejected() {
    let mut host = Host::new();
    let leader = Keys::generate();
    let worker = Keys::generate();
    let peers = CoordPeers { leader_pubkey_hex: hex(&leader), worker_pubkey_hex: hex(&worker) };
    let msg = message(
        &leader,
        CoordPhase::Delegate,
        vec![hex(&worker)],
        "other-channel",
        body(vec![("task", text("x")), ("hops", num(0))]),
    );
    let (status, mutated) = host.handle(&peers, &worker_bind(&worker), &msg).unwrap();
    assert_eq!(status, CoordStatus::Rejected);
    assert!(!mutated);
    assert!(host.journal.get(&msg.assignment_id).is_none());
}

#[test]
fn fingerprint_mismatch_is_rejected_without_cwd_mutation() {
    let mut host = Host::new();
    let leader = Keys::generate();
    let worker = Keys::generate();
    let peers = CoordPeers { leader_pubkey_hex: hex(&leader), worker_pubkey_hex: hex(&worker) };
    let first = message(
        &worker,
        CoordPhase::Result,
        vec![hex(&leader)],
        "conv",
        body(vec![("task", text("hello")), ("hops", num(0)), ("status", text("succeeded"))]),
    );
    let (status, mutated) = host.handle(&peers, &worker_bind(&worker), &first).unwrap();
    assert_eq!(status, CoordStatus::Succeeded);
    assert!(mutated);
    let marker = format!("COORD-{}.txt", assignment_id());
    let original = host.marker(&marker);
    let second = message(
        &leader,
        CoordPhase::Delegate,
        vec![hex(&worker)],
        "conv",
        body(vec![("task", text("other")), ("hops", num(0))]),
    );
    let (status, mutated) = host.handle(&peers, &worker_bind(&worker), &second).unwrap();
    assert_eq!(status, CoordStatus::Rejected);
    assert!(!mutated);
    assert_eq!(host.marker(&marker), original);
}

#[test]
fn hop_limit_on_inbound_delegate_is_an_error() {
    let mut host = Host::new();
    let leader = Keys::generate();
    let worker = Keys::generate();
    let peers = CoordPeers { leader_pubkey_hex: hex(&leader), worker_pubkey_hex: hex(&worker) };
    let msg = message(&leader, CoordPhase::Delegate, vec![hex(&worker)], "conv", body(vec![("task", text("x")), ("hops", num(1))]));
    let err = host.handle(&peers, &worker_bind(&worker), &msg).unwrap_err();
    assert!(err.contains("hop limit"));
    assert!(host.journal.get(&msg.assignment_id).is_none());
}

#[test]
fn string_hops_on_delegate_is_rejected() {
    let mut host = Host::new();
    let leader = Keys::generate();
    let worker = Keys::generate();
    let peers = CoordPeers { leader_pubkey_hex: hex(&leader), worker_pubkey_hex: hex(&worker) };
    let msg = message(&leader, CoordPhase::Delegate, vec![hex(&worker)], "conv", body(vec![("task", text("x")), ("hops", text("1"))]));
    let (status, mutated) = host.handle(&peers, &worker_bind(&worker), &msg).unwrap();
    assert_eq!(status, CoordStatus::Rejected);
    assert!(!mutated);
    assert!(host.journal.get(&msg.assignment_id).is_none());
}

#[test]
fn accepted_delegate_is_journaled_once() {
    let mut host = Host::new();
    let leader = Keys::generate();
    let worker = Keys::generate();
    let peers = CoordPeers { leader_pubkey_hex: hex(&leader), worker_pubkey_hex: hex(&worker) };
    let msg = message(&leader, CoordPhase::Delegate, vec![hex(&worker)], "conv", body(vec![("task", text("x")), ("hops", num(0))]));
    let (status, mutated) = host.handle(&peers, &worker_bind(&worker), &msg).unwrap();
    assert_eq!(status, CoordStatus::Succeeded);
    assert!(!mutated);
    let row = host.journal.get(assignment_id()).unwrap();
    assert_eq!(row.events_seen, 1);
    assert_eq!(row.last_phase, "delegate");
    assert_eq!(row.status, "succeeded");
    let journaled = host.journal.take_writes();
    assert_eq!(journaled.len(), 1);
    assert_eq!(host.journal.len(), 1);
}

#[test]
fn parse_reads_p_tag() {
    let leader = Keys::generate();
    let worker = Keys::generate();
    let event = EventFields {
        kind: KIND_STREAM_MESSAGE as u16,
        pubkey_hex: hex(&leader),
        tags: coord_tags(&hex(&worker), "conv", "tank", assignment_id(), CoordPhase::Delegate),
        body: body(vec![("task", text("x")), ("hops", num(0))]),
    };
    let parsed = parse_coord_event(&event).unwrap();
    assert_eq!(parsed.p_tags, vec![hex(&worker)]);
    assert_eq!(parsed.conversation_id, "conv");
    assert_eq!(parsed.tank_id, "tank");
    assert_eq!(parsed.phase, CoordPhase::Delegate);
    assert_eq!(parsed.sender, hex(&leader));
}

#[test]
fn other_kinds_are_not_coordination() {
    let leader = Keys::generate();
    let worker = Keys::generate();
    let event = EventFields {
        kind: 1,
        pubkey_hex: hex(&leader),
        tags: coord_tags(&hex(&worker), "conv", "tank", assignment_id(), CoordPhase::Delegate),
        body: Json::Null,
    };
    assert!(parse_coord_event(&event).is_none());
}

#[test]
fn coord_journal_files_are_named_by_assignment() {
    assert_eq!(CoordJournal::path_for(assignment_id()), format!("{}.json", assignment_id()));
}
