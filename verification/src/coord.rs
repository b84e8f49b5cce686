//! Same-tank leader/worker assignment protocol: phases, statuses and the
//! peer/hop/event-budget check. Pure logic; no I/O.

use vstd::prelude::*;
use crate::device::{is_request_id, parse_request_timestamp, DeviceProtocolError};
use crate::canonical::{json_text, push_json};
use crate::digest::{digest_hex, is_hex_digest, text_digest};
use crate::json::{field, lemma_field_of_distinct, lemma_members_model, members_model, Json, JsonModel};
use crate::text::{lower, lowered, same_key, same_key_chars, str_eq, string_from_chars, trim, trimmed};

verus! {

/// Wire version for coordination JSON bodies.
pub const COORD_PROTOCOL_VERSION: u32 = 1;
/// One delegation hop only (leader to worker).
pub const COORD_MAX_HOPS: u32 = 1;
/// Hard cap on signed events processed per assignment (loop bound).
pub const COORD_MAX_EVENTS: u32 = 8;

/// Coordination protocol errors.
#[derive(Debug, Clone, Copy, PartialEq, Eq, Structural)]
pub enum CoordError {
    /// Assignment id is not the device request-id grammar.
    InvalidAssignmentId,
    /// Sender is not the leader or worker for this assignment.
    UnauthorizedPeer,
    /// Worker tried to delegate (hop budget).
    HopLimit,
    /// Too many events for one assignment.
    EventBudget,
    /// Phase is not allowed from this sender.
    WrongPhase,
    /// JSON could not be canonicalized.
    InvalidParams,
}

/// Human-readable text of each coordination error.
pub open spec fn coord_error_text(e: CoordError) -> Seq<char> {
    match e {
        CoordError::InvalidAssignmentId => "invalid assignment id"@,
        CoordError::UnauthorizedPeer => "sender is not an authorized peer for this assignment"@,
        CoordError::HopLimit => "delegation hop limit exceeded"@,
        CoordError::EventBudget => "assignment event budget exceeded"@,
        CoordError::WrongPhase => "coordination phase is not allowed from this sender"@,
        CoordError::InvalidParams => "coordination parameters are not canonical JSON"@,
    }
}

impl CoordError {
    /// The error's message, as it is shown to users.
    pub fn message(&self) -> (m: String)
        ensures
            m@ == coord_error_text(*self),
    {
        match self {
            CoordError::InvalidAssignmentId => "invalid assignment id".to_string(),
            CoordError::UnauthorizedPeer => "sender is not an authorized peer for this assignment".to_string(),
            CoordError::HopLimit => "delegation hop limit exceeded".to_string(),
            CoordError::EventBudget => "assignment event budget exceeded".to_string(),
            CoordError::WrongPhase => "coordination phase is not allowed from this sender".to_string(),
            CoordError::InvalidParams => "coordination parameters are not canonical JSON".to_string(),
        }
    }

    /// Every device-protocol error seen while checking an assignment id is an
    /// invalid assignment id.
    pub fn from_protocol_error(_err: DeviceProtocolError) -> (e: CoordError)
        ensures
            e == CoordError::InvalidAssignmentId,
    {
        CoordError::InvalidAssignmentId
    }
}

/// Coordination phase carried in the `coord` tag.
#[derive(Debug, Clone, Copy, PartialEq, Eq, Structural)]
pub enum CoordPhase {
    /// Leader assigns work.
    Delegate,
    /// Worker received the assignment.
    Ack,
    /// Worker finished or failed.
    Result,
    /// Leader automatically continues after a result.
    Continue,
}

/// Tag value of each phase.
pub open spec fn phase_name(p: CoordPhase) -> Seq<char> {
    match p {
        CoordPhase::Delegate => "delegate"@,
        CoordPhase::Ack => "ack"@,
        CoordPhase::Result => "result"@,
        CoordPhase::Continue => "continue"@,
    }
}

/// The phase whose tag value is `raw`, if any.
pub open spec fn phase_from_name(raw: Seq<char>) -> Option<CoordPhase> {
    if raw == "delegate"@ {
        Some(CoordPhase::Delegate)
    } else if raw == "ack"@ {
        Some(CoordPhase::Ack)
    } else if raw == "result"@ {
        Some(CoordPhase::Result)
    } else if raw == "continue"@ {
        Some(CoordPhase::Continue)
    } else {
        None
    }
}

impl CoordPhase {
    /// Parse a `coord` tag value.
    pub fn parse(raw: &str) -> (r: Option<CoordPhase>)
        ensures
            r == phase_from_name(raw@),
    {
        if str_eq(raw, "delegate") {
            Some(CoordPhase::Delegate)
        } else if str_eq(raw, "ack") {
            Some(CoordPhase::Ack)
        } else if str_eq(raw, "result") {
            Some(CoordPhase::Result)
        } else if str_eq(raw, "continue") {
            Some(CoordPhase::Continue)
        } else {
            None
        }
    }

    /// Tag value.
    pub fn as_str(self) -> (s: &'static str)
        ensures
            s@ == phase_name(self),
    {
        match self {
            CoordPhase::Delegate => "delegate",
            CoordPhase::Ack => "ack",
            CoordPhase::Result => "result",
            CoordPhase::Continue => "continue",
        }
    }
}

/// Every phase's tag value parses back to that phase, and distinct phases
/// have distinct tag values.
pub proof fn lemma_phase_name_round_trip(p: CoordPhase, q: CoordPhase)
    ensures
        phase_from_name(phase_name(p)) == Some(p),
        phase_name(p) == phase_name(q) ==> p == q,
{
    reveal_strlit("delegate");
    reveal_strlit("ack");
    reveal_strlit("result");
    reveal_strlit("continue");
    assert("ack"@.len() != "delegate"@.len());
    assert("result"@.len() != "delegate"@.len());
    assert("result"@.len() != "ack"@.len());
    assert("continue"@[0] != "delegate"@[0]);
    assert("continue"@.len() != "ack"@.len());
    assert("continue"@.len() != "result"@.len());
}

/// Runtime-enforced assignment outcome. Model-authored text is not authority.
#[derive(Debug, Clone, Copy, PartialEq, Eq, Structural)]
pub enum CoordStatus {
    /// Worker completed the bounded task.
    Succeeded,
    /// Worker failed.
    Failed,
    /// Rejected before work.
    Rejected,
    /// Same assignment id already completed.
    Duplicate,
}

/// Wire label of each status.
pub open spec fn status_name(s: CoordStatus) -> Seq<char> {
    match s {
        CoordStatus::Succeeded => "succeeded"@,
        CoordStatus::Failed => "failed"@,
        CoordStatus::Rejected => "rejected"@,
        CoordStatus::Duplicate => "duplicate"@,
    }
}

/// The status whose wire label is `raw`, if any.
pub open spec fn status_from_name(raw: Seq<char>) -> Option<CoordStatus> {
    if raw == "succeeded"@ {
        Some(CoordStatus::Succeeded)
    } else if raw == "failed"@ {
        Some(CoordStatus::Failed)
    } else if raw == "rejected"@ {
        Some(CoordStatus::Rejected)
    } else if raw == "duplicate"@ {
        Some(CoordStatus::Duplicate)
    } else {
        None
    }
}

impl CoordStatus {
    /// Parse status from JSON.
    pub fn parse(raw: &str) -> (r: Option<CoordStatus>)
        ensures
            r == status_from_name(raw@),
    {
        if str_eq(raw, "succeeded") {
            Some(CoordStatus::Succeeded)
        } else if str_eq(raw, "failed") {
            Some(CoordStatus::Failed)
        } else if str_eq(raw, "rejected") {
            Some(CoordStatus::Rejected)
        } else if str_eq(raw, "duplicate") {
            Some(CoordStatus::Duplicate)
        } else {
            None
        }
    }

    /// Wire label.
    pub fn as_str(self) -> (s: &'static str)
        ensures
            s@ == status_name(self),
    {
        match self {
            CoordStatus::Succeeded => "succeeded",
            CoordStatus::Failed => "failed",
            CoordStatus::Rejected => "rejected",
            CoordStatus::Duplicate => "duplicate",
        }
    }
}

/// Every status's wire label parses back to that status.
pub proof fn lemma_status_name_round_trip(s: CoordStatus)
    ensures
        status_from_name(status_name(s)) == Some(s),
{
    reveal_strlit("succeeded");
    reveal_strlit("failed");
    reveal_strlit("rejected");
    reveal_strlit("duplicate");
    assert("failed"@.len() != "succeeded"@.len());
    assert("rejected"@.len() != "succeeded"@.len());
    assert("rejected"@.len() != "failed"@.len());
    assert("duplicate"@[0] != "succeeded"@[0]);
    assert("duplicate"@.len() != "failed"@.len());
    assert("duplicate"@[0] != "rejected"@[0]);
}

/// Peers bound to one assignment.
#[derive(Debug, Clone)]
pub struct CoordPeers {
    /// Leader pubkey hex.
    pub leader_pubkey_hex: String,
    /// Worker pubkey hex.
    pub worker_pubkey_hex: String,
}

/// Validate assignment id grammar (same as device request ids).
pub fn check_assignment_id(assignment_id: &str) -> (r: Result<(), CoordError>)
    ensures
        r == (if is_request_id(assignment_id@) {
            Ok::<(), CoordError>(())
        } else {
            Err(CoordError::InvalidAssignmentId)
        }),
{
    match parse_request_timestamp(assignment_id) {
        Ok(_) => Ok(()),
        Err(e) => Err(CoordError::from_protocol_error(e)),
    }
}

/// The sender is allowed to send `phase`: delegate and continue come from the
/// leader, ack and result from the worker.
pub open spec fn phase_allowed(phase: CoordPhase, leader_ok: bool, worker_ok: bool) -> bool {
    match phase {
        CoordPhase::Delegate | CoordPhase::Continue => leader_ok,
        CoordPhase::Ack | CoordPhase::Result => worker_ok,
    }
}

/// The verdict of [`authorize_coord_peer`].
pub open spec fn coord_peer_verdict(
    peers: CoordPeers,
    sender: Seq<char>,
    phase: CoordPhase,
    hops: u32,
    events_seen: u32,
) -> Result<(), CoordError> {
    let leader_ok = same_key(trim(sender), trim(peers.leader_pubkey_hex@));
    let worker_ok = same_key(trim(sender), trim(peers.worker_pubkey_hex@));
    if events_seen >= COORD_MAX_EVENTS {
        Err(CoordError::EventBudget)
    } else if hops >= COORD_MAX_HOPS && phase == CoordPhase::Delegate {
        Err(CoordError::HopLimit)
    } else if !leader_ok && !worker_ok {
        Err(CoordError::UnauthorizedPeer)
    } else if phase_allowed(phase, leader_ok, worker_ok) {
        Ok(())
    } else {
        Err(CoordError::WrongPhase)
    }
}

/// Authorize a sender for a phase. Unrelated pubkeys fail closed.
pub fn authorize_coord_peer(
    peers: &CoordPeers,
    sender_pubkey_hex: &str,
    phase: CoordPhase,
    hops: u32,
    events_seen: u32,
) -> (r: Result<(), CoordError>)
    ensures
        r == coord_peer_verdict(*peers, sender_pubkey_hex@, phase, hops, events_seen),
{
    if events_seen >= COORD_MAX_EVENTS {
        return Err(CoordError::EventBudget);
    }
    if hops >= COORD_MAX_HOPS && phase == CoordPhase::Delegate {
        return Err(CoordError::HopLimit);
    }
    let sender = trimmed(sender_pubkey_hex);
    let leader = trimmed(peers.leader_pubkey_hex.as_str());
    let worker = trimmed(peers.worker_pubkey_hex.as_str());
    let leader_ok = same_key_chars(&sender, &leader);
    let worker_ok = same_key_chars(&sender, &worker);
    if !leader_ok && !worker_ok {
        return Err(CoordError::UnauthorizedPeer);
    }
    let allowed = match phase {
        CoordPhase::Delegate | CoordPhase::Continue => leader_ok,
        CoordPhase::Ack | CoordPhase::Result => worker_ok,
    };
    if allowed {
        Ok(())
    } else {
        Err(CoordError::WrongPhase)
    }
}

/// The canonical text that an assignment fingerprint digests:
/// `{conversation_id, tank_id, task, worker_pubkey_hex}`, the worker key
/// trimmed and lowered.
pub open spec fn assignment_text(tank_id: Seq<char>, conversation_id: Seq<char>, worker: Seq<char>, task: Seq<char>) -> Seq<char> {
    json_text(
        JsonModel::Object(
            seq![
                ("conversation_id"@, JsonModel::Str(conversation_id)),
                ("tank_id"@, JsonModel::Str(tank_id)),
                ("task"@, JsonModel::Str(task)),
                ("worker_pubkey_hex"@, JsonModel::Str(lower(trim(worker)))),
            ],
        ),
    )
}

/// Fingerprint of `{tank_id, conversation_id, worker, task}` (no secrets).
pub fn assignment_fingerprint(tank_id: &str, conversation_id: &str, worker_pubkey_hex: &str, task: &str) -> (r: Result<String, CoordError>)
    ensures
        r is Ok,
        r matches Ok(f) ==> f@ == digest_hex(assignment_text(tank_id@, conversation_id@, worker_pubkey_hex@, task@)) && is_hex_digest(f@),
{
    let worker = lowered(&trimmed(worker_pubkey_hex));
    let mut body: Vec<(String, Json)> = Vec::new();
    body.push(("conversation_id".to_string(), Json::Str(conversation_id.to_string())));
    body.push(("tank_id".to_string(), Json::Str(tank_id.to_string())));
    body.push(("task".to_string(), Json::Str(task.to_string())));
    body.push(("worker_pubkey_hex".to_string(), Json::Str(string_from_chars(worker.as_slice()))));
    proof {
        lemma_members_model(body@);
        assert(members_model(body@) =~= seq![
            ("conversation_id"@, JsonModel::Str(conversation_id@)),
            ("tank_id"@, JsonModel::Str(tank_id@)),
            ("task"@, JsonModel::Str(task@)),
            ("worker_pubkey_hex"@, JsonModel::Str(lower(trim(worker_pubkey_hex@)))),
        ]);
    }
    let object = Json::Object(body);
    let mut text: Vec<char> = Vec::new();
    push_json(&object, &mut text);
    Ok(text_digest(&text))
}

/// No sender that is neither the leader nor the worker is ever authorized,
/// whatever the phase, hop count or event count.
pub proof fn lemma_unrelated_sender_fails_closed(
    peers: CoordPeers,
    sender: Seq<char>,
    phase: CoordPhase,
    hops: u32,
    events_seen: u32,
)
    requires
        !same_key(trim(sender), trim(peers.leader_pubkey_hex@)),
        !same_key(trim(sender), trim(peers.worker_pubkey_hex@)),
    ensures
        coord_peer_verdict(peers, sender, phase, hops, events_seen) is Err,
{
}

/// Once an assignment has seen the event budget, every further event fails
/// with [`CoordError::EventBudget`].
pub proof fn lemma_event_budget_is_hard_cap(
    peers: CoordPeers,
    sender: Seq<char>,
    phase: CoordPhase,
    hops: u32,
    events_seen: u32,
)
    requires
        events_seen >= COORD_MAX_EVENTS,
    ensures
        coord_peer_verdict(peers, sender, phase, hops, events_seen) == Err::<(), CoordError>(CoordError::EventBudget),
{
}


/// The worker key's spelling does not change a fingerprint: two worker keys
/// that name the same key (equal after trimming, up to ASCII case) give the
/// same assignment fingerprint.
pub proof fn lemma_fingerprint_ignores_worker_spelling(
    tank_id: Seq<char>,
    conversation_id: Seq<char>,
    task: Seq<char>,
    w1: Seq<char>,
    w2: Seq<char>,
)
    requires
        same_key(w1, w2),
    ensures
        digest_hex(assignment_text(tank_id, conversation_id, w1, task)) == digest_hex(assignment_text(tank_id, conversation_id, w2, task)),
{
}

/// An assignment fingerprint digests the canonical text of a four-member
/// object that carries the conversation, the tank, the task and the worker
/// key (trimmed and lowered), each under its own name.
pub proof fn lemma_assignment_text_fields(tank_id: Seq<char>, conversation_id: Seq<char>, worker: Seq<char>, task: Seq<char>)
    ensures
        exists|o: JsonModel| #![trigger json_text(o)] {
            &&& assignment_text(tank_id, conversation_id, worker, task) == json_text(o)
            &&& o matches JsonModel::Object(m) && m.len() == 4
            &&& field(o, "conversation_id"@) == Some(JsonModel::Str(conversation_id))
            &&& field(o, "tank_id"@) == Some(JsonModel::Str(tank_id))
            &&& field(o, "task"@) == Some(JsonModel::Str(task))
            &&& field(o, "worker_pubkey_hex"@) == Some(JsonModel::Str(lower(trim(worker))))
        },
{
    reveal_strlit("conversation_id");
    reveal_strlit("tank_id");
    reveal_strlit("task");
    reveal_strlit("worker_pubkey_hex");
    assert("conversation_id"@.len() == 15 && "tank_id"@.len() == 7 && "task"@.len() == 4 && "worker_pubkey_hex"@.len() == 17);
    let o = JsonModel::Object(seq![
        ("conversation_id"@, JsonModel::Str(conversation_id)),
        ("tank_id"@, JsonModel::Str(tank_id)),
        ("task"@, JsonModel::Str(task)),
        ("worker_pubkey_hex"@, JsonModel::Str(lower(trim(worker)))),
    ]);
    let m = o->Object_0;
    lemma_field_of_distinct(m);
    assert(field(JsonModel::Object(m), m[0].0) == Some(m[0].1));
    assert(field(JsonModel::Object(m), m[1].0) == Some(m[1].1));
    assert(field(JsonModel::Object(m), m[2].0) == Some(m[2].1));
    assert(field(JsonModel::Object(m), m[3].0) == Some(m[3].1));
    assert(assignment_text(tank_id, conversation_id, worker, task) == json_text(o));
}

} // verus!
