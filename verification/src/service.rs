//! The device host: authorize, journal, then hand the mutation to the host
//! runner and record its outcome. Never falls back to the caller.

use vstd::prelude::*;
use vstd::string::StringExecFns;
use crate::device::{
    authorize_verdict, check_request_freshness, freshness_verdict, op_from_name, op_name,
    parameter_text, protocol_error_text, relative_path_is_safe, relative_path_safe, DeviceGrant,
    DeviceOp, DeviceProtocolError, DEVICE_PROTOCOL_VERSION,
};
use crate::digest::digest_hex;
use crate::text::str_eq;
use crate::wire::{fingerprint_request, receipt_json, DeviceRequest};
use crate::host::{copy_strings, device_error_text, DeviceError, GrantFile};
use crate::journal::{EntryModel, Journal, JournalEntry, RequestState};
use crate::json::{as_unsigned, field, lemma_field_of_distinct, lemma_items_model, lemma_members_model, items_model, members_model, text_field, Json, JsonModel, JsonNumber};
use crate::wire::{copy_opt, opt_text, DeviceReceipt, ReceiptModel, ReceiptStatus};

verus! {

/// Evidence that a checkout exists on this host.
#[derive(Debug)]
pub struct CheckoutEvidence {
    /// Absolute worktree path.
    pub path: String,
    /// Branch name.
    pub branch: String,
    /// HEAD commit.
    pub head: String,
    /// Host identifier (hostname).
    pub host: String,
}

/// Evidence that a session process is bound to a checkout.
#[derive(Debug)]
pub struct SessionEvidence {
    /// Session id.
    pub session_id: String,
    /// Process id.
    pub pid: u32,
    /// Working directory of the process.
    pub cwd: String,
    /// Path of the cwd proof file written by the fixture agent.
    pub cwd_proof_file: String,
}

/// Outcome of handling one request.
#[derive(Debug)]
pub struct HandleOutcome {
    /// Durable receipt.
    pub receipt: DeviceReceipt,
    /// Whether a mutation was attempted.
    pub mutated: bool,
}

/// Long-lived host state: the grant, the journal and the one allowed root.
pub struct DeviceService {
    /// Grant file contents.
    pub grant: GrantFile,
    /// Request journal.
    pub journal: Journal,
    /// The single allowed project root.
    pub allowed_root: String,
    /// Optional argv of the agent to run instead of the fixture agent.
    pub agent_command: Option<Vec<String>>,
}

/// The receipt status that reports a journal state.
pub open spec fn state_status(s: RequestState) -> ReceiptStatus {
    match s {
        RequestState::Succeeded => ReceiptStatus::Succeeded,
        RequestState::Failed => ReceiptStatus::Failed,
        RequestState::Rejected => ReceiptStatus::Rejected,
        RequestState::Conflict => ReceiptStatus::Conflict,
        RequestState::Uncertain => ReceiptStatus::Uncertain,
        RequestState::Accepted | RequestState::Executing => ReceiptStatus::Uncertain,
    }
}

/// The receipt that reports a journal row.
pub open spec fn receipt_of_entry(e: EntryModel) -> ReceiptModel {
    ReceiptModel {
        v: 1,
        request_id: e.request_id,
        fingerprint: e.fingerprint,
        status: state_status(e.state),
        evidence: e.outcome,
        error: e.error,
    }
}

/// The receipt that reports a journal row.
pub fn receipt_from_entry(entry: &JournalEntry) -> (r: DeviceReceipt)
    ensures
        r@ == receipt_of_entry(entry@),
{
    let status = match entry.state {
        RequestState::Succeeded => ReceiptStatus::Succeeded,
        RequestState::Failed => ReceiptStatus::Failed,
        RequestState::Rejected => ReceiptStatus::Rejected,
        RequestState::Conflict => ReceiptStatus::Conflict,
        RequestState::Uncertain => ReceiptStatus::Uncertain,
        RequestState::Accepted | RequestState::Executing => ReceiptStatus::Uncertain,
    };
    DeviceReceipt {
        v: 1,
        request_id: entry.request_id.clone(),
        fingerprint: entry.fingerprint.clone(),
        status,
        evidence: entry.outcome.deep_clone(),
        error: copy_opt(&entry.error),
    }
}

/// The evidence that `inspect_capabilities` reports for a grant.
pub open spec fn capabilities_evidence(device_id: Seq<char>, device_pubkey_hex: Seq<char>, generation: u64) -> JsonModel {
    JsonModel::Object(
        seq![
            ("device_id"@, JsonModel::Str(device_id)),
            ("device_pubkey_hex"@, JsonModel::Str(device_pubkey_hex)),
            ("grant_generation"@, JsonModel::Unsigned(generation)),
            ("harnesses"@, JsonModel::Array(seq![JsonModel::Str("fixture-agent"@)])),
            ("online"@, JsonModel::Bool(true)),
            ("protocol_version"@, JsonModel::Unsigned(DEVICE_PROTOCOL_VERSION as u64)),
            ("setup_readiness"@, JsonModel::Str("ready"@)),
        ],
    )
}

fn capabilities_json(grant: &GrantFile) -> (j: Json)
    ensures
        j@ == capabilities_evidence(grant.device_id@, grant.device_pubkey_hex@, grant.generation),
{
    let mut harnesses: Vec<Json> = Vec::new();
    harnesses.push(Json::Str("fixture-agent".to_string()));
    proof {
        lemma_items_model(harnesses@);
        assert(items_model(harnesses@) =~= seq![JsonModel::Str("fixture-agent"@)]);
    }
    let mut m: Vec<(String, Json)> = Vec::new();
    m.push(("device_id".to_string(), Json::Str(grant.device_id.clone())));
    m.push(("device_pubkey_hex".to_string(), Json::Str(grant.device_pubkey_hex.clone())));
    m.push(("grant_generation".to_string(), Json::Number(JsonNumber::Unsigned(grant.generation))));
    m.push(("harnesses".to_string(), Json::Array(harnesses)));
    m.push(("online".to_string(), Json::Bool(true)));
    m.push(("protocol_version".to_string(), Json::Number(JsonNumber::Unsigned(DEVICE_PROTOCOL_VERSION as u64))));
    m.push(("setup_readiness".to_string(), Json::Str("ready".to_string())));
    proof {
        lemma_members_model(m@);
        assert(members_model(m@) =~= capabilities_evidence(grant.device_id@, grant.device_pubkey_hex@, grant.generation)->Object_0);
    }
    Json::Object(m)
}

/// The evidence that `create_checkout` reports.
pub open spec fn checkout_evidence(tank_id: Seq<char>, path: Seq<char>, branch: Seq<char>, head: Seq<char>, host: Seq<char>, worktree_list: Seq<char>) -> JsonModel {
    JsonModel::Object(
        seq![
            ("branch"@, JsonModel::Str(branch)),
            ("head"@, JsonModel::Str(head)),
            ("host"@, JsonModel::Str(host)),
            ("path"@, JsonModel::Str(path)),
            ("tank_id"@, JsonModel::Str(tank_id)),
            ("worktree_list"@, JsonModel::Str(worktree_list)),
        ],
    )
}

fn checkout_json(tank_id: &String, ev: &CheckoutEvidence, worktree_list: &String) -> (j: Json)
    ensures
        j@ == checkout_evidence(tank_id@, ev.path@, ev.branch@, ev.head@, ev.host@, worktree_list@),
{
    let mut m: Vec<(String, Json)> = Vec::new();
    m.push(("branch".to_string(), Json::Str(ev.branch.clone())));
    m.push(("head".to_string(), Json::Str(ev.head.clone())));
    m.push(("host".to_string(), Json::Str(ev.host.clone())));
    m.push(("path".to_string(), Json::Str(ev.path.clone())));
    m.push(("tank_id".to_string(), Json::Str(tank_id.clone())));
    m.push(("worktree_list".to_string(), Json::Str(worktree_list.clone())));
    proof {
        lemma_members_model(m@);
        assert(members_model(m@) =~= checkout_evidence(tank_id@, ev.path@, ev.branch@, ev.head@, ev.host@, worktree_list@)->Object_0);
    }
    Json::Object(m)
}

/// The evidence that `start_session` reports.
pub open spec fn session_evidence(session_id: Seq<char>, pid: u32, cwd: Seq<char>, cwd_proof_file: Seq<char>) -> JsonModel {
    JsonModel::Object(
        seq![
            ("cwd"@, JsonModel::Str(cwd)),
            ("cwd_proof_file"@, JsonModel::Str(cwd_proof_file)),
            ("pid"@, JsonModel::Unsigned(pid as u64)),
            ("session_id"@, JsonModel::Str(session_id)),
        ],
    )
}

fn session_json(ev: &SessionEvidence) -> (j: Json)
    ensures
        j@ == session_evidence(ev.session_id@, ev.pid, ev.cwd@, ev.cwd_proof_file@),
{
    let mut m: Vec<(String, Json)> = Vec::new();
    m.push(("cwd".to_string(), Json::Str(ev.cwd.clone())));
    m.push(("cwd_proof_file".to_string(), Json::Str(ev.cwd_proof_file.clone())));
    m.push(("pid".to_string(), Json::Number(JsonNumber::Unsigned(ev.pid as u64))));
    m.push(("session_id".to_string(), Json::Str(ev.session_id.clone())));
    proof {
        lemma_members_model(m@);
        assert(members_model(m@) =~= session_evidence(ev.session_id@, ev.pid, ev.cwd@, ev.cwd_proof_file@)->Object_0);
    }
    Json::Object(m)
}

/// The evidence that `cancel_session` reports.
pub open spec fn cancel_evidence(pid: u64) -> JsonModel {
    JsonModel::Object(seq![("cancelled_pid"@, JsonModel::Unsigned(pid))])
}

fn cancel_json(pid: u64) -> (j: Json)
    ensures
        j@ == cancel_evidence(pid),
{
    let mut m: Vec<(String, Json)> = Vec::new();
    m.push(("cancelled_pid".to_string(), Json::Number(JsonNumber::Unsigned(pid))));
    proof {
        lemma_members_model(m@);
        assert(members_model(m@) =~= cancel_evidence(pid)->Object_0);
    }
    Json::Object(m)
}

/// The message of the grant-shape error.
pub open spec fn one_root_error() -> Seq<char> {
    "prototype requires exactly one allowed root"@
}

/// The message recorded on rows that were executing when the host stopped.
pub open spec fn restart_error() -> Seq<char> {
    "host restarted while executing; outcome is uncertain and will not be retried"@
}

/// A row after restart reconciliation: executing rows become uncertain,
/// except a checkout whose recorded path the host found on disk, which
/// becomes a success; other rows are unchanged.
pub open spec fn reconciled(e: EntryModel, present: Seq<Seq<char>>) -> EntryModel {
    if e.state != RequestState::Executing {
        e
    } else if e.op == op_name(DeviceOp::CreateCheckout) && (text_field(e.outcome, "path"@) matches Some(p) && present.contains(p)) {
        EntryModel { state: RequestState::Succeeded, error: None, ..e }
    } else {
        EntryModel { state: RequestState::Uncertain, error: Some(restart_error()), ..e }
    }
}

impl DeviceService {
    /// Open a service on a loaded journal and a grant. The prototype serves
    /// exactly one allowed root.
    pub fn open(journal: Journal, grant: GrantFile, agent_command: Option<Vec<String>>) -> (r: Result<DeviceService, DeviceError>)
        ensures
            grant.allowed_roots@.len() != 1 ==> (r matches Err(DeviceError::Grant(m)) && m@ == one_root_error()),
            grant.allowed_roots@.len() == 1 ==> (r matches Ok(s) && s.allowed_root@ == grant.allowed_roots@[0]@
                && s.journal@ == journal@ && s.journal.written() == journal.written()
                && s.grant == grant && s.agent_command == agent_command),
    {
        if grant.allowed_roots.len() != 1 {
            return Err(DeviceError::Grant("prototype requires exactly one allowed root".to_string()));
        }
        let allowed_root = grant.allowed_roots[0].clone();
        Ok(DeviceService { grant, journal, allowed_root, agent_command })
    }
}

/// The texts of `v`.
pub open spec fn texts(v: Seq<String>) -> Seq<Seq<char>> {
    v.map_values(|s: String| s@)
}

fn contains_text(v: &Vec<String>, t: &str) -> (r: bool)
    ensures
        r == texts(v@).contains(t@),
{
    let mut i: usize = 0;
    while i < v.len()
        invariant
            i <= v@.len(),
            forall|m: int| 0 <= m < i ==> v@[m]@ != t@,
        decreases v@.len() - i,
    {
        if crate::text::str_eq(v[i].as_str(), t) {
            proof {
                assert(texts(v@)[i as int] == t@);
            }
            return true;
        }
        i += 1;
    }
    proof {
        if texts(v@).contains(t@) {
            let m = choose|m: int| 0 <= m < texts(v@).len() && texts(v@)[m] == t@;
            assert(v@[m]@ == t@);
        }
    }
    false
}

/// The row reconciled as [`reconciled`] describes.
fn reconcile_row(row: &JournalEntry, present: &Vec<String>) -> (r: JournalEntry)
    ensures
        r@ == reconciled(row@, texts(present@)),
{
    let mut out = row.duplicate();
    if row.state != RequestState::Executing {
        return out;
    }
    out.state = RequestState::Uncertain;
    out.error = Some("host restarted while executing; outcome is uncertain and will not be retried".to_string());
    if crate::text::str_eq(row.op.as_str(), DeviceOp::CreateCheckout.as_str()) {
        match row.outcome.get("path") {
            Some(p) => {
                match p.as_str() {
                    Some(path) => {
                        if contains_text(present, path.as_str()) {
                            out.state = RequestState::Succeeded;
                            out.error = None;
                        }
                    },
                    None => {},
                }
            },
            None => {},
        }
    }
    out
}

impl DeviceService {
    /// Reconcile `executing` rows after a restart. `present` lists the
    /// checkout paths that the host found on disk (a `.git` or `README`
    /// inside). Never blindly re-runs anything.
    pub fn reconcile_on_start(&mut self, present: &Vec<String>)
        ensures
            final(self).journal@.dom() == old(self).journal@.dom(),
            forall|k: Seq<char>| #[trigger] old(self).journal@.contains_key(k) ==>
                final(self).journal@[k] == reconciled(old(self).journal@[k], texts(present@)),
            final(self).journal.written().len() >= old(self).journal.written().len(),
            final(self).journal.written().take(old(self).journal.written().len() as int) == old(self).journal.written(),
            forall|i: int| old(self).journal.written().len() <= i < final(self).journal.written().len() ==> {
                let w = #[trigger] final(self).journal.written()[i];
                &&& old(self).journal@.contains_key(w.request_id)
                &&& old(self).journal@[w.request_id].state is Executing
                &&& w == final(self).journal@[w.request_id]
            },
            forall|k: Seq<char>| #[trigger] old(self).journal@.contains_key(k) && old(self).journal@[k].state is Executing ==>
                exists|i: int| old(self).journal.written().len() <= i < final(self).journal.written().len()
                    && (#[trigger] final(self).journal.written()[i]).request_id == k,
            final(self).grant == old(self).grant,
            final(self).allowed_root == old(self).allowed_root,
            final(self).agent_command == old(self).agent_command,
    {
        let rows = self.journal.entries();
        let ghost before = self.journal@;
        let ghost before_w = self.journal.written();
        let ghost p = texts(present@);
        let ghost mut idx: Seq<int> = Seq::empty();
        let mut i: usize = 0;
        while i < rows.len()
            invariant
                i <= rows@.len(),
                p == texts(present@),
                crate::journal::ids_distinct(rows@),
                forall|m: int| 0 <= m < rows@.len() ==> before.contains_key(#[trigger] rows@[m].request_id@)
                    && before[rows@[m].request_id@] == rows@[m]@,
                self.journal@.dom() == before.dom(),
                forall|m: int| 0 <= m < rows@.len() ==> self.journal@[(#[trigger] rows@[m]).request_id@]
                    == (if m < i { reconciled(rows@[m]@, p) } else { rows@[m]@ }),
                self.journal.written().len() == before_w.len() + idx.len(),
                self.journal.written().take(before_w.len() as int) == before_w,
                forall|j: int| 0 <= j < idx.len() ==> 0 <= #[trigger] idx[j] < i
                    && rows@[idx[j]].state is Executing
                    && self.journal.written()[before_w.len() + j] == reconciled(rows@[idx[j]]@, p),
                forall|m: int| 0 <= m < i && (#[trigger] rows@[m]).state is Executing ==>
                    exists|j: int| 0 <= j < idx.len() && idx[j] == m,
                self.grant == old(self).grant,
                self.allowed_root == old(self).allowed_root,
                self.agent_command == old(self).agent_command,
            decreases rows@.len() - i,
        {
            if rows[i].state == RequestState::Executing {
                let fixed = reconcile_row(&rows[i], present);
                let ghost key = rows@[i as int].request_id@;
                let ghost pre = self.journal@;
                assert(fixed.request_id@ == key);
                let ghost pre_w = self.journal.written();
                self.journal.put(fixed);
                proof {
                    let ghost old_idx = idx;
                    idx = idx.push(i as int);
                    assert(self.journal.written() == pre_w.push(reconciled(rows@[i as int]@, p)));
                    assert(self.journal.written().take(before_w.len() as int) =~= pre_w.take(before_w.len() as int));
                    assert forall|m: int| 0 <= m < i + 1 && (#[trigger] rows@[m]).state is Executing implies
                        exists|j: int| 0 <= j < idx.len() && idx[j] == m by {
                        if m == i {
                            assert(idx[idx.len() - 1] == m);
                        } else {
                            let j = choose|j: int| 0 <= j < old_idx.len() && old_idx[j] == m;
                            assert(idx[j] == old_idx[j]);
                        }
                    }
                    assert(self.journal@ == pre.insert(key, reconciled(rows@[i as int]@, p)));
                    assert forall|m: int| 0 <= m < rows@.len() implies self.journal@[(#[trigger] rows@[m]).request_id@]
                        == (if m < i + 1 { reconciled(rows@[m]@, p) } else { rows@[m]@ }) by {
                        if m != i {
                            assert(rows@[m].request_id@ != rows@[i as int].request_id@);
                            assert(self.journal@[rows@[m].request_id@] == pre[rows@[m].request_id@]);
                        }
                    }
                    assert(self.journal@.dom() =~= before.dom());
                }
            }
            i += 1;
        }
        proof {
            assert forall|k: Seq<char>| #[trigger] before.contains_key(k) implies self.journal@[k] == reconciled(before[k], p) by {
                let m = choose|m: int| 0 <= m < rows@.len() && (#[trigger] rows@[m]).request_id@ == k;
            }
            let fw = self.journal.written();
            assert forall|t: int| before_w.len() <= t < fw.len() implies {
                let w = #[trigger] fw[t];
                &&& before.contains_key(w.request_id)
                &&& before[w.request_id].state is Executing
                &&& w == self.journal@[w.request_id]
            } by {
                let j = t - before_w.len();
                let m = idx[j];
                assert(idx[j] == m);
                assert(rows@[m]@ == before[rows@[m].request_id@]);
                assert(fw[t] == reconciled(rows@[m]@, p));
            }
            assert forall|k: Seq<char>| #[trigger] before.contains_key(k) && before[k].state is Executing implies
                exists|t: int| before_w.len() <= t < fw.len() && (#[trigger] fw[t]).request_id == k by {
                let m = choose|m: int| 0 <= m < rows@.len() && (#[trigger] rows@[m]).request_id@ == k;
                assert(rows@[m]@ == before[k]);
                let j = choose|j: int| 0 <= j < idx.len() && idx[j] == m;
                assert(idx[j] == m);
                assert(fw[before_w.len() + j] == reconciled(rows@[m]@, p));
            }
        }
    }
}


/// A host-side mutation that the host runner performs between
/// [`DeviceService::begin_request`] and [`DeviceService::finish_request`].
#[derive(Debug)]
pub enum HostAction {
    /// Create branch `branch` at `start_rev` as a worktree of the repository
    /// at `repo_relpath`, at `worktree_relpath`, both under the allowed root.
    CreateWorktree {
        /// Repository path relative to the allowed root.
        repo_relpath: String,
        /// Worktree path relative to the allowed root.
        worktree_relpath: String,
        /// New branch name.
        branch: String,
        /// Start revision.
        start_rev: String,
    },
    /// Start one agent whose working directory is `checkout_path`.
    StartAgent {
        /// Existing checkout under the allowed root.
        checkout_path: String,
        /// Caller-chosen session id; the runner mints one when absent.
        session_id: Option<String>,
    },
    /// Terminate the agent process `pid`.
    CancelAgent {
        /// Process id.
        pid: u32,
    },
}

/// What the host runner reports back for a [`HostAction`].
#[derive(Debug)]
pub enum HostResult {
    /// The worktree exists; `worktree_list` is `git worktree list --porcelain`
    /// (empty when listing failed).
    Checkout {
        /// Checkout evidence.
        evidence: CheckoutEvidence,
        /// Porcelain worktree list.
        worktree_list: String,
    },
    /// The agent runs in the checkout.
    Session(SessionEvidence),
    /// The agent was signalled.
    Cancelled,
    /// The action failed.
    Failed(DeviceError),
}

/// A request whose row is journaled as executing and whose mutation the host
/// runner must now perform.
#[derive(Debug)]
pub struct PendingRequest {
    /// The mutation to perform.
    pub action: HostAction,
    /// The executing journal row.
    pub entry: JournalEntry,
    /// Protocol version of the request.
    pub v: u32,
    /// Tank id (checkouts only; empty otherwise).
    pub tank_id: String,
    /// Requested pid (cancellations only; zero otherwise).
    pub cancel_pid: u64,
}

/// The result of [`DeviceService::begin_request`].
#[derive(Debug)]
pub enum RequestStep {
    /// The request is answered.
    Done(HandleOutcome),
    /// The host runner must perform `action`, then call `finish_request`.
    Pending(PendingRequest),
}

/// The mathematical value of a handled request.
pub open spec fn outcome_model(o: HandleOutcome) -> (ReceiptModel, bool) {
    (o.receipt@, o.mutated)
}

/// The core grant that a grant document describes.
pub open spec fn grant_of(g: GrantFile) -> DeviceGrant {
    DeviceGrant {
        device_id: g.device_id,
        device_pubkey_hex: g.device_pubkey_hex,
        owner_pubkey_hex: g.owner_pubkey_hex,
        actor_pubkeys: g.actor_pubkeys,
        allowed_roots: g.allowed_roots,
        generation: g.generation,
        expires_at_ms: g.expires_at_ms,
        revoked: g.revoked,
    }
}

/// Why the host refuses `request` before looking at its journal row, if it
/// does: wrong device id, stale grant generation, a stale or future request
/// id, or an actor/device the grant does not authorize.
pub open spec fn gate_error(grant: GrantFile, actor: Seq<char>, device: Seq<char>, request: DeviceRequest, now_ms: u64) -> Option<Seq<char>> {
    if request.device_id@ != grant.device_id@ {
        Some("device_id does not match this host"@)
    } else if request.grant_generation != grant.generation {
        Some("grant generation mismatch"@)
    } else if freshness_verdict(request.request_id@, now_ms) is Err {
        Some(protocol_error_text(freshness_verdict(request.request_id@, now_ms)->Err_0))
    } else if authorize_verdict(grant_of(grant), actor, device, now_ms) is Err {
        Some(protocol_error_text(authorize_verdict(grant_of(grant), actor, device, now_ms)->Err_0))
    } else {
        None
    }
}

/// The fingerprint of a request whose operation is `op`.
pub open spec fn request_fingerprint(request: DeviceRequest, op: DeviceOp) -> Seq<char> {
    digest_hex(parameter_text(op, request.device_id@, request.grant_generation, request.params@))
}

/// The fingerprint recorded on a rejected request: its fingerprint, or
/// `invalid` for an unknown operation.
pub open spec fn reject_fingerprint(request: DeviceRequest) -> Seq<char> {
    match op_from_name(request.op@) {
        Some(op) => request_fingerprint(request, op),
        None => "invalid"@,
    }
}

/// A rejection never overwrites a row in one of these states.
pub open spec fn protects_row(s: RequestState) -> bool {
    !(s is Accepted) && !(s is Rejected)
}

/// The journal row for `request` in state `state`.
pub open spec fn request_row(
    request: DeviceRequest,
    actor: Seq<char>,
    fingerprint: Seq<char>,
    state: RequestState,
    outcome: JsonModel,
    error: Option<Seq<char>>,
) -> EntryModel {
    EntryModel {
        request_id: request.request_id@,
        fingerprint,
        state,
        op: request.op@,
        actor_pubkey_hex: actor,
        grant_generation: request.grant_generation,
        outcome,
        error,
        params: request.params@,
    }
}

/// A receipt.
pub open spec fn receipt(v: u32, request_id: Seq<char>, fingerprint: Seq<char>, status: ReceiptStatus, evidence: JsonModel, error: Option<Seq<char>>) -> ReceiptModel {
    ReceiptModel { v, request_id, fingerprint, status, evidence, error }
}

/// The message of a reused request id.
pub open spec fn conflict_error() -> Seq<char> {
    "request id reused with different parameters"@
}

/// The text parameter `key`, if the params hold one.
pub open spec fn text_param(request: DeviceRequest, key: Seq<char>) -> Option<Seq<char>> {
    text_field(request.params@, key)
}

/// What executing `op` yields without the host runner: `Some` of the
/// evidence or error message, or `None` when the runner must act.
/// `journal` is the journal with this request's row already executing.
pub open spec fn immediate_result(op: DeviceOp, request: DeviceRequest, grant: GrantFile, journal: Map<Seq<char>, EntryModel>) -> Option<Result<JsonModel, Seq<char>>> {
    match op {
        DeviceOp::InspectCapabilities => Some(Ok(capabilities_evidence(grant.device_id@, grant.device_pubkey_hex@, grant.generation))),
        DeviceOp::InspectRequest => match text_param(request, "request_id"@) {
            None => Some(Err("transport: "@ + "inspect_request needs params.request_id"@)),
            Some(t) => if journal.contains_key(t) {
                Some(Ok(receipt_json(receipt_of_entry(journal[t]))))
            } else {
                Some(Err("journal: "@ + "request not found"@))
            },
        },
        DeviceOp::CreateCheckout => if text_param(request, "tank_id"@) is None {
            Some(Err("transport: "@ + ("missing params."@ + "tank_id"@)))
        } else if text_param(request, "branch"@) is None {
            Some(Err("transport: "@ + ("missing params."@ + "branch"@)))
        } else if text_param(request, "relpath"@) is None {
            Some(Err("transport: "@ + ("missing params."@ + "relpath"@)))
        } else if !relative_path_safe(text_param_or(request, "repo_relpath"@, "repo"@)) {
            Some(Err(protocol_error_text(DeviceProtocolError::UnsafeRelativePath)))
        } else {
            None
        },
        DeviceOp::StartSession => if text_param(request, "checkout_path"@) is None {
            Some(Err("transport: "@ + ("missing params."@ + "checkout_path"@)))
        } else {
            None
        },
        DeviceOp::CancelSession => if as_unsigned(field(request.params@, "pid"@)) is None {
            Some(Err("agent: "@ + "cancel_session needs params.pid"@))
        } else {
            None
        },
    }
}

/// The text parameter `key`, or `default` when absent.
pub open spec fn text_param_or(request: DeviceRequest, key: Seq<char>, default: Seq<char>) -> Seq<char> {
    match text_param(request, key) {
        Some(t) => t,
        None => default,
    }
}

/// The host action that a request needing the runner asks for.
pub open spec fn action_for(action: HostAction, op: DeviceOp, request: DeviceRequest) -> bool {
    match op {
        DeviceOp::CreateCheckout => action matches HostAction::CreateWorktree { repo_relpath, worktree_relpath, branch, start_rev }
            && repo_relpath@ == text_param_or(request, "repo_relpath"@, "repo"@)
            && Some(worktree_relpath@) == text_param(request, "relpath"@)
            && Some(branch@) == text_param(request, "branch"@)
            && start_rev@ == text_param_or(request, "start_rev"@, "HEAD"@),
        DeviceOp::StartSession => action matches HostAction::StartAgent { checkout_path, session_id }
            && Some(checkout_path@) == text_param(request, "checkout_path"@)
            && opt_text(session_id) == text_param(request, "session_id"@),
        DeviceOp::CancelSession => action matches HostAction::CancelAgent { pid }
            && as_unsigned(field(request.params@, "pid"@)) matches Some(n) && pid == n as u32,
        _ => false,
    }
}

/// The operation mutates the host when it succeeds.
pub open spec fn op_mutates(op: DeviceOp) -> bool {
    op is CreateCheckout || op is StartSession || op is CancelSession
}

/// The row and receipt that finish a request with `result`.
pub open spec fn finished(v: u32, row: EntryModel, op_mutates: bool, result: Result<JsonModel, Seq<char>>) -> (EntryModel, (ReceiptModel, bool)) {
    match result {
        Ok(evidence) => (
            EntryModel { state: RequestState::Succeeded, outcome: evidence, ..row },
            (receipt(v, row.request_id, row.fingerprint, ReceiptStatus::Succeeded, evidence, None), op_mutates),
        ),
        Err(m) => (
            EntryModel { state: RequestState::Failed, error: Some(m), ..row },
            (receipt(v, row.request_id, row.fingerprint, ReceiptStatus::Failed, JsonModel::Null, Some(m)), false),
        ),
    }
}

impl DeviceService {
    /// Reject `request` with `error` without executing it: a terminal or
    /// executing row is left as it is and only reported; any other row is
    /// overwritten with a rejected row.
    fn reject(&mut self, request: &DeviceRequest, actor_pubkey_hex: &str, error: String) -> (o: HandleOutcome)
        ensures
            ({
                let j = old(self).journal@;
                let id = request.request_id@;
                if j.contains_key(id) && protects_row(j[id].state) {
                    final(self).journal@ == j
                        && outcome_model(o) == (receipt(request.v, id, j[id].fingerprint, ReceiptStatus::Rejected, JsonModel::Null, Some(error@)), false)
                } else {
                    final(self).journal@ == j.insert(id, request_row(*request, actor_pubkey_hex@, reject_fingerprint(*request), RequestState::Rejected, JsonModel::Null, Some(error@)))
                        && outcome_model(o) == (receipt(request.v, id, reject_fingerprint(*request), ReceiptStatus::Rejected, JsonModel::Null, Some(error@)), false)
                }
            }),
            final(self).journal.written() == old(self).journal.written() + rejection_writes(old(self).journal@, *request, actor_pubkey_hex@, error@),
            final(self).grant == old(self).grant,
            final(self).allowed_root == old(self).allowed_root,
            final(self).agent_command == old(self).agent_command,
    {
        let fingerprint = match fingerprint_request(request) {
            Ok(f) => f,
            Err(_) => "invalid".to_string(),
        };
        match self.journal.get(request.request_id.as_str()) {
            Some(existing) => {
                let protected = match existing.state {
                    RequestState::Accepted | RequestState::Rejected => false,
                    _ => true,
                };
                if protected {
                    return HandleOutcome {
                        receipt: DeviceReceipt {
                            v: request.v,
                            request_id: request.request_id.clone(),
                            fingerprint: existing.fingerprint.clone(),
                            status: ReceiptStatus::Rejected,
                            evidence: Json::Null,
                            error: Some(error),
                        },
                        mutated: false,
                    };
                }
            },
            None => {},
        }
        let entry = JournalEntry {
            request_id: request.request_id.clone(),
            fingerprint: fingerprint.clone(),
            state: RequestState::Rejected,
            op: request.op.clone(),
            actor_pubkey_hex: actor_pubkey_hex.to_string(),
            grant_generation: request.grant_generation,
            outcome: Json::Null,
            error: Some(error.clone()),
            params: request.params.deep_clone(),
        };
        self.journal.put(entry);
        HandleOutcome {
            receipt: DeviceReceipt {
                v: request.v,
                request_id: request.request_id.clone(),
                fingerprint,
                status: ReceiptStatus::Rejected,
                evidence: Json::Null,
                error: Some(error),
            },
            mutated: false,
        }
    }
}


/// The result model of a host result, or the error message of a failure.
pub open spec fn json_result(r: Result<Json, DeviceError>) -> Result<JsonModel, Seq<char>> {
    match r {
        Ok(j) => Ok(j@),
        Err(e) => Err(device_error_text(e)),
    }
}

/// The evidence a host result reports for `pending`.
pub open spec fn host_result_model(pending: PendingRequest, result: HostResult) -> Result<JsonModel, Seq<char>> {
    match result {
        HostResult::Checkout { evidence, worktree_list } => Ok(checkout_evidence(pending.tank_id@, evidence.path@, evidence.branch@, evidence.head@, evidence.host@, worktree_list@)),
        HostResult::Session(ev) => Ok(session_evidence(ev.session_id@, ev.pid, ev.cwd@, ev.cwd_proof_file@)),
        HostResult::Cancelled => Ok(cancel_evidence(pending.cancel_pid)),
        HostResult::Failed(e) => Err(device_error_text(e)),
    }
}

/// The text parameter `key`, or a transport error naming it.
fn required_str<'a>(params: &'a Json, key: &str) -> (r: Result<&'a String, DeviceError>)
    ensures
        r matches Ok(t) ==> text_field(params@, key@) == Some(t@),
        r is Err ==> text_field(params@, key@) is None,
        r matches Err(e) ==> device_error_text(e) == "transport: "@ + ("missing params."@ + key@),
{
    match params.get(key) {
        Some(v) => match v.as_str() {
            Some(t) => Ok(t),
            None => Err(DeviceError::Transport("missing params.".to_string().concat(key))),
        },
        None => Err(DeviceError::Transport("missing params.".to_string().concat(key))),
    }
}

fn optional_str<'a>(params: &'a Json, key: &str) -> (r: Option<&'a String>)
    ensures
        r matches Some(t) ==> text_field(params@, key@) == Some(t@),
        r is None ==> text_field(params@, key@) is None,
{
    match params.get(key) {
        Some(v) => v.as_str(),
        None => None,
    }
}

impl DeviceService {
    /// Record `result` as the outcome of the executing row `entry`.
    fn complete(&mut self, entry: JournalEntry, v: u32, mutates: bool, result: Result<Json, DeviceError>) -> (o: HandleOutcome)
        ensures
            final(self).journal@ == old(self).journal@.insert(entry.request_id@, finished(v, entry@, mutates, json_result(result)).0),
            final(self).journal.written() == old(self).journal.written().push(finished(v, entry@, mutates, json_result(result)).0),
            outcome_model(o) == finished(v, entry@, mutates, json_result(result)).1,
            final(self).grant == old(self).grant,
            final(self).allowed_root == old(self).allowed_root,
            final(self).agent_command == old(self).agent_command,
    {
        let mut entry = entry;
        match result {
            Ok(evidence) => {
                let ev_copy = evidence.deep_clone();
                entry.state = RequestState::Succeeded;
                entry.outcome = evidence;
                let receipt = DeviceReceipt {
                    v,
                    request_id: entry.request_id.clone(),
                    fingerprint: entry.fingerprint.clone(),
                    status: ReceiptStatus::Succeeded,
                    evidence: ev_copy,
                    error: None,
                };
                self.journal.put(entry);
                HandleOutcome { receipt, mutated: mutates }
            },
            Err(err) => {
                let message = err.message();
                entry.state = RequestState::Failed;
                entry.error = Some(message.clone());
                let receipt = DeviceReceipt {
                    v,
                    request_id: entry.request_id.clone(),
                    fingerprint: entry.fingerprint.clone(),
                    status: ReceiptStatus::Failed,
                    evidence: Json::Null,
                    error: Some(message),
                };
                self.journal.put(entry);
                HandleOutcome { receipt, mutated: false }
            },
        }
    }

    /// Record the host runner's `result` for `pending` and answer the request.
    pub fn finish_request(&mut self, pending: PendingRequest, result: HostResult) -> (o: HandleOutcome)
        ensures
            final(self).journal@ == old(self).journal@.insert(
                pending.entry.request_id@,
                finished(pending.v, pending.entry@, true, host_result_model(pending, result)).0,
            ),
            outcome_model(o) == finished(pending.v, pending.entry@, true, host_result_model(pending, result)).1,
            final(self).journal.written() == old(self).journal.written().push(
                finished(pending.v, pending.entry@, true, host_result_model(pending, result)).0,
            ),
            final(self).grant == old(self).grant,
            final(self).allowed_root == old(self).allowed_root,
            final(self).agent_command == old(self).agent_command,
    {
        let ghost gp = pending;
        let ghost gr = result;
        let PendingRequest { action: _, entry, v, tank_id, cancel_pid } = pending;
        let evidence: Result<Json, DeviceError> = match result {
            HostResult::Checkout { evidence, worktree_list } => Ok(checkout_json(&tank_id, &evidence, &worktree_list)),
            HostResult::Session(ev) => Ok(session_json(&ev)),
            HostResult::Cancelled => Ok(cancel_json(cancel_pid)),
            HostResult::Failed(e) => Err(e),
        };
        assert(json_result(evidence) == host_result_model(gp, gr));
        self.complete(entry, v, true, evidence)
    }
}


/// The executing row that a new request is journaled with.
pub open spec fn executing_row(request: DeviceRequest, actor: Seq<char>, op: DeviceOp) -> EntryModel {
    request_row(request, actor, request_fingerprint(request, op), RequestState::Executing, JsonModel::Null, None)
}

/// The answer to a request whose id is already journaled as `row`: the
/// stored receipt when the fingerprints match, a conflict otherwise.
pub open spec fn replay_outcome(request: DeviceRequest, row: EntryModel, fingerprint: Seq<char>) -> (ReceiptModel, bool) {
    if row.fingerprint == fingerprint {
        (receipt_of_entry(row), false)
    } else {
        (receipt(request.v, request.request_id@, row.fingerprint, ReceiptStatus::Conflict, row.outcome, Some(conflict_error())), false)
    }
}

/// The journal and answer of a rejection with message `m`.
pub open spec fn rejection(j: Map<Seq<char>, EntryModel>, request: DeviceRequest, actor: Seq<char>, m: Seq<char>) -> (Map<Seq<char>, EntryModel>, (ReceiptModel, bool)) {
    let id = request.request_id@;
    if j.contains_key(id) && protects_row(j[id].state) {
        (j, (receipt(request.v, id, j[id].fingerprint, ReceiptStatus::Rejected, JsonModel::Null, Some(m)), false))
    } else {
        (
            j.insert(id, request_row(request, actor, reject_fingerprint(request), RequestState::Rejected, JsonModel::Null, Some(m))),
            (receipt(request.v, id, reject_fingerprint(request), ReceiptStatus::Rejected, JsonModel::Null, Some(m)), false),
        )
    }
}

/// The rows a rejection hands over for persistence: none when the
/// existing row is protected, otherwise the rejected row.
pub open spec fn rejection_writes(j: Map<Seq<char>, EntryModel>, request: DeviceRequest, actor: Seq<char>, m: Seq<char>) -> Seq<EntryModel> {
    let id = request.request_id@;
    if j.contains_key(id) && protects_row(j[id].state) {
        Seq::empty()
    } else {
        seq![request_row(request, actor, reject_fingerprint(request), RequestState::Rejected, JsonModel::Null, Some(m))]
    }
}

/// The accepted row that a new request is journaled with first.
pub open spec fn accepted_row(request: DeviceRequest, actor: Seq<char>, op: DeviceOp) -> EntryModel {
    request_row(request, actor, request_fingerprint(request, op), RequestState::Accepted, JsonModel::Null, None)
}

proof fn lemma_same_grant_views(g1: DeviceGrant, g2: DeviceGrant, actor: Seq<char>, device: Seq<char>, now_ms: u64)
    requires
        g1.device_pubkey_hex@ == g2.device_pubkey_hex@,
        g1.owner_pubkey_hex@ == g2.owner_pubkey_hex@,
        g1.actor_pubkeys@ == g2.actor_pubkeys@,
        g1.expires_at_ms == g2.expires_at_ms,
        g1.revoked == g2.revoked,
    ensures
        authorize_verdict(g1, actor, device, now_ms) == authorize_verdict(g2, actor, device, now_ms),
{
    let a = crate::text::lower(crate::text::trim(actor));
    if crate::device::actor_allowed(g1, actor) && a != crate::text::lower(crate::text::trim(g1.owner_pubkey_hex@)) {
        let i = choose|i: int| 0 <= i < g1.actor_pubkeys.len() && crate::text::same_key(#[trigger] g1.actor_pubkeys[i]@, a);
        assert(g2.actor_pubkeys[i]@ == g1.actor_pubkeys[i]@);
    }
    if crate::device::actor_allowed(g2, actor) && a != crate::text::lower(crate::text::trim(g2.owner_pubkey_hex@)) {
        let i = choose|i: int| 0 <= i < g2.actor_pubkeys.len() && crate::text::same_key(#[trigger] g2.actor_pubkeys[i]@, a);
        assert(g1.actor_pubkeys[i]@ == g2.actor_pubkeys[i]@);
    }
}

impl DeviceService {
    /// Handle one decrypted request from `actor_pubkey_hex` targeting
    /// `device_pubkey_hex` up to the point where the host must mutate:
    /// checks the grant, replays journaled ids, journals new requests (with
    /// their params) as executing, fails a checkout whose repository path
    /// breaks the relative path grammar (a checkout's first check), and
    /// answers every request that needs no host mutation. The rows it stores
    /// are handed over for persistence, in order, before the host acts.
    #[verifier::rlimit(60)]
    #[verifier::spinoff_prover]
    pub fn begin_request(&mut self, actor_pubkey_hex: &str, device_pubkey_hex: &str, request: &DeviceRequest, now_ms: u64) -> (r: Result<RequestStep, DeviceError>)
        ensures
            final(self).grant == old(self).grant,
            final(self).allowed_root == old(self).allowed_root,
            final(self).agent_command == old(self).agent_command,
            r matches Ok(RequestStep::Done(o)) ==> !o.mutated,
            r matches Ok(RequestStep::Pending(p)) ==> (p.action matches HostAction::CreateWorktree { repo_relpath, .. }
                ==> relative_path_safe(repo_relpath@)),
            gate_error(old(self).grant, actor_pubkey_hex@, device_pubkey_hex@, *request, now_ms) matches Some(m) ==> (
                r matches Ok(RequestStep::Done(o))
                && (final(self).journal@, outcome_model(o)) == rejection(old(self).journal@, *request, actor_pubkey_hex@, m)
                && final(self).journal.written() == old(self).journal.written() + rejection_writes(old(self).journal@, *request, actor_pubkey_hex@, m)),
            gate_error(old(self).grant, actor_pubkey_hex@, device_pubkey_hex@, *request, now_ms) is None
                && op_from_name(request.op@) is None ==> (
                r matches Err(DeviceError::Transport(t)) && t@ == "unknown op "@ + request.op@
                && final(self).journal@ == old(self).journal@
                && final(self).journal.written() == old(self).journal.written()),
            op_from_name(request.op@) matches Some(op) ==> (
                gate_error(old(self).grant, actor_pubkey_hex@, device_pubkey_hex@, *request, now_ms) is None
                && old(self).journal@.contains_key(request.request_id@) ==>
                (r matches Ok(RequestStep::Done(o))
                && final(self).journal@ == old(self).journal@
                && final(self).journal.written() == old(self).journal.written()
                && outcome_model(o) == replay_outcome(*request, old(self).journal@[request.request_id@], request_fingerprint(*request, op)))),
            op_from_name(request.op@) matches Some(op) ==> (
                gate_error(old(self).grant, actor_pubkey_hex@, device_pubkey_hex@, *request, now_ms) is None
                && !old(self).journal@.contains_key(request.request_id@) ==> {
                let row = executing_row(*request, actor_pubkey_hex@, op);
                let j1 = old(self).journal@.insert(request.request_id@, row);
                match immediate_result(op, *request, old(self).grant, j1) {
                    Some(res) => r matches Ok(RequestStep::Done(o))
                        && final(self).journal@ == j1.insert(request.request_id@, finished(request.v, row, op_mutates(op), res).0)
                        && final(self).journal.written() == old(self).journal.written()
                            + seq![accepted_row(*request, actor_pubkey_hex@, op), row, finished(request.v, row, op_mutates(op), res).0]
                        && outcome_model(o) == finished(request.v, row, op_mutates(op), res).1,
                    None => r matches Ok(RequestStep::Pending(p))
                        && final(self).journal@ == j1
                        && final(self).journal.written() == old(self).journal.written()
                            + seq![accepted_row(*request, actor_pubkey_hex@, op), row]
                        && p.entry@ == row
                        && p.v == request.v
                        && action_for(p.action, op, *request)
                        && (op is CreateCheckout ==> Some(p.tank_id@) == text_param(*request, "tank_id"@))
                        && (op is CancelSession ==> Some(p.cancel_pid) == as_unsigned(field(request.params@, "pid"@))),
                }
            }),
    {
        let grant = self.grant.to_grant();
        proof {
            lemma_same_grant_views(grant, grant_of(self.grant), actor_pubkey_hex@, device_pubkey_hex@, now_ms);
        }
        if !str_eq(request.device_id.as_str(), grant.device_id.as_str()) {
            let o = self.reject(request, actor_pubkey_hex, "device_id does not match this host".to_string());
            return Ok(RequestStep::Done(o));
        }
        if request.grant_generation != grant.generation {
            let o = self.reject(request, actor_pubkey_hex, "grant generation mismatch".to_string());
            return Ok(RequestStep::Done(o));
        }
        match check_request_freshness(request.request_id.as_str(), now_ms) {
            Err(e) => {
                let o = self.reject(request, actor_pubkey_hex, e.message());
                return Ok(RequestStep::Done(o));
            },
            Ok(()) => {},
        }
        match grant.authorize(actor_pubkey_hex, device_pubkey_hex, now_ms) {
            Err(e) => {
                let o = self.reject(request, actor_pubkey_hex, e.message());
                return Ok(RequestStep::Done(o));
            },
            Ok(()) => {},
        }
        let fingerprint = match fingerprint_request(request) {
            Ok(f) => f,
            Err(e) => {
                return Err(e);
            },
        };
        match self.journal.get(request.request_id.as_str()) {
            Some(existing) => {
                if !str_eq(existing.fingerprint.as_str(), fingerprint.as_str()) {
                    let receipt = DeviceReceipt {
                        v: request.v,
                        request_id: request.request_id.clone(),
                        fingerprint: existing.fingerprint.clone(),
                        status: ReceiptStatus::Conflict,
                        evidence: existing.outcome.deep_clone(),
                        error: Some("request id reused with different parameters".to_string()),
                    };
                    return Ok(RequestStep::Done(HandleOutcome { receipt, mutated: false }));
                }
                let receipt = receipt_from_entry(existing);
                return Ok(RequestStep::Done(HandleOutcome { receipt, mutated: false }));
            },
            None => {},
        }
        let op = match DeviceOp::parse(request.op.as_str()) {
            Some(op) => op,
            None => {
                return Err(DeviceError::Transport("unknown op ".to_string().concat(request.op.as_str())));
            },
        };
        let mut entry = JournalEntry {
            request_id: request.request_id.clone(),
            fingerprint,
            state: RequestState::Accepted,
            op: request.op.clone(),
            actor_pubkey_hex: actor_pubkey_hex.to_string(),
            grant_generation: request.grant_generation,
            outcome: Json::Null,
            error: None,
            params: request.params.deep_clone(),
        };
        self.journal.put(entry.duplicate());
        entry.state = RequestState::Executing;
        self.journal.put(entry.duplicate());
        let ghost j1 = self.journal@;
        match op {
            DeviceOp::InspectCapabilities => {
                let evidence = capabilities_json(&self.grant);
                Ok(RequestStep::Done(self.complete(entry, request.v, false, Ok(evidence))))
            },
            DeviceOp::InspectRequest => {
                let result = match optional_str(&request.params, "request_id") {
                    None => Err(DeviceError::Transport("inspect_request needs params.request_id".to_string())),
                    Some(target) => match self.journal.get(target.as_str()) {
                        Some(row) => Ok(receipt_from_entry(row).to_json()),
                        None => Err(DeviceError::Journal("request not found".to_string())),
                    },
                };
                Ok(RequestStep::Done(self.complete(entry, request.v, false, result)))
            },
            DeviceOp::CreateCheckout => {
                let tank_id = match required_str(&request.params, "tank_id") {
                    Ok(t) => t,
                    Err(e) => {
                        return Ok(RequestStep::Done(self.complete(entry, request.v, true, Err(e))));
                    },
                };
                let branch = match required_str(&request.params, "branch") {
                    Ok(t) => t,
                    Err(e) => {
                        return Ok(RequestStep::Done(self.complete(entry, request.v, true, Err(e))));
                    },
                };
                let relpath = match required_str(&request.params, "relpath") {
                    Ok(t) => t,
                    Err(e) => {
                        return Ok(RequestStep::Done(self.complete(entry, request.v, true, Err(e))));
                    },
                };
                let start_rev = match optional_str(&request.params, "start_rev") {
                    Some(t) => t.clone(),
                    None => "HEAD".to_string(),
                };
                let repo_relpath = match optional_str(&request.params, "repo_relpath") {
                    Some(t) => t.clone(),
                    None => "repo".to_string(),
                };
                match relative_path_is_safe(repo_relpath.as_str()) {
                    Err(e) => {
                        return Ok(RequestStep::Done(self.complete(entry, request.v, true, Err(DeviceError::Protocol(e)))));
                    },
                    Ok(()) => {},
                }
                Ok(RequestStep::Pending(PendingRequest {
                    action: HostAction::CreateWorktree {
                        repo_relpath,
                        worktree_relpath: relpath.clone(),
                        branch: branch.clone(),
                        start_rev,
                    },
                    entry,
                    v: request.v,
                    tank_id: tank_id.clone(),
                    cancel_pid: 0,
                }))
            },
            DeviceOp::StartSession => {
                let checkout = match required_str(&request.params, "checkout_path") {
                    Ok(t) => t,
                    Err(e) => {
                        return Ok(RequestStep::Done(self.complete(entry, request.v, true, Err(e))));
                    },
                };
                let session_id = match optional_str(&request.params, "session_id") {
                    Some(t) => Some(t.clone()),
                    None => None,
                };
                Ok(RequestStep::Pending(PendingRequest {
                    action: HostAction::StartAgent { checkout_path: checkout.clone(), session_id },
                    entry,
                    v: request.v,
                    tank_id: String::new(),
                    cancel_pid: 0,
                }))
            },
            DeviceOp::CancelSession => {
                let pid = match request.params.get("pid") {
                    Some(v) => v.as_u64(),
                    None => None,
                };
                match pid {
                    None => {
                        let e = DeviceError::Agent("cancel_session needs params.pid".to_string());
                        Ok(RequestStep::Done(self.complete(entry, request.v, true, Err(e))))
                    },
                    Some(n) => {
                        let narrow: u32 = #[verifier::truncate] (n as u32);
                        Ok(RequestStep::Pending(PendingRequest {
                            action: HostAction::CancelAgent { pid: narrow },
                            entry,
                            v: request.v,
                            tank_id: String::new(),
                            cancel_pid: n,
                        }))
                    },
                }
            },
        }
    }
}


/// A retried request is answered as it was the first time: once a request
/// has finished, with any result, replaying its id with the same
/// parameters reports the same receipt and mutates nothing.
pub proof fn lemma_retry_replays_first_answer(
    request: DeviceRequest,
    actor: Seq<char>,
    op: DeviceOp,
    mutates: bool,
    result: Result<JsonModel, Seq<char>>,
)
    requires
        op_from_name(request.op@) == Some(op),
        request.v == DEVICE_PROTOCOL_VERSION,
    ensures
        ({
            let done = finished(request.v, executing_row(request, actor, op), mutates, result);
            replay_outcome(request, done.0, request_fingerprint(request, op)) == (done.1.0, false)
        }),
{
}

/// A reused request id with other parameters is a conflict: it reports the
/// stored fingerprint and outcome, mutates nothing, and the journal is left
/// as it was.
pub proof fn lemma_reused_id_conflicts(request: DeviceRequest, row: EntryModel, fingerprint: Seq<char>)
    requires
        row.fingerprint != fingerprint,
    ensures
        replay_outcome(request, row, fingerprint).0.status == ReceiptStatus::Conflict,
        replay_outcome(request, row, fingerprint).0.fingerprint == row.fingerprint,
        replay_outcome(request, row, fingerprint).0.evidence == row.outcome,
        replay_outcome(request, row, fingerprint).0.error == Some(conflict_error()),
        !replay_outcome(request, row, fingerprint).1,
{
}

/// A refused request never runs and never rewrites history: it is answered
/// `rejected` without a mutation, every other journal row is left as it
/// was, and a row that already holds an outcome (or is executing) is kept.
pub proof fn lemma_rejection_preserves_journal(
    j: Map<Seq<char>, EntryModel>,
    request: DeviceRequest,
    actor: Seq<char>,
    m: Seq<char>,
)
    ensures
        ({
            let (after, (r, mutated)) = rejection(j, request, actor, m);
            &&& !mutated
            &&& r.status == ReceiptStatus::Rejected
            &&& r.error == Some(m)
            &&& after.contains_key(request.request_id@)
            &&& forall|k: Seq<char>| k != request.request_id@ ==>
                (#[trigger] after.contains_key(k) == j.contains_key(k)) && (j.contains_key(k) ==> after[k] == j[k])
            &&& (j.contains_key(request.request_id@) && protects_row(j[request.request_id@].state)) ==> after == j
        }),
{
}

/// Restart reconciliation leaves nothing executing, touches no other row,
/// and running it again changes nothing.
pub proof fn lemma_reconcile_settles(e: EntryModel, present: Seq<Seq<char>>)
    ensures
        !(reconciled(e, present).state is Executing),
        e.state != RequestState::Executing ==> reconciled(e, present) == e,
        reconciled(reconciled(e, present), present) == reconciled(e, present),
{
}

/// The stored journal after the rows `w` are persisted in order, each
/// replacing the row of its request id.
pub open spec fn apply_writes(stored: Map<Seq<char>, EntryModel>, w: Seq<EntryModel>) -> Map<Seq<char>, EntryModel>
    decreases w.len(),
{
    if w.len() == 0 {
        stored
    } else {
        apply_writes(stored, w.drop_last()).insert(w.last().request_id, w.last())
    }
}

/// Persisting before acting is what keeps a crash from running a request
/// twice: once the rows handed over for a pending request are stored, its id
/// is journaled as executing; after a restart that row is reconciled to
/// uncertain or succeeded, and a retry with the same parameters is answered
/// from it without a mutation.
pub proof fn lemma_persisted_before_acting(
    stored: Map<Seq<char>, EntryModel>,
    request: DeviceRequest,
    actor: Seq<char>,
    op: DeviceOp,
    present: Seq<Seq<char>>,
)
    ensures
        ({
            let id = request.request_id@;
            let j = apply_writes(stored, seq![accepted_row(request, actor, op), executing_row(request, actor, op)]);
            let r = reconciled(j[id], present);
            &&& j.contains_key(id)
            &&& j[id] == executing_row(request, actor, op)
            &&& !(r.state is Executing)
            &&& replay_outcome(request, r, request_fingerprint(request, op)) == (receipt_of_entry(r), false)
        }),
{
    let w = seq![accepted_row(request, actor, op), executing_row(request, actor, op)];
    assert(w.drop_last().drop_last() =~= Seq::<EntryModel>::empty());
    reveal_with_fuel(apply_writes, 3);
}

/// A finished start_session request reports the runner's session evidence
/// field by field: the session id, pid, working directory and the cwd proof
/// file each under its own name.
pub proof fn lemma_session_receipt_reports_evidence(pending: PendingRequest, ev: SessionEvidence)
    ensures
        ({
            let r = finished(pending.v, pending.entry@, true, host_result_model(pending, HostResult::Session(ev))).1;
            &&& r.0.status == ReceiptStatus::Succeeded
            &&& r.1
            &&& text_field(r.0.evidence, "session_id"@) == Some(ev.session_id@)
            &&& as_unsigned(field(r.0.evidence, "pid"@)) == Some(ev.pid as u64)
            &&& text_field(r.0.evidence, "cwd"@) == Some(ev.cwd@)
            &&& text_field(r.0.evidence, "cwd_proof_file"@) == Some(ev.cwd_proof_file@)
        }),
{
    reveal_strlit("cwd");
    reveal_strlit("cwd_proof_file");
    reveal_strlit("pid");
    reveal_strlit("session_id");
    assert("cwd"@.len() == 3 && "cwd_proof_file"@.len() == 14 && "pid"@.len() == 3 && "session_id"@.len() == 10);
    assert("cwd"@[0] != "pid"@[0]);
    let m = session_evidence(ev.session_id@, ev.pid, ev.cwd@, ev.cwd_proof_file@)->Object_0;
    lemma_field_of_distinct(m);
    assert(field(JsonModel::Object(m), m[0].0) == Some(m[0].1));
    assert(field(JsonModel::Object(m), m[1].0) == Some(m[1].1));
    assert(field(JsonModel::Object(m), m[2].0) == Some(m[2].1));
    assert(field(JsonModel::Object(m), m[3].0) == Some(m[3].1));
}

/// A finished create_checkout request reports the runner's checkout
/// evidence field by field, with the tank it was asked for.
pub proof fn lemma_checkout_receipt_reports_evidence(pending: PendingRequest, ev: CheckoutEvidence, worktree_list: String)
    ensures
        ({
            let r = finished(pending.v, pending.entry@, true, host_result_model(pending, HostResult::Checkout { evidence: ev, worktree_list })).1;
            &&& r.0.status == ReceiptStatus::Succeeded
            &&& r.1
            &&& text_field(r.0.evidence, "branch"@) == Some(ev.branch@)
            &&& text_field(r.0.evidence, "head"@) == Some(ev.head@)
            &&& text_field(r.0.evidence, "host"@) == Some(ev.host@)
            &&& text_field(r.0.evidence, "path"@) == Some(ev.path@)
            &&& text_field(r.0.evidence, "tank_id"@) == Some(pending.tank_id@)
            &&& text_field(r.0.evidence, "worktree_list"@) == Some(worktree_list@)
        }),
{
    reveal_strlit("branch");
    reveal_strlit("head");
    reveal_strlit("host");
    reveal_strlit("path");
    reveal_strlit("tank_id");
    reveal_strlit("worktree_list");
    assert("branch"@.len() == 6 && "head"@.len() == 4 && "host"@.len() == 4 && "path"@.len() == 4 && "tank_id"@.len() == 7 && "worktree_list"@.len() == 13);
    assert("head"@[1] != "host"@[1]);
    assert("head"@[0] != "path"@[0]);
    assert("host"@[0] != "path"@[0]);
    let m = checkout_evidence(pending.tank_id@, ev.path@, ev.branch@, ev.head@, ev.host@, worktree_list@)->Object_0;
    lemma_field_of_distinct(m);
    assert(field(JsonModel::Object(m), m[0].0) == Some(m[0].1));
    assert(field(JsonModel::Object(m), m[1].0) == Some(m[1].1));
    assert(field(JsonModel::Object(m), m[2].0) == Some(m[2].1));
    assert(field(JsonModel::Object(m), m[3].0) == Some(m[3].1));
    assert(field(JsonModel::Object(m), m[4].0) == Some(m[4].1));
    assert(field(JsonModel::Object(m), m[5].0) == Some(m[5].1));
}

/// A finished cancel_session request reports the pid it was asked to cancel.
pub proof fn lemma_cancel_receipt_reports_pid(pending: PendingRequest)
    ensures
        ({
            let r = finished(pending.v, pending.entry@, true, host_result_model(pending, HostResult::Cancelled)).1;
            &&& r.0.status == ReceiptStatus::Succeeded
            &&& as_unsigned(field(r.0.evidence, "cancelled_pid"@)) == Some(pending.cancel_pid)
        }),
{
    let m = cancel_evidence(pending.cancel_pid)->Object_0;
    assert(field(JsonModel::Object(m), m[0].0) == Some(m[0].1));
}

/// A capabilities request is answered from the grant: its device id, host
/// key and generation, online, at the current protocol version.
pub proof fn lemma_capabilities_report_grant(request: DeviceRequest, grant: GrantFile, j: Map<Seq<char>, EntryModel>)
    ensures
        immediate_result(DeviceOp::InspectCapabilities, request, grant, j) matches Some(Ok(e)) && {
            &&& text_field(e, "device_id"@) == Some(grant.device_id@)
            &&& text_field(e, "device_pubkey_hex"@) == Some(grant.device_pubkey_hex@)
            &&& as_unsigned(field(e, "grant_generation"@)) == Some(grant.generation)
            &&& field(e, "online"@) == Some(JsonModel::Bool(true))
            &&& as_unsigned(field(e, "protocol_version"@)) == Some(1u64)
            &&& text_field(e, "setup_readiness"@) == Some("ready"@)
        },
{
    reveal_strlit("device_id");
    reveal_strlit("device_pubkey_hex");
    reveal_strlit("grant_generation");
    reveal_strlit("harnesses");
    reveal_strlit("online");
    reveal_strlit("protocol_version");
    reveal_strlit("setup_readiness");
    assert("device_id"@.len() == 9 && "device_pubkey_hex"@.len() == 17 && "grant_generation"@.len() == 16 && "harnesses"@.len() == 9 && "online"@.len() == 6 && "protocol_version"@.len() == 16 && "setup_readiness"@.len() == 15);
    assert("device_id"@[0] != "harnesses"@[0]);
    assert("grant_generation"@[0] != "protocol_version"@[0]);
    let m = capabilities_evidence(grant.device_id@, grant.device_pubkey_hex@, grant.generation)->Object_0;
    lemma_field_of_distinct(m);
    assert(field(JsonModel::Object(m), m[0].0) == Some(m[0].1));
    assert(field(JsonModel::Object(m), m[1].0) == Some(m[1].1));
    assert(field(JsonModel::Object(m), m[2].0) == Some(m[2].1));
    assert(field(JsonModel::Object(m), m[3].0) == Some(m[3].1));
    assert(field(JsonModel::Object(m), m[4].0) == Some(m[4].1));
    assert(field(JsonModel::Object(m), m[5].0) == Some(m[5].1));
    assert(field(JsonModel::Object(m), m[6].0) == Some(m[6].1));
}

/// The host action of a pending request carries each request parameter
/// into its own field: a checkout's worktree path, branch, repository path
/// (`repo` when absent) and start revision (`HEAD` when absent); a session's
/// checkout path and session id; a cancellation's pid.
pub proof fn lemma_action_carries_params(action: HostAction, op: DeviceOp, request: DeviceRequest)
    requires
        action_for(action, op, request),
    ensures
        op is CreateCheckout ==> (action matches HostAction::CreateWorktree { repo_relpath, worktree_relpath, branch, start_rev } && {
            &&& text_field(request.params@, "relpath"@) == Some(worktree_relpath@)
            &&& text_field(request.params@, "branch"@) == Some(branch@)
            &&& (text_field(request.params@, "repo_relpath"@) matches Some(t) ==> repo_relpath@ == t)
            &&& (text_field(request.params@, "repo_relpath"@) is None ==> repo_relpath@ == "repo"@)
            &&& (text_field(request.params@, "start_rev"@) matches Some(t) ==> start_rev@ == t)
            &&& (text_field(request.params@, "start_rev"@) is None ==> start_rev@ == "HEAD"@)
        }),
        op is StartSession ==> (action matches HostAction::StartAgent { checkout_path, session_id } && {
            &&& text_field(request.params@, "checkout_path"@) == Some(checkout_path@)
            &&& (session_id matches Some(sid) ==> text_field(request.params@, "session_id"@) == Some(sid@))
            &&& (session_id is None ==> text_field(request.params@, "session_id"@) is None)
        }),
        op is CancelSession ==> (action matches HostAction::CancelAgent { pid }
            && as_unsigned(field(request.params@, "pid"@)) matches Some(n) && pid == n as u32),
        op is InspectCapabilities || op is InspectRequest ==> false,
{
}

/// The receipt of a stored row reports that row: its id, fingerprint,
/// outcome as evidence and error, at protocol version 1, with the status of
/// its state; a row still accepted or executing is reported uncertain.
pub proof fn lemma_stored_receipt_reports_row(e: EntryModel)
    ensures
        receipt_of_entry(e).request_id == e.request_id,
        receipt_of_entry(e).fingerprint == e.fingerprint,
        receipt_of_entry(e).evidence == e.outcome,
        receipt_of_entry(e).error == e.error,
        receipt_of_entry(e).v == 1,
        e.state is Succeeded ==> receipt_of_entry(e).status is Succeeded,
        e.state is Failed ==> receipt_of_entry(e).status is Failed,
        e.state is Rejected ==> receipt_of_entry(e).status is Rejected,
        e.state is Conflict ==> receipt_of_entry(e).status is Conflict,
        e.state is Uncertain || e.state is Accepted || e.state is Executing ==> receipt_of_entry(e).status is Uncertain,
{
}

/// Only granted requests are admitted: one that names this device id and
/// the grant's current number, whose id is well formed, at most 24 hours old
/// and at most 5 minutes ahead of the clock, under a grant neither revoked
/// nor expired, that reached the grant's own device key, from the owner or
/// a listed actor (keys compared trimmed and lowered). A request for another
/// device id, or another grant number, is refused with its own message.
pub proof fn lemma_gate_admits_only_granted(grant: GrantFile, actor: Seq<char>, device: Seq<char>, request: DeviceRequest, now_ms: u64)
    ensures
        gate_error(grant, actor, device, request, now_ms) is None ==> {
            &&& request.device_id@ == grant.device_id@
            &&& request.grant_generation == grant.generation
            &&& crate::device::is_request_id(request.request_id@)
            &&& crate::device::request_timestamp(request.request_id@) <= now_ms + 300000
            &&& now_ms <= crate::device::request_timestamp(request.request_id@) + 86400000
            &&& !grant.revoked
            &&& (grant.expires_at_ms matches Some(e) ==> now_ms <= e)
            &&& crate::text::same_key(grant.device_pubkey_hex@, device)
            &&& (crate::text::lower(crate::text::trim(actor)) == crate::text::lower(crate::text::trim(grant.owner_pubkey_hex@))
                || exists|i: int| 0 <= i < grant.actor_pubkeys.len()
                    && crate::text::same_key(#[trigger] grant.actor_pubkeys[i]@, crate::text::lower(crate::text::trim(actor))))
        },
        request.device_id@ != grant.device_id@ ==> gate_error(grant, actor, device, request, now_ms) == Some("device_id does not match this host"@),
        request.device_id@ == grant.device_id@ && request.grant_generation != grant.generation
            ==> gate_error(grant, actor, device, request, now_ms) == Some("grant generation mismatch"@),
{
    if gate_error(grant, actor, device, request, now_ms) is None {
        crate::device::lemma_freshness_window(request.request_id@, now_ms);
    }
}

/// Inspecting a journaled request reports that request's own receipt: its
/// id, fingerprint, the status of its row and its outcome; inspecting an
/// unknown id fails with `request not found`.
pub proof fn lemma_inspect_reports_stored_receipt(request: DeviceRequest, grant: GrantFile, j: Map<Seq<char>, EntryModel>)
    ensures
        text_field(request.params@, "request_id"@) matches Some(t) ==> {
            &&& j.contains_key(t) ==> (immediate_result(DeviceOp::InspectRequest, request, grant, j) matches Some(Ok(ev)) && {
                &&& text_field(ev, "request_id"@) == Some(j[t].request_id)
                &&& text_field(ev, "fingerprint"@) == Some(j[t].fingerprint)
                &&& text_field(ev, "status"@) == Some(crate::wire::receipt_status_name(state_status(j[t].state)))
                &&& field(ev, "evidence"@) == Some(j[t].outcome)
            })
            &&& !j.contains_key(t) ==> immediate_result(DeviceOp::InspectRequest, request, grant, j)
                == Some(Err::<JsonModel, Seq<char>>("journal: "@ + "request not found"@))
        },
{
    if let Some(t) = text_field(request.params@, "request_id"@) {
        if j.contains_key(t) {
            crate::wire::lemma_receipt_json_fields(receipt_of_entry(j[t]));
        }
    }
}

} // verus!
