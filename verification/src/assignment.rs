//! Same-tank coordination on the host: the assignment journal, process
//! binding, parsed coordination events and the decision for each inbound
//! event.

use vstd::prelude::*;
use vstd::string::StringExecFns;
use crate::coord::{
    assignment_fingerprint, assignment_text, authorize_coord_peer, check_assignment_id, coord_error_text,
    coord_peer_verdict, phase_name, status_from_name, status_name, CoordError, CoordPeers, CoordPhase,
    CoordStatus, COORD_MAX_EVENTS,
};
use crate::device::is_request_id;
use crate::digest::digest_hex;
use crate::host::{device_error_text, DeviceError};
use crate::json::{as_text, field, is_number, text_field, Json, JsonModel};
use crate::coord::phase_from_name;
use crate::text::{same_key, same_key_exec, str_eq};
use crate::wire::tag2;

verus! {

/// One durable assignment row.
#[derive(Debug)]
pub struct CoordEntry {
    /// Assignment id.
    pub assignment_id: String,
    /// Fingerprint of tank/conversation/worker/task.
    pub fingerprint: String,
    /// Runtime status.
    pub status: String,
    /// Events processed.
    pub events_seen: u32,
    /// Last coord phase.
    pub last_phase: String,
}

/// The mathematical value of an assignment row.
pub struct CoordEntryModel {
    /// Assignment id.
    pub assignment_id: Seq<char>,
    /// Fingerprint.
    pub fingerprint: Seq<char>,
    /// Runtime status.
    pub status: Seq<char>,
    /// Events processed.
    pub events_seen: u32,
    /// Last coord phase.
    pub last_phase: Seq<char>,
}

impl View for CoordEntry {
    type V = CoordEntryModel;

    open spec fn view(&self) -> CoordEntryModel {
        CoordEntryModel {
            assignment_id: self.assignment_id@,
            fingerprint: self.fingerprint@,
            status: self.status@,
            events_seen: self.events_seen,
            last_phase: self.last_phase@,
        }
    }
}

impl CoordEntry {
    /// A copy of this row.
    pub fn duplicate(&self) -> (r: CoordEntry)
        ensures
            r@ == self@,
    {
        CoordEntry {
            assignment_id: self.assignment_id.clone(),
            fingerprint: self.fingerprint.clone(),
            status: self.status.clone(),
            events_seen: self.events_seen,
            last_phase: self.last_phase.clone(),
        }
    }
}

/// The models of `rows`, in order.
pub open spec fn coord_models(rows: Seq<CoordEntry>) -> Seq<CoordEntryModel> {
    rows.map_values(|e: CoordEntry| e@)
}

/// Request ids in `rows` are distinct.
pub open spec fn coord_ids_distinct(rows: Seq<CoordEntry>) -> bool {
    forall|i: int, j: int| 0 <= i < rows.len() && 0 <= j < rows.len() && i != j ==> (#[trigger] rows[i]).assignment_id@ != (#[trigger] rows[j]).assignment_id@
}

/// The rows of `rows` by assignment id.
pub open spec fn coord_rows_map(rows: Seq<CoordEntry>) -> Map<Seq<char>, CoordEntryModel> {
    Map::new(
        |k: Seq<char>| exists|i: int| 0 <= i < rows.len() && (#[trigger] rows[i]).assignment_id@ == k,
        |k: Seq<char>| rows[choose|i: int| 0 <= i < rows.len() && (#[trigger] rows[i]).assignment_id@ == k]@,
    )
}

/// Assignment rows by assignment id, plus the rows written since the host last
/// persisted.
pub struct CoordJournal {
    rows: Vec<CoordEntry>,
    writes: Vec<CoordEntry>,
}

impl CoordJournal {
    /// The file, relative to the journal directory, that holds the row of
    /// `assignment_id`.
    pub fn path_for(assignment_id: &str) -> (p: String)
        ensures
            p@ == assignment_id@ + ".json"@,
    {
        assignment_id.to_string().concat(".json")
    }
}

impl CoordJournal {
    #[verifier::type_invariant]
    spec fn distinct_ids(self) -> bool {
        coord_ids_distinct(self.rows@)
    }

    /// Rows written since the host last took them, oldest first.
    pub closed spec fn written(self) -> Seq<CoordEntryModel> {
        coord_models(self.writes@)
    }
}

impl View for CoordJournal {
    type V = Map<Seq<char>, CoordEntryModel>;

    closed spec fn view(&self) -> Map<Seq<char>, CoordEntryModel> {
        coord_rows_map(self.rows@)
    }
}

proof fn lemma_coord_rows_map_at(rows: Seq<CoordEntry>, i: int)
    requires
        coord_ids_distinct(rows),
        0 <= i < rows.len(),
    ensures
        coord_rows_map(rows).contains_key(rows[i].assignment_id@),
        coord_rows_map(rows)[rows[i].assignment_id@] == rows[i]@,
{
    let k = rows[i].assignment_id@;
    assert(coord_rows_map(rows).dom().contains(k));
    let j = choose|j: int| 0 <= j < rows.len() && (#[trigger] rows[j]).assignment_id@ == k;
    assert(j == i);
}

impl CoordJournal {
    /// An empty journal.
    pub fn new() -> (j: CoordJournal)
        ensures
            j@ == Map::<Seq<char>, CoordEntryModel>::empty(),
            j.written() == Seq::<CoordEntryModel>::empty(),
    {
        let j = CoordJournal { rows: Vec::new(), writes: Vec::new() };
        proof {
            assert(j@ =~= Map::<Seq<char>, CoordEntryModel>::empty());
            assert(j.written() =~= Seq::<CoordEntryModel>::empty());
        }
        j
    }

    /// Number of rows.
    pub fn len(&self) -> (n: usize)
        ensures
            n == self@.dom().len(),
    {
        proof {
            use_type_invariant(self);
            self.lemma_dom_len();
        }
        self.rows.len()
    }

    proof fn lemma_dom_len(&self)
        requires
            coord_ids_distinct(self.rows@),
        ensures
            self@.dom().len() == self.rows@.len(),
            self@.dom().finite(),
    {
        let ids = Seq::new(self.rows@.len(), |i: int| self.rows@[i].assignment_id@);
        assert forall|k: Seq<char>| self@.dom().contains(k) <==> ids.to_set().contains(k) by {
            if self@.dom().contains(k) {
                let i = choose|i: int| 0 <= i < self.rows@.len() && (#[trigger] self.rows@[i]).assignment_id@ == k;
                assert(ids[i] == k);
            }
            if ids.to_set().contains(k) {
                assert(ids.contains(k));
                let i = choose|i: int| 0 <= i < ids.len() && ids[i] == k;
                assert(self.rows@[i].assignment_id@ == k);
            }
        }
        assert(self@.dom() =~= ids.to_set());
        assert forall|i: int, j: int| 0 <= i < ids.len() && 0 <= j < ids.len() && i != j implies ids[i] != ids[j] by {
            assert(ids[i] == self.rows@[i].assignment_id@);
            assert(ids[j] == self.rows@[j].assignment_id@);
        }
        assert(ids.no_duplicates());
        ids.unique_seq_to_set();
    }

    /// The row at position `i` (positions are stable until the next `put`).
    pub fn row_at(&self, i: usize) -> (e: &CoordEntry)
        requires
            i < self@.dom().len(),
        ensures
            self@.contains_key(e.assignment_id@),
            self@[e.assignment_id@] == e@,
    {
        proof {
            use_type_invariant(self);
            self.lemma_dom_len();
            lemma_coord_rows_map_at(self.rows@, i as int);
        }
        &self.rows[i]
    }

    /// Copies of all rows: distinct assignment ids, holding exactly this
    /// journal's rows.
    pub fn entries(&self) -> (v: Vec<CoordEntry>)
        ensures
            coord_ids_distinct(v@),
            coord_rows_map(v@) == self@,
            forall|i: int| 0 <= i < v@.len() ==> self@.contains_key(#[trigger] v@[i].assignment_id@)
                && self@[v@[i].assignment_id@] == v@[i]@,
            forall|k: Seq<char>| self@.contains_key(k) ==> exists|i: int| 0 <= i < v@.len() && (#[trigger] v@[i]).assignment_id@ == k,
    {
        proof {
            use_type_invariant(self);
        }
        let mut v: Vec<CoordEntry> = Vec::new();
        let mut i: usize = 0;
        while i < self.rows.len()
            invariant
                i <= self.rows@.len(),
                coord_ids_distinct(self.rows@),
                v@.len() == i,
                forall|m: int| 0 <= m < i ==> (#[trigger] v@[m])@ == self.rows@[m]@,
            decreases self.rows@.len() - i,
        {
            v.push(self.rows[i].duplicate());
            i += 1;
        }
        proof {
            assert(coord_ids_distinct(v@)) by {
                assert forall|a: int, b: int| 0 <= a < v@.len() && 0 <= b < v@.len() && a != b implies (#[trigger] v@[a]).assignment_id@ != (#[trigger] v@[b]).assignment_id@ by {
                    assert(v@[a]@ == self.rows@[a]@);
                    assert(v@[b]@ == self.rows@[b]@);
                }
            }
            assert forall|m: int| 0 <= m < v@.len() implies self@.contains_key(#[trigger] v@[m].assignment_id@) && self@[v@[m].assignment_id@] == v@[m]@ by {
                assert(v@[m]@ == self.rows@[m]@);
                lemma_coord_rows_map_at(self.rows@, m);
            }
            assert forall|k: Seq<char>| self@.contains_key(k) implies exists|m: int| 0 <= m < v@.len() && (#[trigger] v@[m]).assignment_id@ == k by {
                let m = choose|m: int| 0 <= m < self.rows@.len() && (#[trigger] self.rows@[m]).assignment_id@ == k;
                assert(v@[m]@ == self.rows@[m]@);
            }
            assert forall|k: Seq<char>| #[trigger] coord_rows_map(v@).contains_key(k) == self@.contains_key(k) by {
                if coord_rows_map(v@).contains_key(k) {
                    let m = choose|m: int| 0 <= m < v@.len() && (#[trigger] v@[m]).assignment_id@ == k;
                    assert(v@[m]@ == self.rows@[m]@);
                    assert(self.rows@[m].assignment_id@ == k);
                }
            }
            assert forall|k: Seq<char>| #[trigger] coord_rows_map(v@).contains_key(k) implies coord_rows_map(v@)[k] == self@[k] by {
                let m = choose|m: int| 0 <= m < v@.len() && (#[trigger] v@[m]).assignment_id@ == k;
                lemma_coord_rows_map_at(v@, m);
                assert(v@[m]@ == self.rows@[m]@);
                lemma_coord_rows_map_at(self.rows@, m);
            }
            assert(coord_rows_map(v@) =~= self@);
        }
        v
    }

    /// The row for `assignment_id`, if any.
    pub fn get(&self, assignment_id: &str) -> (r: Option<&CoordEntry>)
        ensures
            r matches Some(e) ==> self@.contains_key(assignment_id@) && self@[assignment_id@] == e@
                && e.assignment_id@ == assignment_id@,
            r is None ==> !self@.contains_key(assignment_id@),
    {
        proof {
            use_type_invariant(self);
        }
        let mut i: usize = 0;
        while i < self.rows.len()
            invariant
                i <= self.rows@.len(),
                coord_ids_distinct(self.rows@),
                forall|m: int| 0 <= m < i ==> (#[trigger] self.rows@[m]).assignment_id@ != assignment_id@,
            decreases self.rows@.len() - i,
        {
            if crate::text::str_eq(self.rows[i].assignment_id.as_str(), assignment_id) {
                proof {
                    lemma_coord_rows_map_at(self.rows@, i as int);
                }
                return Some(&self.rows[i]);
            }
            i += 1;
        }
        None
    }

    /// Store `entry` as the row for its assignment id, replacing any earlier
    /// row, and record it as written.
    pub fn put(&mut self, entry: CoordEntry)
        ensures
            final(self)@ == old(self)@.insert(entry.assignment_id@, entry@),
            final(self).written() == old(self).written().push(entry@),
    {
        proof {
            use_type_invariant(&*self);
        }
        let logged = entry.duplicate();
        let mut rows: Vec<CoordEntry> = Vec::new();
        std::mem::swap(&mut rows, &mut self.rows);
        let ghost old_rows = rows@;
        let mut i: usize = 0;
        while i < rows.len()
            invariant
                rows@ == old_rows,
                i <= rows@.len(),
                coord_ids_distinct(rows@),
                forall|m: int| 0 <= m < i ==> (#[trigger] rows@[m]).assignment_id@ != entry.assignment_id@,
            ensures
                rows@ == old_rows,
                i <= rows@.len(),
                forall|m: int| 0 <= m < i ==> (#[trigger] rows@[m]).assignment_id@ != entry.assignment_id@,
                i < rows@.len() ==> rows@[i as int].assignment_id@ == entry.assignment_id@,
            decreases rows@.len() - i,
        {
            if crate::text::str_eq(rows[i].assignment_id.as_str(), entry.assignment_id.as_str()) {
                break;
            }
            i += 1;
        }
        let ghost key = entry.assignment_id@;
        let ghost em = entry@;
        if i < rows.len() {
            rows.set(i, entry);
            proof {
                assert(coord_ids_distinct(rows@));
                assert forall|k: Seq<char>| #[trigger] coord_rows_map(rows@).contains_key(k) == coord_rows_map(old_rows).insert(key, em).contains_key(k) by {
                    if k != key {
                        if coord_rows_map(old_rows).contains_key(k) {
                            let j = choose|j: int| 0 <= j < old_rows.len() && (#[trigger] old_rows[j]).assignment_id@ == k;
                            assert(rows@[j].assignment_id@ == k);
                        }
                        if coord_rows_map(rows@).contains_key(k) {
                            let j = choose|j: int| 0 <= j < rows@.len() && (#[trigger] rows@[j]).assignment_id@ == k;
                            assert(old_rows[j].assignment_id@ == k);
                        }
                    } else {
                        assert(rows@[i as int].assignment_id@ == k);
                    }
                }
                assert forall|k: Seq<char>| #[trigger] coord_rows_map(rows@).contains_key(k) implies coord_rows_map(rows@)[k] == coord_rows_map(old_rows).insert(key, em)[k] by {
                    let j = choose|j: int| 0 <= j < rows@.len() && (#[trigger] rows@[j]).assignment_id@ == k;
                    lemma_coord_rows_map_at(rows@, j);
                    if k != key {
                        assert(j != i);
                        assert(old_rows[j] == rows@[j]);
                        lemma_coord_rows_map_at(old_rows, j);
                    }
                }
                assert(coord_rows_map(rows@) =~= coord_rows_map(old_rows).insert(key, em));
            }
        } else {
            rows.push(entry);
            proof {
                assert(coord_ids_distinct(rows@));
                let n = old_rows.len() as int;
                assert forall|k: Seq<char>| #[trigger] coord_rows_map(rows@).contains_key(k) == coord_rows_map(old_rows).insert(key, em).contains_key(k) by {
                    if coord_rows_map(old_rows).contains_key(k) {
                        let j = choose|j: int| 0 <= j < old_rows.len() && (#[trigger] old_rows[j]).assignment_id@ == k;
                        assert(rows@[j].assignment_id@ == k);
                    }
                    if coord_rows_map(rows@).contains_key(k) && k != key {
                        let j = choose|j: int| 0 <= j < rows@.len() && (#[trigger] rows@[j]).assignment_id@ == k;
                        assert(j != n);
                        assert(old_rows[j].assignment_id@ == k);
                    }
                    if k == key {
                        assert(rows@[n].assignment_id@ == k);
                    }
                }
                assert forall|k: Seq<char>| #[trigger] coord_rows_map(rows@).contains_key(k) implies coord_rows_map(rows@)[k] == coord_rows_map(old_rows).insert(key, em)[k] by {
                    let j = choose|j: int| 0 <= j < rows@.len() && (#[trigger] rows@[j]).assignment_id@ == k;
                    lemma_coord_rows_map_at(rows@, j);
                    if k != key {
                        assert(j != n);
                        assert(old_rows[j] == rows@[j]);
                        lemma_coord_rows_map_at(old_rows, j);
                    }
                }
                assert(coord_rows_map(rows@) =~= coord_rows_map(old_rows).insert(key, em));
            }
        }
        self.rows = rows;
        let mut log: Vec<CoordEntry> = Vec::new();
        std::mem::swap(&mut log, &mut self.writes);
        log.push(logged);
        self.writes = log;
        proof {
            assert(coord_models(self.writes@) =~= coord_models(old(self).writes@).push(em));
        }
    }

    /// Hand over the rows written since the last call, oldest first.
    pub fn take_writes(&mut self) -> (w: Vec<CoordEntry>)
        ensures
            coord_models(w@) == old(self).written(),
            final(self)@ == old(self)@,
            final(self).written() == Seq::<CoordEntryModel>::empty(),
    {
        proof {
            use_type_invariant(&*self);
        }
        let mut w: Vec<CoordEntry> = Vec::new();
        std::mem::swap(&mut w, &mut self.writes);
        proof {
            assert(coord_models(self.writes@) =~= Seq::<CoordEntryModel>::empty());
        }
        w
    }
}


/// Process-bound addressing. Fail closed when the event does not match.
#[derive(Debug)]
pub struct CoordBind {
    /// This process pubkey; a `p` tag must equal it, or the sender must be us
    /// (local apply of an outbound continue/result).
    pub self_pubkey_hex: String,
    /// Expected `h` tag / conversation id.
    pub conversation_id: String,
    /// Expected `tank` tag / tank id.
    pub tank_id: String,
}

/// Parsed coordination event.
#[derive(Debug)]
pub struct CoordMessage {
    /// Sender pubkey hex.
    pub sender: String,
    /// Phase.
    pub phase: CoordPhase,
    /// Assignment id.
    pub assignment_id: String,
    /// Tank id.
    pub tank_id: String,
    /// Conversation / channel id.
    pub conversation_id: String,
    /// `#p` mention tags (hex).
    pub p_tags: Vec<String>,
    /// JSON body.
    pub body: Json,
}

/// A marker file that an applied result or continue writes into the
/// worker's checkout (skipped when the file already exists).
#[derive(Debug)]
pub struct Marker {
    /// File name inside the checkout.
    pub file_name: String,
    /// File contents.
    pub content: String,
}

/// The decision for one inbound coordination event.
#[derive(Debug)]
pub enum CoordDecision {
    /// Answer with this status; nothing is written.
    Answer(CoordStatus),
    /// Write `marker` (if any), then journal `entry`, then answer `status`.
    Record {
        /// Status to answer.
        status: CoordStatus,
        /// Marker to write first.
        marker: Option<Marker>,
        /// Row to journal after the marker.
        entry: CoordEntry,
    },
}

/// The mathematical value of a decision: the status, the marker's file name
/// and contents, and the row to journal.
pub enum DecisionModel {
    /// Answer only.
    Answer(CoordStatus),
    /// Record a row.
    Record(CoordStatus, Option<(Seq<char>, Seq<char>)>, CoordEntryModel),
}

impl View for CoordDecision {
    type V = DecisionModel;

    open spec fn view(&self) -> DecisionModel {
        match self {
            CoordDecision::Answer(s) => DecisionModel::Answer(*s),
            CoordDecision::Record { status, marker, entry } => DecisionModel::Record(
                *status,
                match marker {
                    Some(m) => Some((m.file_name@, m.content@)),
                    None => None,
                },
                entry@,
            ),
        }
    }
}

/// The hop count that a body carries for `phase`: a numeric `hops` member
/// (non-integers count as zero, large values are truncated to 32 bits);
/// none for a delegate without one; zero otherwise.
pub open spec fn hops_of(body: JsonModel, phase: CoordPhase) -> Option<u32> {
    match field(body, "hops"@) {
        Some(v) => if is_number(v) {
            Some(match v { JsonModel::Unsigned(n) => n as u32, _ => 0u32 })
        } else if phase == CoordPhase::Delegate {
            None
        } else {
            Some(0u32)
        },
        None => if phase == CoordPhase::Delegate { None } else { Some(0u32) },
    }
}

fn hops_from_body(body: &Json, phase: CoordPhase) -> (r: Option<u32>)
    ensures
        r == hops_of(body@, phase),
{
    match body.get("hops") {
        Some(value) => {
            if value.is_number() {
                let n: u64 = match value.as_u64() {
                    Some(n) => n,
                    None => 0,
                };
                Some(#[verifier::truncate] (n as u32))
            } else if phase == CoordPhase::Delegate {
                None
            } else {
                Some(0)
            }
        },
        None => {
            if phase == CoordPhase::Delegate {
                None
            } else {
                Some(0)
            }
        },
    }
}

/// The texts of `v`.
pub open spec fn texts_of(v: Seq<String>) -> Seq<Seq<char>> {
    v.map_values(|s: String| s@)
}

/// The event is addressed to this process by a `p` tag, or was sent by it.
pub open spec fn addressed(bind: CoordBind, msg: CoordMessage) -> bool {
    (exists|i: int| 0 <= i < msg.p_tags.len() && same_key(#[trigger] msg.p_tags[i]@, bind.self_pubkey_hex@))
        || same_key(msg.sender@, bind.self_pubkey_hex@)
}

/// Events seen so far for the assignment.
pub open spec fn events_so_far(j: Map<Seq<char>, CoordEntryModel>, id: Seq<char>) -> u32 {
    if j.contains_key(id) { j[id].events_seen } else { 0 }
}

/// The `task` text of a body, empty when absent.
pub open spec fn task_of(body: JsonModel) -> Seq<char> {
    match text_field(body, "task"@) {
        Some(t) => t,
        None => Seq::empty(),
    }
}

/// The status and marker that applying an authorized, non-duplicate event
/// yields; `None` when a result carries no known status.
pub open spec fn applied(phase: CoordPhase, body: JsonModel, id: Seq<char>, dirs: bool) -> Option<(CoordStatus, Option<(Seq<char>, Seq<char>)>)> {
    match phase {
        CoordPhase::Delegate | CoordPhase::Ack => Some((CoordStatus::Succeeded, None)),
        CoordPhase::Result => match status_from_name_opt(as_text(field(body, "status"@))) {
            None => None,
            Some(s) => Some((s, if s == CoordStatus::Succeeded && dirs {
                Some(("COORD"@ + "-"@ + id + ".txt"@, task_of(body) + "\n"@))
            } else {
                None
            })),
        },
        CoordPhase::Continue => Some((CoordStatus::Succeeded, if dirs {
            Some(("CONTINUE"@ + "-"@ + id + ".txt"@, "continue"@ + "\n"@))
        } else {
            None
        })),
    }
}

/// Markers are written only for completed work. A recorded decision carries
/// a marker exactly when the host has directories to write it to, the event
/// is a result or a continuation, and the recorded status is `succeeded`;
/// a result's marker is the assignment's `COORD` file holding its task, a
/// continuation's the `CONTINUE` file. Delegations and acks never write one.
pub proof fn lemma_marker_only_for_success(
    j: Map<Seq<char>, CoordEntryModel>,
    peers: CoordPeers,
    bind: CoordBind,
    msg: CoordMessage,
    dirs: bool,
)
    ensures
        coord_decision(j, peers, bind, msg, dirs) matches Ok(DecisionModel::Record(status, marker, _)) ==> {
            &&& (marker is Some <==> (dirs && status == CoordStatus::Succeeded && (msg.phase is Result || msg.phase is Continue)))
            &&& (msg.phase is Result && marker is Some ==> marker == Some((
                    "COORD"@ + "-"@ + msg.assignment_id@ + ".txt"@,
                    (match text_field(msg.body@, "task"@) { Some(t) => t, None => Seq::<char>::empty() }) + "\n"@,
                )))
            &&& (msg.phase is Continue && marker is Some ==> marker == Some((
                    "CONTINUE"@ + "-"@ + msg.assignment_id@ + ".txt"@,
                    "continue"@ + "\n"@,
                )))
            &&& (msg.phase is Result ==> Some(status) == status_from_name_opt(text_field(msg.body@, "status"@)))
            &&& (msg.phase is Delegate || msg.phase is Ack || msg.phase is Continue ==> status == CoordStatus::Succeeded)
        },
{
}

/// A coordination event is recorded only when it belongs here: its id is a
/// well-formed assignment id, it is addressed to this process or sent by it,
/// it names this process's conversation and tank, and the assignment has no
/// row yet or one with this event's fingerprint. The row recorded keeps the
/// assignment id, the fingerprint of tank, conversation, worker and task,
/// the recorded status's name and the event's phase, and counts one more
/// event (never past the budget).
pub proof fn lemma_record_only_when_bound(
    j: Map<Seq<char>, CoordEntryModel>,
    peers: CoordPeers,
    bind: CoordBind,
    msg: CoordMessage,
    dirs: bool,
)
    ensures
        coord_decision(j, peers, bind, msg, dirs) matches Ok(DecisionModel::Record(status, _, entry)) ==> {
            let id = msg.assignment_id@;
            let task = match text_field(msg.body@, "task"@) { Some(t) => t, None => Seq::<char>::empty() };
            let fp = digest_hex(assignment_text(msg.tank_id@, msg.conversation_id@, peers.worker_pubkey_hex@, task));
            &&& is_request_id(id)
            &&& ((exists|i: int| 0 <= i < msg.p_tags.len() && same_key(#[trigger] msg.p_tags[i]@, bind.self_pubkey_hex@))
                || same_key(msg.sender@, bind.self_pubkey_hex@))
            &&& msg.conversation_id@ == bind.conversation_id@
            &&& msg.tank_id@ == bind.tank_id@
            &&& (j.contains_key(id) ==> j[id].fingerprint == fp)
            &&& entry.assignment_id == id
            &&& entry.fingerprint == fp
            &&& entry.status == status_name(status)
            &&& entry.last_phase == phase_name(msg.phase)
            &&& entry.events_seen <= COORD_MAX_EVENTS
            &&& entry.events_seen as int == (if j.contains_key(id) { j[id].events_seen as int } else { 0 }) + 1
                || entry.events_seen == COORD_MAX_EVENTS
        },
{
}

/// The status named by an optional text.
pub open spec fn status_from_name_opt(t: Option<Seq<char>>) -> Option<CoordStatus> {
    match t {
        Some(s) => status_from_name(s),
        None => None,
    }
}

/// The decision for `msg` against journal `j`; `Err` carries the message
/// of the transport error that the host reports. `dirs` says whether the
/// host has both a checkout and an allowed root to write markers into.
pub open spec fn coord_decision(
    j: Map<Seq<char>, CoordEntryModel>,
    peers: CoordPeers,
    bind: CoordBind,
    msg: CoordMessage,
    dirs: bool,
) -> Result<DecisionModel, Seq<char>> {
    let id = msg.assignment_id@;
    let events = events_so_far(j, id);
    if !is_request_id(id) {
        Err("transport: "@ + coord_error_text(CoordError::InvalidAssignmentId))
    } else if !addressed(bind, msg) {
        Ok(DecisionModel::Answer(CoordStatus::Rejected))
    } else if msg.conversation_id@ != bind.conversation_id@ || msg.tank_id@ != bind.tank_id@ {
        Ok(DecisionModel::Answer(CoordStatus::Rejected))
    } else if hops_of(msg.body@, msg.phase) is None {
        Ok(DecisionModel::Answer(CoordStatus::Rejected))
    } else if coord_peer_verdict(peers, msg.sender@, msg.phase, hops_of(msg.body@, msg.phase)->0, events) == Err::<(), CoordError>(CoordError::UnauthorizedPeer) {
        Ok(DecisionModel::Answer(CoordStatus::Rejected))
    } else if coord_peer_verdict(peers, msg.sender@, msg.phase, hops_of(msg.body@, msg.phase)->0, events) is Err {
        Err("transport: "@ + coord_error_text(coord_peer_verdict(peers, msg.sender@, msg.phase, hops_of(msg.body@, msg.phase)->0, events)->Err_0))
    } else if j.contains_key(id) && j[id].last_phase == phase_name(msg.phase) && (msg.phase is Result || msg.phase is Continue) {
        Ok(DecisionModel::Answer(CoordStatus::Duplicate))
    } else if j.contains_key(id) && j[id].fingerprint != digest_hex(assignment_text(msg.tank_id@, msg.conversation_id@, peers.worker_pubkey_hex@, task_of(msg.body@))) {
        Ok(DecisionModel::Answer(CoordStatus::Rejected))
    } else if applied(msg.phase, msg.body@, id, dirs) is None {
        Ok(DecisionModel::Answer(CoordStatus::Rejected))
    } else {
        let (status, marker) = applied(msg.phase, msg.body@, id, dirs)->0;
        Ok(DecisionModel::Record(status, marker, CoordEntryModel {
            assignment_id: id,
            fingerprint: digest_hex(assignment_text(msg.tank_id@, msg.conversation_id@, peers.worker_pubkey_hex@, task_of(msg.body@))),
            status: status_name(status),
            events_seen: if events + 1 > COORD_MAX_EVENTS { COORD_MAX_EVENTS } else { (events + 1) as u32 },
            last_phase: phase_name(msg.phase),
        }))
    }
}

fn any_tag_matches(tags: &Vec<String>, key: &str) -> (r: bool)
    ensures
        r == exists|i: int| 0 <= i < tags@.len() && same_key(#[trigger] tags@[i]@, key@),
{
    let mut i: usize = 0;
    while i < tags.len()
        invariant
            i <= tags@.len(),
            forall|m: int| 0 <= m < i ==> !same_key(#[trigger] tags@[m]@, key@),
        decreases tags@.len() - i,
    {
        if same_key_exec(tags[i].as_str(), key) {
            return true;
        }
        i += 1;
    }
    false
}

fn marker(prefix: &str, id: &String, body: &str) -> (m: Marker)
    ensures
        m.file_name@ == prefix@ + "-"@ + id@ + ".txt"@,
        m.content@ == body@ + "\n"@,
{
    Marker {
        file_name: prefix.to_string().concat("-").concat(id.as_str()).concat(".txt"),
        content: body.to_string().concat("\n"),
    }
}

/// Decide what one inbound coordination event does. Nothing is written
/// here: a [`CoordDecision::Record`] is applied by writing its marker and
/// then passing its row to [`CoordJournal::put`].
#[verifier::rlimit(60)]
#[verifier::spinoff_prover]
pub fn handle_coord(
    journal: &CoordJournal,
    peers: &CoordPeers,
    bind: &CoordBind,
    message: &CoordMessage,
    dirs: bool,
) -> (r: Result<CoordDecision, DeviceError>)
    ensures
        coord_decision(journal@, *peers, *bind, *message, dirs) matches Ok(d) ==> (r matches Ok(x) && x@ == d),
        coord_decision(journal@, *peers, *bind, *message, dirs) matches Err(m) ==> (r matches Err(e) && device_error_text(e) == m && e is Transport),
{
    match check_assignment_id(message.assignment_id.as_str()) {
        Err(e) => {
            return Err(DeviceError::Transport(e.message()));
        },
        Ok(()) => {},
    }
    let addressed_to_self = any_tag_matches(&message.p_tags, bind.self_pubkey_hex.as_str());
    let from_self = same_key_exec(message.sender.as_str(), bind.self_pubkey_hex.as_str());
    if !addressed_to_self && !from_self {
        return Ok(CoordDecision::Answer(CoordStatus::Rejected));
    }
    if !crate::text::str_eq(message.conversation_id.as_str(), bind.conversation_id.as_str())
        || !crate::text::str_eq(message.tank_id.as_str(), bind.tank_id.as_str()) {
        return Ok(CoordDecision::Answer(CoordStatus::Rejected));
    }
    let hops = match hops_from_body(&message.body, message.phase) {
        Some(h) => h,
        None => {
            return Ok(CoordDecision::Answer(CoordStatus::Rejected));
        },
    };
    let existing = journal.get(message.assignment_id.as_str());
    let events_seen: u32 = match existing {
        Some(row) => row.events_seen,
        None => 0,
    };
    match authorize_coord_peer(peers, message.sender.as_str(), message.phase, hops, events_seen) {
        Err(CoordError::UnauthorizedPeer) => {
            return Ok(CoordDecision::Answer(CoordStatus::Rejected));
        },
        Err(other) => {
            return Err(DeviceError::Transport(other.message()));
        },
        Ok(()) => {},
    }
    match existing {
        Some(row) => {
            if crate::text::str_eq(row.last_phase.as_str(), message.phase.as_str())
                && (message.phase == CoordPhase::Result || message.phase == CoordPhase::Continue) {
                return Ok(CoordDecision::Answer(CoordStatus::Duplicate));
            }
        },
        None => {},
    }
    let task: String = match message.body.get("task") {
        Some(v) => match v.as_str() {
            Some(t) => t.clone(),
            None => String::new(),
        },
        None => String::new(),
    };
    let fingerprint = match assignment_fingerprint(
        message.tank_id.as_str(),
        message.conversation_id.as_str(),
        peers.worker_pubkey_hex.as_str(),
        task.as_str(),
    ) {
        Ok(f) => f,
        Err(e) => {
            return Err(DeviceError::Transport(e.message()));
        },
    };
    match existing {
        Some(row) => {
            if !crate::text::str_eq(row.fingerprint.as_str(), fingerprint.as_str()) {
                return Ok(CoordDecision::Answer(CoordStatus::Rejected));
            }
        },
        None => {},
    }
    let (status, mark): (CoordStatus, Option<Marker>) = match message.phase {
        CoordPhase::Delegate | CoordPhase::Ack => (CoordStatus::Succeeded, None),
        CoordPhase::Result => {
            let parsed = match message.body.get("status") {
                Some(v) => match v.as_str() {
                    Some(t) => CoordStatus::parse(t.as_str()),
                    None => None,
                },
                None => None,
            };
            match parsed {
                None => {
                    return Ok(CoordDecision::Answer(CoordStatus::Rejected));
                },
                Some(ok) => {
                    if ok == CoordStatus::Succeeded && dirs {
                        (ok, Some(marker("COORD", &message.assignment_id, task.as_str())))
                    } else {
                        (ok, None)
                    }
                },
            }
        },
        CoordPhase::Continue => {
            if dirs {
                (CoordStatus::Succeeded, Some(marker("CONTINUE", &message.assignment_id, "continue")))
            } else {
                (CoordStatus::Succeeded, None)
            }
        },
    };
    let next: u32 = if events_seen >= COORD_MAX_EVENTS - 1 { COORD_MAX_EVENTS } else { events_seen + 1 };
    let entry = CoordEntry {
        assignment_id: message.assignment_id.clone(),
        fingerprint,
        status: status.as_str().to_string(),
        events_seen: next,
        last_phase: message.phase.as_str().to_string(),
    };
    Ok(CoordDecision::Record { status, marker: mark, entry })
}


/// Event kind of a Buzz stream message.
pub const KIND_STREAM_MESSAGE: u32 = 9;

/// A signed event as the coordination logic reads it: kind, sender,
/// tags, and the content parsed as JSON (`null` when it is not JSON).
#[derive(Debug)]
pub struct EventFields {
    /// Event kind.
    pub kind: u16,
    /// Sender pubkey hex.
    pub pubkey_hex: String,
    /// Tags, each a list of strings.
    pub tags: Vec<Vec<String>>,
    /// Content as JSON.
    pub body: Json,
}

/// The texts of one tag.
pub open spec fn tag_text(t: Vec<String>) -> Seq<Seq<char>> {
    t@.map_values(|s: String| s@)
}

/// The texts of all tags.
pub open spec fn tag_texts(tags: Seq<Vec<String>>) -> Seq<Seq<Seq<char>>> {
    tags.map_values(|t: Vec<String>| tag_text(t))
}

/// The second item of the last tag named `name`: `None` when no tag has that
/// name, `Some(None)` when the last such tag has no second item.
pub open spec fn last_tag_value(tags: Seq<Seq<Seq<char>>>, name: Seq<char>) -> Option<Option<Seq<char>>>
    decreases tags.len(),
{
    if tags.len() == 0 {
        None
    } else if tags.last().len() > 0 && tags.last()[0] == name {
        Some(if tags.last().len() > 1 { Some(tags.last()[1]) } else { None })
    } else {
        last_tag_value(tags.drop_last(), name)
    }
}

/// The second items of the `p` tags that have one, in order.
pub open spec fn p_values(tags: Seq<Seq<Seq<char>>>) -> Seq<Seq<char>>
    decreases tags.len(),
{
    if tags.len() == 0 {
        Seq::empty()
    } else if tags.last().len() > 1 && tags.last()[0] == "p"@ {
        p_values(tags.drop_last()).push(tags.last()[1])
    } else {
        p_values(tags.drop_last())
    }
}

/// `Some(v)` of a present value.
pub open spec fn flat(o: Option<Option<Seq<char>>>) -> Option<Seq<char>> {
    match o {
        Some(Some(v)) => Some(v),
        _ => None,
    }
}

/// The phase named by the last `coord` tag.
pub open spec fn tag_phase(tags: Seq<Seq<Seq<char>>>) -> Option<CoordPhase> {
    match flat(last_tag_value(tags, "coord"@)) {
        Some(v) => phase_from_name(v),
        None => None,
    }
}

/// The event is a coordination message: a stream message carrying a
/// phase, an assignment, a tank and a conversation tag.
pub open spec fn is_coord_event(e: EventFields) -> bool {
    let t = tag_texts(e.tags@);
    &&& e.kind as u32 == KIND_STREAM_MESSAGE
    &&& tag_phase(t) is Some
    &&& flat(last_tag_value(t, "assignment"@)) is Some
    &&& flat(last_tag_value(t, "tank"@)) is Some
    &&& flat(last_tag_value(t, "h"@)) is Some
}

fn tag_item(tag: &Vec<String>, i: usize) -> (r: Option<String>)
    ensures
        i < tag@.len() ==> (r matches Some(s) && s@ == tag@[i as int]@),
        i >= tag@.len() ==> r is None,
{
    if i < tag.len() {
        Some(tag[i].clone())
    } else {
        None
    }
}

/// Parse the tags of a coordination message. Other events give `None`.
#[verifier::loop_isolation(false)]
pub fn parse_coord_event(event: &EventFields) -> (r: Option<CoordMessage>)
    ensures
        !is_coord_event(*event) ==> r is None,
        is_coord_event(*event) ==> (r matches Some(m) && {
            let t = tag_texts(event.tags@);
            &&& m.sender@ == event.pubkey_hex@
            &&& Some(m.phase) == tag_phase(t)
            &&& Some(m.assignment_id@) == flat(last_tag_value(t, "assignment"@))
            &&& Some(m.tank_id@) == flat(last_tag_value(t, "tank"@))
            &&& Some(m.conversation_id@) == flat(last_tag_value(t, "h"@))
            &&& texts_of(m.p_tags@) == p_values(t)
            &&& m.body@ == event.body@
        }),
{
    if (event.kind as u32) != KIND_STREAM_MESSAGE {
        return None;
    }
    let ghost all = tag_texts(event.tags@);
    let mut phase_tag: Option<Option<String>> = None;
    let mut assignment: Option<Option<String>> = None;
    let mut tank: Option<Option<String>> = None;
    let mut conversation: Option<Option<String>> = None;
    let mut p_tags: Vec<String> = Vec::new();
    let mut i: usize = 0;
    while i < event.tags.len()
        invariant
            i <= event.tags@.len(),
            all == tag_texts(event.tags@),
            opt_opt_text(phase_tag) == last_tag_value(all.take(i as int), "coord"@),
            opt_opt_text(assignment) == last_tag_value(all.take(i as int), "assignment"@),
            opt_opt_text(tank) == last_tag_value(all.take(i as int), "tank"@),
            opt_opt_text(conversation) == last_tag_value(all.take(i as int), "h"@),
            texts_of(p_tags@) == p_values(all.take(i as int)),
        decreases event.tags@.len() - i,
    {
        let tag = &event.tags[i];
        proof {
            let t = all.take(i as int + 1);
            assert(t.drop_last() == all.take(i as int));
            assert(t.last() == tag_text(*tag));
        }
        if tag.len() > 0 {
            let name = tag[0].as_str();
            if str_eq(name, "coord") {
                phase_tag = Some(tag_item(tag, 1));
            } else if str_eq(name, "assignment") {
                assignment = Some(tag_item(tag, 1));
            } else if str_eq(name, "tank") {
                tank = Some(tag_item(tag, 1));
            } else if str_eq(name, "h") {
                conversation = Some(tag_item(tag, 1));
            } else if str_eq(name, "p") {
                if tag.len() > 1 {
                    p_tags.push(tag[1].clone());
                    proof {
                        assert(texts_of(p_tags@) =~= texts_of(p_tags@.drop_last()).push(p_tags@.last()@));
                    }
                }
            }
            proof {
                reveal_strlit("coord");
                reveal_strlit("assignment");
                reveal_strlit("tank");
                reveal_strlit("h");
                reveal_strlit("p");
                assert("coord"@.len() != "assignment"@.len());
                assert("coord"@.len() != "tank"@.len());
                assert("coord"@.len() != "h"@.len());
                assert("coord"@.len() != "p"@.len());
                assert("assignment"@.len() != "tank"@.len());
                assert("assignment"@.len() != "h"@.len());
                assert("assignment"@.len() != "p"@.len());
                assert("tank"@.len() != "h"@.len());
                assert("tank"@.len() != "p"@.len());
                assert("h"@[0] != "p"@[0]);
                let t = all.take(i as int + 1);
                assert(t.last()[0] == tag@[0]@);
            }
        }
        i += 1;
    }
    proof {
        assert(all.take(event.tags@.len() as int) == all);
    }
    let phase = match phase_tag {
        Some(Some(v)) => CoordPhase::parse(v.as_str()),
        _ => None,
    };
    match (phase, assignment, tank, conversation) {
        (Some(ph), Some(Some(a)), Some(Some(t)), Some(Some(c))) => Some(CoordMessage {
            sender: event.pubkey_hex.clone(),
            phase: ph,
            assignment_id: a,
            tank_id: t,
            conversation_id: c,
            p_tags,
            body: event.body.deep_clone(),
        }),
        _ => None,
    }
}

/// The texts of an optional optional string.
pub open spec fn opt_opt_text(o: Option<Option<String>>) -> Option<Option<Seq<char>>> {
    match o {
        Some(Some(s)) => Some(Some(s@)),
        Some(None) => Some(None),
        None => None,
    }
}


/// The tags of a coordination message: conversation, recipient,
/// assignment, phase and tank, in that order.
pub open spec fn coord_tag_texts(peer: Seq<char>, conversation: Seq<char>, tank: Seq<char>, assignment: Seq<char>, phase: CoordPhase) -> Seq<Seq<Seq<char>>> {
    seq![
        seq!["h"@, conversation],
        seq!["p"@, peer],
        seq!["assignment"@, assignment],
        seq!["coord"@, phase_name(phase)],
        seq!["tank"@, tank],
    ]
}

/// A coordination message reads back as it was published: a stream event
/// carrying the tags of `coord_tags` is a coordination event whose phase,
/// assignment, tank and conversation are the published ones and whose only
/// recipient is the published peer.
pub proof fn lemma_coord_tags_read_back(
    e: EventFields,
    peer: Seq<char>,
    conversation: Seq<char>,
    tank: Seq<char>,
    assignment: Seq<char>,
    phase: CoordPhase,
)
    requires
        e.kind as u32 == KIND_STREAM_MESSAGE,
        tag_texts(e.tags@) == coord_tag_texts(peer, conversation, tank, assignment, phase),
    ensures
        is_coord_event(e),
        tag_phase(tag_texts(e.tags@)) == Some(phase),
        flat(last_tag_value(tag_texts(e.tags@), "assignment"@)) == Some(assignment),
        flat(last_tag_value(tag_texts(e.tags@), "tank"@)) == Some(tank),
        flat(last_tag_value(tag_texts(e.tags@), "h"@)) == Some(conversation),
        p_values(tag_texts(e.tags@)) == seq![peer],
{
    let t = coord_tag_texts(peer, conversation, tank, assignment, phase);
    reveal_strlit("h");
    reveal_strlit("p");
    reveal_strlit("assignment");
    reveal_strlit("coord");
    reveal_strlit("tank");
    crate::coord::lemma_phase_name_round_trip(phase, phase);
    reveal_with_fuel(last_tag_value, 6);
    reveal_with_fuel(p_values, 6);
    assert(t.drop_last() =~= t.take(4));
    assert(t.take(4).drop_last() =~= t.take(3));
    assert(t.take(3).drop_last() =~= t.take(2));
    assert(t.take(2).drop_last() =~= t.take(1));
    assert(t.take(1).drop_last() =~= Seq::<Seq<Seq<char>>>::empty());
    assert(last_tag_value(t, "tank"@) == Some(Some(tank)));
    assert("tank"@.len() == 4 && "coord"@.len() == 5 && "assignment"@.len() == 10 && "h"@.len() == 1);
    assert("p"@[0] != "h"@[0]);
    assert(t.take(4).last() == seq!["coord"@, phase_name(phase)]);
    assert(t.take(3).last() == seq!["assignment"@, assignment]);
    assert(last_tag_value(t, "coord"@) == last_tag_value(t.take(4), "coord"@));
    assert(last_tag_value(t, "coord"@) == Some(Some(phase_name(phase))));
    assert(last_tag_value(t.take(4), "assignment"@) == last_tag_value(t.take(3), "assignment"@));
    assert(last_tag_value(t, "assignment"@) == Some(Some(assignment)));
    assert(last_tag_value(t, "h"@) == Some(Some(conversation)));
    assert(p_values(t) =~= seq![peer]);
}

/// The tags of an outbound coordination message: conversation `h`, the
/// peer's key, the assignment id, the phase and the tank.
pub fn coord_tags(peer_hex: &str, conversation_id: &str, tank_id: &str, assignment_id: &str, phase: CoordPhase) -> (v: Vec<Vec<String>>)
    ensures
        tag_texts(v@) == coord_tag_texts(peer_hex@, conversation_id@, tank_id@, assignment_id@, phase),
{
    let mut v: Vec<Vec<String>> = Vec::new();
    v.push(tag2("h", conversation_id));
    v.push(tag2("p", peer_hex));
    v.push(tag2("assignment", assignment_id));
    v.push(tag2("coord", phase.as_str()));
    v.push(tag2("tank", tank_id));
    proof {
        assert(tag_texts(v@) =~= seq![
            seq!["h"@, conversation_id@],
            seq!["p"@, peer_hex@],
            seq!["assignment"@, assignment_id@],
            seq!["coord"@, phase_name(phase)],
            seq!["tank"@, tank_id@],
        ]);
    }
    v
}


/// A result or continue is applied once: after its row is journaled,
/// the same event again is answered `duplicate`, with no marker and no row
/// to write (while the assignment's event budget is not spent).
pub proof fn lemma_replayed_event_is_duplicate(
    j: Map<Seq<char>, CoordEntryModel>,
    peers: CoordPeers,
    bind: CoordBind,
    msg: CoordMessage,
    dirs: bool,
    status: CoordStatus,
    mark: Option<(Seq<char>, Seq<char>)>,
    row: CoordEntryModel,
)
    requires
        msg.phase is Result || msg.phase is Continue,
        coord_decision(j, peers, bind, msg, dirs) == Ok::<DecisionModel, Seq<char>>(DecisionModel::Record(status, mark, row)),
        row.events_seen < COORD_MAX_EVENTS,
    ensures
        coord_decision(j.insert(msg.assignment_id@, row), peers, bind, msg, dirs)
            == Ok::<DecisionModel, Seq<char>>(DecisionModel::Answer(CoordStatus::Duplicate)),
{
    let id = msg.assignment_id@;
    let j2 = j.insert(id, row);
    assert(j2.contains_key(id) && j2[id] == row);
    assert(events_so_far(j2, id) == row.events_seen);
}

} // verus!
