//! The per-request journal: the source of truth for retry and crash
//! recovery. Rows are kept here; the host persists every row this journal
//! records as written, in order.

use vstd::prelude::*;
use vstd::string::StringExecFns;
use crate::json::{Json, JsonModel};
use crate::wire::{copy_opt, opt_text};

verus! {

/// Journaled request lifecycle.
#[derive(Debug, Clone, Copy, PartialEq, Eq, Structural)]
pub enum RequestState {
    /// Accepted, not yet executing.
    Accepted,
    /// Mutation in progress.
    Executing,
    /// Terminal success.
    Succeeded,
    /// Terminal failure with no mutation or failed mutation.
    Failed,
    /// Authorization or validation reject (no mutation).
    Rejected,
    /// Same request id, different fingerprint.
    Conflict,
    /// Crash left an outcome that must not be blindly retried.
    Uncertain,
}

/// One durable request row.
#[derive(Debug)]
pub struct JournalEntry {
    /// Request id.
    pub request_id: String,
    /// Parameter fingerprint.
    pub fingerprint: String,
    /// Lifecycle state.
    pub state: RequestState,
    /// Wire op name.
    pub op: String,
    /// Actor pubkey hex.
    pub actor_pubkey_hex: String,
    /// Grant generation used.
    pub grant_generation: u64,
    /// Outcome payload (receipt body).
    pub outcome: Json,
    /// Error message when failed/rejected.
    pub error: Option<String>,
    /// Original params, kept for reconciling after a crash.
    pub params: Json,
}

/// The mathematical value of a journal row.
pub struct EntryModel {
    /// Request id.
    pub request_id: Seq<char>,
    /// Parameter fingerprint.
    pub fingerprint: Seq<char>,
    /// Lifecycle state.
    pub state: RequestState,
    /// Wire op name.
    pub op: Seq<char>,
    /// Actor pubkey hex.
    pub actor_pubkey_hex: Seq<char>,
    /// Grant generation used.
    pub grant_generation: u64,
    /// Outcome payload.
    pub outcome: JsonModel,
    /// Error message.
    pub error: Option<Seq<char>>,
    /// Original params.
    pub params: JsonModel,
}

impl View for JournalEntry {
    type V = EntryModel;

    open spec fn view(&self) -> EntryModel {
        EntryModel {
            request_id: self.request_id@,
            fingerprint: self.fingerprint@,
            state: self.state,
            op: self.op@,
            actor_pubkey_hex: self.actor_pubkey_hex@,
            grant_generation: self.grant_generation,
            outcome: self.outcome@,
            error: opt_text(self.error),
            params: self.params@,
        }
    }
}

impl JournalEntry {
    /// A copy of this row.
    pub fn duplicate(&self) -> (r: JournalEntry)
        ensures
            r@ == self@,
    {
        JournalEntry {
            request_id: self.request_id.clone(),
            fingerprint: self.fingerprint.clone(),
            state: self.state,
            op: self.op.clone(),
            actor_pubkey_hex: self.actor_pubkey_hex.clone(),
            grant_generation: self.grant_generation,
            outcome: self.outcome.deep_clone(),
            error: copy_opt(&self.error),
            params: self.params.deep_clone(),
        }
    }
}

/// The models of `rows`, in order.
pub open spec fn entry_models(rows: Seq<JournalEntry>) -> Seq<EntryModel> {
    rows.map_values(|e: JournalEntry| e@)
}

/// Request ids in `rows` are distinct.
pub open spec fn ids_distinct(rows: Seq<JournalEntry>) -> bool {
    forall|i: int, j: int| 0 <= i < rows.len() && 0 <= j < rows.len() && i != j ==> (#[trigger] rows[i]).request_id@ != (#[trigger] rows[j]).request_id@
}

/// The rows of `rows` by request id.
pub open spec fn rows_map(rows: Seq<JournalEntry>) -> Map<Seq<char>, EntryModel> {
    Map::new(
        |k: Seq<char>| exists|i: int| 0 <= i < rows.len() && (#[trigger] rows[i]).request_id@ == k,
        |k: Seq<char>| rows[choose|i: int| 0 <= i < rows.len() && (#[trigger] rows[i]).request_id@ == k]@,
    )
}

/// Journal rows by request id, plus the rows written since the host last
/// persisted.
pub struct Journal {
    rows: Vec<JournalEntry>,
    writes: Vec<JournalEntry>,
}

impl Journal {
    /// The file, relative to the journal directory, that holds the row of
    /// `request_id`.
    pub fn path_for(request_id: &str) -> (p: String)
        ensures
            p@ == request_id@ + ".json"@,
    {
        request_id.to_string().concat(".json")
    }
}

impl Journal {
    #[verifier::type_invariant]
    spec fn distinct_ids(self) -> bool {
        ids_distinct(self.rows@)
    }

    /// Rows written since the host last took them, oldest first.
    pub closed spec fn written(self) -> Seq<EntryModel> {
        entry_models(self.writes@)
    }
}

impl View for Journal {
    type V = Map<Seq<char>, EntryModel>;

    closed spec fn view(&self) -> Map<Seq<char>, EntryModel> {
        rows_map(self.rows@)
    }
}

proof fn lemma_rows_map_at(rows: Seq<JournalEntry>, i: int)
    requires
        ids_distinct(rows),
        0 <= i < rows.len(),
    ensures
        rows_map(rows).contains_key(rows[i].request_id@),
        rows_map(rows)[rows[i].request_id@] == rows[i]@,
{
    let k = rows[i].request_id@;
    assert(rows_map(rows).dom().contains(k));
    let j = choose|j: int| 0 <= j < rows.len() && (#[trigger] rows[j]).request_id@ == k;
    assert(j == i);
}

impl Journal {
    /// An empty journal.
    pub fn new() -> (j: Journal)
        ensures
            j@ == Map::<Seq<char>, EntryModel>::empty(),
            j.written() == Seq::<EntryModel>::empty(),
    {
        let j = Journal { rows: Vec::new(), writes: Vec::new() };
        proof {
            assert(j@ =~= Map::<Seq<char>, EntryModel>::empty());
            assert(j.written() =~= Seq::<EntryModel>::empty());
        }
        j
    }

    /// Number of rows.
    pub fn len(&self) -> (n: usize)
        ensures
            n == self@.dom().len(),
    {
        proof {
            use_type_invariant(self);
            self.lemma_dom_len();
        }
        self.rows.len()
    }

    proof fn lemma_dom_len(&self)
        requires
            ids_distinct(self.rows@),
        ensures
            self@.dom().len() == self.rows@.len(),
            self@.dom().finite(),
    {
        let ids = Seq::new(self.rows@.len(), |i: int| self.rows@[i].request_id@);
        assert forall|k: Seq<char>| self@.dom().contains(k) <==> ids.to_set().contains(k) by {
            if self@.dom().contains(k) {
                let i = choose|i: int| 0 <= i < self.rows@.len() && (#[trigger] self.rows@[i]).request_id@ == k;
                assert(ids[i] == k);
            }
            if ids.to_set().contains(k) {
                assert(ids.contains(k));
                let i = choose|i: int| 0 <= i < ids.len() && ids[i] == k;
                assert(self.rows@[i].request_id@ == k);
            }
        }
        assert(self@.dom() =~= ids.to_set());
        assert forall|i: int, j: int| 0 <= i < ids.len() && 0 <= j < ids.len() && i != j implies ids[i] != ids[j] by {
            assert(ids[i] == self.rows@[i].request_id@);
            assert(ids[j] == self.rows@[j].request_id@);
        }
        assert(ids.no_duplicates());
        ids.unique_seq_to_set();
    }

    /// The row at position `i` (positions are stable until the next `put`).
    pub fn row_at(&self, i: usize) -> (e: &JournalEntry)
        requires
            i < self@.dom().len(),
        ensures
            self@.contains_key(e.request_id@),
            self@[e.request_id@] == e@,
    {
        proof {
            use_type_invariant(self);
            self.lemma_dom_len();
            lemma_rows_map_at(self.rows@, i as int);
        }
        &self.rows[i]
    }

    /// Copies of all rows: distinct request ids, holding exactly this
    /// journal's rows.
    pub fn entries(&self) -> (v: Vec<JournalEntry>)
        ensures
            ids_distinct(v@),
            rows_map(v@) == self@,
            forall|i: int| 0 <= i < v@.len() ==> self@.contains_key(#[trigger] v@[i].request_id@)
                && self@[v@[i].request_id@] == v@[i]@,
            forall|k: Seq<char>| self@.contains_key(k) ==> exists|i: int| 0 <= i < v@.len() && (#[trigger] v@[i]).request_id@ == k,
    {
        proof {
            use_type_invariant(self);
        }
        let mut v: Vec<JournalEntry> = Vec::new();
        let mut i: usize = 0;
        while i < self.rows.len()
            invariant
                i <= self.rows@.len(),
                ids_distinct(self.rows@),
                v@.len() == i,
                forall|m: int| 0 <= m < i ==> (#[trigger] v@[m])@ == self.rows@[m]@,
            decreases self.rows@.len() - i,
        {
            v.push(self.rows[i].duplicate());
            i += 1;
        }
        proof {
            assert(ids_distinct(v@)) by {
                assert forall|a: int, b: int| 0 <= a < v@.len() && 0 <= b < v@.len() && a != b implies (#[trigger] v@[a]).request_id@ != (#[trigger] v@[b]).request_id@ by {
                    assert(v@[a]@ == self.rows@[a]@);
                    assert(v@[b]@ == self.rows@[b]@);
                }
            }
            assert forall|m: int| 0 <= m < v@.len() implies self@.contains_key(#[trigger] v@[m].request_id@) && self@[v@[m].request_id@] == v@[m]@ by {
                assert(v@[m]@ == self.rows@[m]@);
                lemma_rows_map_at(self.rows@, m);
            }
            assert forall|k: Seq<char>| self@.contains_key(k) implies exists|m: int| 0 <= m < v@.len() && (#[trigger] v@[m]).request_id@ == k by {
                let m = choose|m: int| 0 <= m < self.rows@.len() && (#[trigger] self.rows@[m]).request_id@ == k;
                assert(v@[m]@ == self.rows@[m]@);
            }
            assert forall|k: Seq<char>| #[trigger] rows_map(v@).contains_key(k) == self@.contains_key(k) by {
                if rows_map(v@).contains_key(k) {
                    let m = choose|m: int| 0 <= m < v@.len() && (#[trigger] v@[m]).request_id@ == k;
                    assert(v@[m]@ == self.rows@[m]@);
                    assert(self.rows@[m].request_id@ == k);
                }
            }
            assert forall|k: Seq<char>| #[trigger] rows_map(v@).contains_key(k) implies rows_map(v@)[k] == self@[k] by {
                let m = choose|m: int| 0 <= m < v@.len() && (#[trigger] v@[m]).request_id@ == k;
                lemma_rows_map_at(v@, m);
                assert(v@[m]@ == self.rows@[m]@);
                lemma_rows_map_at(self.rows@, m);
            }
            assert(rows_map(v@) =~= self@);
        }
        v
    }

    /// The row for `request_id`, if any.
    pub fn get(&self, request_id: &str) -> (r: Option<&JournalEntry>)
        ensures
            r matches Some(e) ==> self@.contains_key(request_id@) && self@[request_id@] == e@
                && e.request_id@ == request_id@,
            r is None ==> !self@.contains_key(request_id@),
    {
        proof {
            use_type_invariant(self);
        }
        let mut i: usize = 0;
        while i < self.rows.len()
            invariant
                i <= self.rows@.len(),
                ids_distinct(self.rows@),
                forall|m: int| 0 <= m < i ==> (#[trigger] self.rows@[m]).request_id@ != request_id@,
            decreases self.rows@.len() - i,
        {
            if crate::text::str_eq(self.rows[i].request_id.as_str(), request_id) {
                proof {
                    lemma_rows_map_at(self.rows@, i as int);
                }
                return Some(&self.rows[i]);
            }
            i += 1;
        }
        None
    }

    /// Store `entry` as the row for its request id, replacing any earlier
    /// row, and record it as written.
    pub fn put(&mut self, entry: JournalEntry)
        ensures
            final(self)@ == old(self)@.insert(entry.request_id@, entry@),
            final(self).written() == old(self).written().push(entry@),
    {
        proof {
            use_type_invariant(&*self);
        }
        let logged = entry.duplicate();
        let mut rows: Vec<JournalEntry> = Vec::new();
        std::mem::swap(&mut rows, &mut self.rows);
        let ghost old_rows = rows@;
        let mut i: usize = 0;
        while i < rows.len()
            invariant
                rows@ == old_rows,
                i <= rows@.len(),
                ids_distinct(rows@),
                forall|m: int| 0 <= m < i ==> (#[trigger] rows@[m]).request_id@ != entry.request_id@,
            ensures
                rows@ == old_rows,
                i <= rows@.len(),
                forall|m: int| 0 <= m < i ==> (#[trigger] rows@[m]).request_id@ != entry.request_id@,
                i < rows@.len() ==> rows@[i as int].request_id@ == entry.request_id@,
            decreases rows@.len() - i,
        {
            if crate::text::str_eq(rows[i].request_id.as_str(), entry.request_id.as_str()) {
                break;
            }
            i += 1;
        }
        let ghost key = entry.request_id@;
        let ghost em = entry@;
        if i < rows.len() {
            rows.set(i, entry);
            proof {
                assert(ids_distinct(rows@));
                assert forall|k: Seq<char>| #[trigger] rows_map(rows@).contains_key(k) == rows_map(old_rows).insert(key, em).contains_key(k) by {
                    if k != key {
                        if rows_map(old_rows).contains_key(k) {
                            let j = choose|j: int| 0 <= j < old_rows.len() && (#[trigger] old_rows[j]).request_id@ == k;
                            assert(rows@[j].request_id@ == k);
                        }
                        if rows_map(rows@).contains_key(k) {
                            let j = choose|j: int| 0 <= j < rows@.len() && (#[trigger] rows@[j]).request_id@ == k;
                            assert(old_rows[j].request_id@ == k);
                        }
                    } else {
                        assert(rows@[i as int].request_id@ == k);
                    }
                }
                assert forall|k: Seq<char>| #[trigger] rows_map(rows@).contains_key(k) implies rows_map(rows@)[k] == rows_map(old_rows).insert(key, em)[k] by {
                    let j = choose|j: int| 0 <= j < rows@.len() && (#[trigger] rows@[j]).request_id@ == k;
                    lemma_rows_map_at(rows@, j);
                    if k != key {
                        assert(j != i);
                        assert(old_rows[j] == rows@[j]);
                        lemma_rows_map_at(old_rows, j);
                    }
                }
                assert(rows_map(rows@) =~= rows_map(old_rows).insert(key, em));
            }
        } else {
            rows.push(entry);
            proof {
                assert(ids_distinct(rows@));
                let n = old_rows.len() as int;
                assert forall|k: Seq<char>| #[trigger] rows_map(rows@).contains_key(k) == rows_map(old_rows).insert(key, em).contains_key(k) by {
                    if rows_map(old_rows).contains_key(k) {
                        let j = choose|j: int| 0 <= j < old_rows.len() && (#[trigger] old_rows[j]).request_id@ == k;
                        assert(rows@[j].request_id@ == k);
                    }
                    if rows_map(rows@).contains_key(k) && k != key {
                        let j = choose|j: int| 0 <= j < rows@.len() && (#[trigger] rows@[j]).request_id@ == k;
                        assert(j != n);
                        assert(old_rows[j].request_id@ == k);
                    }
                    if k == key {
                        assert(rows@[n].request_id@ == k);
                    }
                }
                assert forall|k: Seq<char>| #[trigger] rows_map(rows@).contains_key(k) implies rows_map(rows@)[k] == rows_map(old_rows).insert(key, em)[k] by {
                    let j = choose|j: int| 0 <= j < rows@.len() && (#[trigger] rows@[j]).request_id@ == k;
                    lemma_rows_map_at(rows@, j);
                    if k != key {
                        assert(j != n);
                        assert(old_rows[j] == rows@[j]);
                        lemma_rows_map_at(old_rows, j);
                    }
                }
                assert(rows_map(rows@) =~= rows_map(old_rows).insert(key, em));
            }
        }
        self.rows = rows;
        let mut log: Vec<JournalEntry> = Vec::new();
        std::mem::swap(&mut log, &mut self.writes);
        log.push(logged);
        self.writes = log;
        proof {
            assert(entry_models(self.writes@) =~= entry_models(old(self).writes@).push(em));
        }
    }

    /// Hand over the rows written since the last call, oldest first.
    pub fn take_writes(&mut self) -> (w: Vec<JournalEntry>)
        ensures
            entry_models(w@) == old(self).written(),
            final(self)@ == old(self)@,
            final(self).written() == Seq::<EntryModel>::empty(),
    {
        proof {
            use_type_invariant(&*self);
        }
        let mut w: Vec<JournalEntry> = Vec::new();
        std::mem::swap(&mut w, &mut self.writes);
        proof {
            assert(entry_models(self.writes@) =~= Seq::<EntryModel>::empty());
        }
        w
    }
}

/// Reading a row back gives what was last stored for that request id, and
/// storing one row leaves every other request id's row as it was.
pub proof fn lemma_journal_read_after_write(before: Map<Seq<char>, EntryModel>, entry: EntryModel, other: Seq<char>)
    requires
        other != entry.request_id,
    ensures
        before.insert(entry.request_id, entry)[entry.request_id] == entry,
        before.insert(entry.request_id, entry).contains_key(other) == before.contains_key(other),
        before.contains_key(other) ==> before.insert(entry.request_id, entry)[other] == before[other],
{
}

} // verus!
