//! Desktop-facing mapping of device receipts. Never produces a mock or a
//! local result: every value it returns is tagged as coming from the device.

use vstd::prelude::*;
use crate::canonical::{decimal_text, push_decimal};
use crate::host::{device_error_text, DeviceError};
use crate::json::{
    as_flag, as_text, as_unsigned, field, first_member, items_model, lemma_field_of_distinct, lemma_items_model, Json, JsonModel,
};
use crate::service::{capabilities_evidence, checkout_evidence, session_evidence};
use crate::text::{string_from_chars, trim, trim_chars, chars_of};
use crate::wire::{opt_text, receipt_status_name, DeviceReceipt};

verus! {

/// Provenance tag. Real adapter results are always [`AdapterSource::Device`].
#[derive(Debug, Clone, Copy, PartialEq, Eq, Structural)]
pub enum AdapterSource {
    /// UI mock only. This crate must not emit it.
    Mock,
    /// Result of device operations.
    Device,
    /// Linear client.
    Linear,
}

/// Host capabilities returned by `inspectCapabilities`.
#[derive(Debug, PartialEq)]
pub struct DeviceCapabilities {
    /// Provenance. Always `device` from this crate.
    pub source: AdapterSource,
    /// Selected execution host.
    pub device_id: String,
    /// Device pubkey for encrypted requests.
    pub device_pubkey: String,
    /// Host advertised itself as online.
    pub online: bool,
    /// Device protocol version string.
    pub protocol_version: String,
    /// Advertised harness names.
    pub harnesses: Vec<String>,
    /// Setup readiness.
    pub setup_readiness: String,
    /// Grant generation from capabilities.
    pub grant_generation: u64,
}

/// Outcome of a mutating or inspect op.
#[derive(Debug, PartialEq)]
pub struct DeviceOpResult {
    /// Provenance. Always `device` from this crate.
    pub source: AdapterSource,
    /// Adapter status (receipt mapping).
    pub status: String,
    /// Device request id.
    pub request_id: Option<String>,
    /// Creature/harness session id.
    pub session_id: Option<String>,
    /// Host path after `create_checkout`.
    pub worktree_path: Option<String>,
    /// Checkout branch.
    pub branch: Option<String>,
    /// Checkout HEAD.
    pub head: Option<String>,
    /// Human-readable message. Never implies local success.
    pub message: String,
}

/// The member `key`, or the member `alt` when `key` is absent.
pub open spec fn field_or(j: JsonModel, key: Seq<char>, alt: Seq<char>) -> Option<JsonModel> {
    match field(j, key) {
        Some(v) => Some(v),
        None => field(j, alt),
    }
}

/// The text, or `default` when absent.
pub open spec fn text_or(t: Option<Seq<char>>, default: Seq<char>) -> Seq<char> {
    match t {
        Some(s) => s,
        None => default,
    }
}

/// The string items of an array, in order; other items are skipped.
pub open spec fn string_items(items: Seq<JsonModel>) -> Seq<Seq<char>>
    decreases items.len(),
{
    if items.len() == 0 {
        Seq::empty()
    } else {
        match items.last() {
            JsonModel::Str(s) => string_items(items.drop_last()).push(s),
            _ => string_items(items.drop_last()),
        }
    }
}

/// The harness names advertised in evidence: the string items of
/// `harnesses`, none when it is not an array.
pub open spec fn harness_names(ev: JsonModel) -> Seq<Seq<char>> {
    match field(ev, "harnesses"@) {
        Some(JsonModel::Array(items)) => string_items(items),
        _ => Seq::empty(),
    }
}

/// The protocol version as text: an integer in decimal, a string as is,
/// empty otherwise.
pub open spec fn version_text(ev: JsonModel) -> Seq<char> {
    match as_unsigned(field(ev, "protocol_version"@)) {
        Some(n) => decimal_text(n as nat),
        None => text_or(as_text(field(ev, "protocol_version"@)), Seq::empty()),
    }
}

/// The device id that evidence names (trimmed, empty when absent).
pub open spec fn evidence_device_id(ev: JsonModel) -> Seq<char> {
    trim(text_or(as_text(field(ev, "device_id"@)), Seq::empty()))
}

/// The device pubkey that evidence names (trimmed, empty when absent).
pub open spec fn evidence_device_pubkey(ev: JsonModel) -> Seq<char> {
    trim(text_or(as_text(field_or(ev, "device_pubkey_hex"@, "device_pubkey"@)), Seq::empty()))
}

/// The message of the refused mapping.
pub open spec fn refuse_local_text() -> Seq<char> {
    "inspect_capabilities missing device_id or device_pubkey; refusing local fallback"@
}

fn text_member<'a>(j: &'a Json, key: &str) -> (r: Option<&'a String>)
    ensures
        r matches Some(s) ==> as_text(field(j@, key@)) == Some(s@),
        r is None ==> as_text(field(j@, key@)) is None,
{
    match j.get(key) {
        Some(v) => v.as_str(),
        None => None,
    }
}

/// Map inspect-capabilities evidence onto the desktop record. Refuses to
/// mint a result without a device id and pubkey; the source is always the
/// device.
pub fn capabilities_from_inspect_evidence(evidence: &Json) -> (r: Result<DeviceCapabilities, DeviceError>)
    ensures
        (evidence_device_id(evidence@).len() == 0 || evidence_device_pubkey(evidence@).len() == 0) ==> (r matches Err(e)
            && e is Transport && device_error_text(e) == "transport: "@ + refuse_local_text()),
        (evidence_device_id(evidence@).len() > 0 && evidence_device_pubkey(evidence@).len() > 0) ==> (r matches Ok(c) && {
            &&& c.source == AdapterSource::Device
            &&& c.device_id@ == evidence_device_id(evidence@)
            &&& c.device_pubkey@ == evidence_device_pubkey(evidence@)
            &&& c.online == (as_flag(field(evidence@, "online"@)) == Some(true))
            &&& c.protocol_version@ == version_text(evidence@)
            &&& c.harnesses@.map_values(|s: String| s@) == harness_names(evidence@)
            &&& c.setup_readiness@ == text_or(as_text(field(evidence@, "setup_readiness"@)), "unknown"@)
            &&& c.grant_generation == (match as_unsigned(field(evidence@, "grant_generation"@)) { Some(n) => n, None => 0u64 })
        }),
{
    let device_id_chars = match text_member(evidence, "device_id") {
        Some(s) => trim_chars(&chars_of(s.as_str())),
        None => Vec::new(),
    };
    let pubkey_field = match evidence.get("device_pubkey_hex") {
        Some(v) => Some(v),
        None => evidence.get("device_pubkey"),
    };
    let pubkey_chars = match pubkey_field {
        Some(v) => match v.as_str() {
            Some(s) => trim_chars(&chars_of(s.as_str())),
            None => Vec::new(),
        },
        None => Vec::new(),
    };
    proof {
        assert(trim(Seq::<char>::empty()) == Seq::<char>::empty());
    }
    if device_id_chars.len() == 0 || pubkey_chars.len() == 0 {
        return Err(DeviceError::Transport(
            "inspect_capabilities missing device_id or device_pubkey; refusing local fallback".to_string(),
        ));
    }
    let mut harnesses: Vec<String> = Vec::new();
    match evidence.get("harnesses") {
        Some(v) => match v.as_array() {
            Some(items) => {
                proof { lemma_items_model(items@); }
                let ghost m = items_model(items@);
                let mut i: usize = 0;
                while i < items.len()
                    invariant
                        i <= items@.len(),
                        m == items_model(items@),
                        m.len() == items@.len(),
                        forall|k: int| 0 <= k < items@.len() ==> #[trigger] m[k] == items@[k]@,
                        harnesses@.map_values(|s: String| s@) == string_items(m.take(i as int)),
                    decreases items@.len() - i,
                {
                    proof {
                        assert(m.take(i as int + 1).drop_last() == m.take(i as int));
                    }
                    match items[i].as_str() {
                        Some(s) => {
                            harnesses.push(s.clone());
                            proof {
                                assert(harnesses@.map_values(|s: String| s@) =~= string_items(m.take(i as int)).push(s@));
                            }
                        },
                        None => {},
                    }
                    i += 1;
                }
                proof { assert(m.take(m.len() as int) == m); }
            },
            None => {},
        },
        None => {},
    }
    let online = match evidence.get("online") {
        Some(v) => match v.as_bool() {
            Some(b) => b,
            None => false,
        },
        None => false,
    };
    let protocol_version = match evidence.get("protocol_version") {
        Some(v) => match v.as_u64() {
            Some(n) => {
                let mut digits: Vec<char> = Vec::new();
                push_decimal(n, &mut digits);
                proof { assert(digits@ =~= decimal_text(n as nat)); }
                string_from_chars(digits.as_slice())
            },
            None => match v.as_str() {
                Some(s) => s.clone(),
                None => String::new(),
            },
        },
        None => String::new(),
    };
    let setup_readiness = match text_member(evidence, "setup_readiness") {
        Some(s) => s.clone(),
        None => "unknown".to_string(),
    };
    let grant_generation = match evidence.get("grant_generation") {
        Some(v) => match v.as_u64() {
            Some(n) => n,
            None => 0,
        },
        None => 0,
    };
    Ok(DeviceCapabilities {
        source: AdapterSource::Device,
        device_id: string_from_chars(device_id_chars.as_slice()),
        device_pubkey: string_from_chars(pubkey_chars.as_slice()),
        online,
        protocol_version,
        harnesses,
        setup_readiness,
        grant_generation,
    })
}

/// An optional text member as an owned string.
fn opt_member(j: &Json, key: &str) -> (r: Option<String>)
    ensures
        opt_text(r) == as_text(field(j@, key@)),
{
    match j.get(key) {
        Some(v) => match v.as_str() {
            Some(s) => Some(s.clone()),
            None => None,
        },
        None => None,
    }
}

/// Map a signed receipt onto the desktop record. A failed or missing device
/// stays failed with a message; nothing is rewritten as a local success.
pub fn op_result_from_receipt(receipt: &DeviceReceipt) -> (r: DeviceOpResult)
    ensures
        r.source == AdapterSource::Device,
        r.status@ == receipt_status_name(receipt.status),
        opt_text(r.request_id) == Some(receipt.request_id@),
        opt_text(r.session_id) == as_text(field(receipt.evidence@, "session_id"@)),
        opt_text(r.worktree_path) == as_text(field_or(receipt.evidence@, "worktree_path"@, "path"@)),
        opt_text(r.branch) == as_text(field(receipt.evidence@, "branch"@)),
        opt_text(r.head) == as_text(field(receipt.evidence@, "head"@)),
        r.message@ == text_or(opt_text(receipt.error), receipt_status_name(receipt.status)),
{
    let evidence = &receipt.evidence;
    let path_field = match evidence.get("worktree_path") {
        Some(v) => Some(v),
        None => evidence.get("path"),
    };
    let worktree_path = match path_field {
        Some(v) => match v.as_str() {
            Some(s) => Some(s.clone()),
            None => None,
        },
        None => None,
    };
    let message = match &receipt.error {
        Some(e) => e.clone(),
        None => receipt.status.status_label(),
    };
    DeviceOpResult {
        source: AdapterSource::Device,
        status: receipt.status.status_label(),
        request_id: Some(receipt.request_id.clone()),
        session_id: opt_member(evidence, "session_id"),
        worktree_path,
        branch: opt_member(evidence, "branch"),
        head: opt_member(evidence, "head"),
        message,
    }
}

/// The desktop reads a device's capabilities answer as the device sent it:
/// the grant's device id and host key (trimmed), its generation, online and
/// ready, at protocol version `1`, with the fixture agent.
pub proof fn lemma_capabilities_round_trip(device_id: Seq<char>, device_pubkey_hex: Seq<char>, generation: u64)
    ensures
        ({
            let ev = capabilities_evidence(device_id, device_pubkey_hex, generation);
            &&& evidence_device_id(ev) == trim(device_id)
            &&& evidence_device_pubkey(ev) == trim(device_pubkey_hex)
            &&& as_unsigned(field(ev, "grant_generation"@)) == Some(generation)
            &&& as_flag(field(ev, "online"@)) == Some(true)
            &&& as_text(field(ev, "setup_readiness"@)) == Some("ready"@)
            &&& version_text(ev) == "1"@
            &&& harness_names(ev) == seq!["fixture-agent"@]
        }),
{
    reveal_strlit("device_id");
    reveal_strlit("device_pubkey_hex");
    reveal_strlit("grant_generation");
    reveal_strlit("harnesses");
    reveal_strlit("online");
    reveal_strlit("protocol_version");
    reveal_strlit("setup_readiness");
    reveal_strlit("device_pubkey");
    assert("device_id"@.len() == 9 && "device_pubkey_hex"@.len() == 17 && "grant_generation"@.len() == 16 && "harnesses"@.len() == 9 && "online"@.len() == 6 && "protocol_version"@.len() == 16 && "setup_readiness"@.len() == 15 && "device_pubkey"@.len() == 13);
    assert("device_id"@[0] != "harnesses"@[0]);
    assert("grant_generation"@[0] != "protocol_version"@[0]);
    let m = capabilities_evidence(device_id, device_pubkey_hex, generation)->Object_0;
    lemma_field_of_distinct(m);
    assert(field(JsonModel::Object(m), m[0].0) == Some(m[0].1));
    assert(field(JsonModel::Object(m), m[1].0) == Some(m[1].1));
    assert(field(JsonModel::Object(m), m[2].0) == Some(m[2].1));
    assert(field(JsonModel::Object(m), m[3].0) == Some(m[3].1));
    assert(field(JsonModel::Object(m), m[4].0) == Some(m[4].1));
    assert(field(JsonModel::Object(m), m[5].0) == Some(m[5].1));
    assert(field(JsonModel::Object(m), m[6].0) == Some(m[6].1));
    let items = seq![JsonModel::Str("fixture-agent"@)];
    assert(items.drop_last() =~= Seq::<JsonModel>::empty());
    reveal_with_fuel(string_items, 2);
    assert(string_items(items) =~= seq!["fixture-agent"@]);
    reveal_with_fuel(decimal_text, 2);
    reveal_strlit("1");
    assert(decimal_text(1) =~= "1"@);
}

/// The desktop reads a checkout receipt's evidence as the host wrote it: the
/// worktree path, branch and head the runner reported.
pub proof fn lemma_checkout_evidence_reaches_desktop(
    tank_id: Seq<char>,
    path: Seq<char>,
    branch: Seq<char>,
    head: Seq<char>,
    host: Seq<char>,
    worktree_list: Seq<char>,
)
    ensures
        ({
            let ev = checkout_evidence(tank_id, path, branch, head, host, worktree_list);
            &&& as_text(field_or(ev, "worktree_path"@, "path"@)) == Some(path)
            &&& as_text(field(ev, "branch"@)) == Some(branch)
            &&& as_text(field(ev, "head"@)) == Some(head)
        }),
{
    reveal_strlit("branch");
    reveal_strlit("head");
    reveal_strlit("host");
    reveal_strlit("path");
    reveal_strlit("tank_id");
    reveal_strlit("worktree_list");
    reveal_strlit("worktree_path");
    assert("branch"@.len() == 6 && "head"@.len() == 4 && "host"@.len() == 4 && "path"@.len() == 4 && "tank_id"@.len() == 7 && "worktree_list"@.len() == 13 && "worktree_path"@.len() == 13);
    assert("head"@[1] != "host"@[1]);
    assert("head"@[0] != "path"@[0]);
    assert("host"@[0] != "path"@[0]);
    assert("worktree_list"@[9] != "worktree_path"@[9]);
    let m = checkout_evidence(tank_id, path, branch, head, host, worktree_list)->Object_0;
    lemma_field_of_distinct(m);
    assert(field(JsonModel::Object(m), m[0].0) == Some(m[0].1));
    assert(field(JsonModel::Object(m), m[1].0) == Some(m[1].1));
    assert(field(JsonModel::Object(m), m[2].0) == Some(m[2].1));
    assert(field(JsonModel::Object(m), m[3].0) == Some(m[3].1));
    assert(field(JsonModel::Object(m), m[4].0) == Some(m[4].1));
    assert(field(JsonModel::Object(m), m[5].0) == Some(m[5].1));
    reveal_with_fuel(first_member, 7);
    assert(field(JsonModel::Object(m), "worktree_path"@) is None);
}

/// The desktop reads a started session's id as the host reported it.
pub proof fn lemma_session_evidence_reaches_desktop(session_id: Seq<char>, pid: u32, cwd: Seq<char>, cwd_proof_file: Seq<char>)
    ensures
        as_text(field(session_evidence(session_id, pid, cwd, cwd_proof_file), "session_id"@)) == Some(session_id),
{
    reveal_strlit("cwd");
    reveal_strlit("cwd_proof_file");
    reveal_strlit("pid");
    reveal_strlit("session_id");
    assert("cwd"@.len() == 3 && "cwd_proof_file"@.len() == 14 && "pid"@.len() == 3 && "session_id"@.len() == 10);
    assert("cwd"@[0] != "pid"@[0]);
    let m = session_evidence(session_id, pid, cwd, cwd_proof_file)->Object_0;
    lemma_field_of_distinct(m);
    assert(field(JsonModel::Object(m), m[0].0) == Some(m[0].1));
    assert(field(JsonModel::Object(m), m[1].0) == Some(m[1].1));
    assert(field(JsonModel::Object(m), m[2].0) == Some(m[2].1));
    assert(field(JsonModel::Object(m), m[3].0) == Some(m[3].1));
}

} // verus!
