//! The controller's side: the request each command line operation sends,
//! the refusal to run without a selected host, and how a receipt ends the
//! command. The controller never runs git or agents itself.

use vstd::prelude::*;
use crate::device::{op_from_name, DeviceOp, DEVICE_PROTOCOL_VERSION};
use crate::json::{
    as_unsigned, field, lemma_field_of_distinct, lemma_members_model, members_model, text_field, Json, JsonModel, JsonNumber,
};
use crate::host::DeviceError;
use crate::text::{string_from_chars, trim, trimmed};
use crate::wire::{generate_request_id, receipt_status_name, request_id_text, DeviceReceipt, DeviceRequest, ReceiptStatus};

verus! {

/// A controller operation as given on the command line.
#[derive(Debug)]
pub enum CtlOp {
    /// Read capability metadata.
    InspectCapabilities,
    /// Create a checkout on the host.
    CreateCheckout {
        /// Tank identity.
        tank_id: String,
        /// New branch.
        branch: String,
        /// Worktree path relative to the allowed root.
        relpath: String,
        /// Repository path relative to the allowed root.
        repo_relpath: String,
        /// Start revision.
        start_rev: String,
    },
    /// Read a prior request's receipt.
    InspectRequest {
        /// The request id to inspect.
        target_request_id: String,
    },
    /// Start an agent in a checkout.
    StartSession {
        /// Existing checkout path.
        checkout_path: String,
        /// Optional caller-chosen session id.
        session_id: Option<String>,
    },
    /// Cancel an agent process.
    CancelSession {
        /// Process id.
        pid: u32,
    },
}

/// The operation name and params an operation sends (params members in
/// key order; an absent session id is `null`).
pub open spec fn ctl_body(op: CtlOp) -> (Seq<char>, JsonModel) {
    match op {
        CtlOp::InspectCapabilities => ("inspect_capabilities"@, JsonModel::Object(Seq::empty())),
        CtlOp::CreateCheckout { tank_id, branch, relpath, repo_relpath, start_rev } => (
            "create_checkout"@,
            JsonModel::Object(seq![
                ("branch"@, JsonModel::Str(branch@)),
                ("relpath"@, JsonModel::Str(relpath@)),
                ("repo_relpath"@, JsonModel::Str(repo_relpath@)),
                ("start_rev"@, JsonModel::Str(start_rev@)),
                ("tank_id"@, JsonModel::Str(tank_id@)),
            ]),
        ),
        CtlOp::InspectRequest { target_request_id } => (
            "inspect_request"@,
            JsonModel::Object(seq![("request_id"@, JsonModel::Str(target_request_id@))]),
        ),
        CtlOp::StartSession { checkout_path, session_id } => (
            "start_session"@,
            JsonModel::Object(seq![
                ("checkout_path"@, JsonModel::Str(checkout_path@)),
                ("session_id"@, match session_id { Some(s) => JsonModel::Str(s@), None => JsonModel::Null }),
            ]),
        ),
        CtlOp::CancelSession { pid } => (
            "cancel_session"@,
            JsonModel::Object(seq![("pid"@, JsonModel::Unsigned(pid as u64))]),
        ),
    }
}

fn text(s: &String) -> (j: Json)
    ensures
        j@ == JsonModel::Str(s@),
{
    Json::Str(s.clone())
}

/// The operation name and params of `op`.
pub fn ctl_params(op: &CtlOp) -> (r: (String, Json))
    ensures
        (r.0@, r.1@) == ctl_body(*op),
{
    let mut m: Vec<(String, Json)> = Vec::new();
    let name = match op {
        CtlOp::InspectCapabilities => "inspect_capabilities",
        CtlOp::CreateCheckout { tank_id, branch, relpath, repo_relpath, start_rev } => {
            m.push(("branch".to_string(), text(branch)));
            m.push(("relpath".to_string(), text(relpath)));
            m.push(("repo_relpath".to_string(), text(repo_relpath)));
            m.push(("start_rev".to_string(), text(start_rev)));
            m.push(("tank_id".to_string(), text(tank_id)));
            "create_checkout"
        },
        CtlOp::InspectRequest { target_request_id } => {
            m.push(("request_id".to_string(), text(target_request_id)));
            "inspect_request"
        },
        CtlOp::StartSession { checkout_path, session_id } => {
            m.push(("checkout_path".to_string(), text(checkout_path)));
            let sid = match session_id {
                Some(s) => text(s),
                None => Json::Null,
            };
            m.push(("session_id".to_string(), sid));
            "start_session"
        },
        CtlOp::CancelSession { pid } => {
            m.push(("pid".to_string(), Json::Number(JsonNumber::Unsigned(*pid as u64))));
            "cancel_session"
        },
    };
    proof {
        lemma_members_model(m@);
        reveal_strlit("inspect_capabilities");
        reveal_strlit("create_checkout");
        reveal_strlit("inspect_request");
        reveal_strlit("start_session");
        reveal_strlit("cancel_session");
        assert(members_model(m@) =~= ctl_body(*op).1->Object_0);
    }
    (name.to_string(), Json::Object(m))
}

/// The request a controller sends: the operation's name and params, the
/// caller's request id or a freshly minted one, and the current protocol
/// version. It fails only where an id must be minted and the random source
/// fails.
pub fn ctl_request(device_id: &str, grant_generation: u64, request_id: Option<String>, op: &CtlOp) -> (r: Result<DeviceRequest, DeviceError>)
    ensures
        request_id is Some ==> r is Ok,
        r is Err ==> (r matches Err(DeviceError::Transport(m)) && m@ == "random source unavailable"@),
        r matches Ok(q) ==> {
            &&& q.v == DEVICE_PROTOCOL_VERSION
            &&& q.device_id@ == device_id@
            &&& q.grant_generation == grant_generation
            &&& (q.op@, q.params@) == ctl_body(*op)
            &&& match request_id {
                Some(id) => q.request_id@ == id@,
                None => exists|now_ms: u64, random: Seq<u8>| random.len() == 16 && q.request_id@ == request_id_text(now_ms, random),
            }
        },
{
    let (name, params) = ctl_params(op);
    let id = match request_id {
        Some(id) => id,
        None => {
            match generate_request_id() {
                Ok(id) => id,
                Err(e) => {
                    return Err(e);
                },
            }
        },
    };
    Ok(DeviceRequest {
        v: DEVICE_PROTOCOL_VERSION,
        request_id: id,
        op: name,
        grant_generation,
        device_id: device_id.to_string(),
        params,
    })
}

/// The selected host key, trimmed; the controller refuses to run without
/// one rather than fall back to local execution.
pub fn require_device_pubkey(device_pubkey: &str) -> (r: Result<String, String>)
    ensures
        trim(device_pubkey@).len() == 0 <==> r is Err,
        r matches Ok(k) ==> k@ == trim(device_pubkey@),
        r matches Err(e) ==> e@ == "device_pubkey is required; refusing to run locally"@,
{
    let k = trimmed(device_pubkey);
    if k.len() == 0 {
        return Err("device_pubkey is required; refusing to run locally".to_string());
    }
    Ok(string_from_chars(k.as_slice()))
}

/// How a matching receipt ends the command: success only for a
/// `succeeded` receipt; otherwise its error, or its status name.
pub open spec fn receipt_verdict(status: ReceiptStatus, error: Option<Seq<char>>) -> Result<(), Seq<char>> {
    if status == ReceiptStatus::Succeeded {
        Ok(())
    } else {
        match error {
            Some(e) => Err(e),
            None => Err(receipt_status_name(status)),
        }
    }
}

/// The command's result for the receipt of its request.
pub fn finish_with_receipt(receipt: &DeviceReceipt) -> (r: Result<(), String>)
    ensures
        match r {
            Ok(()) => receipt_verdict(receipt.status, receipt@.error) is Ok,
            Err(e) => receipt_verdict(receipt.status, receipt@.error) == Err::<(), Seq<char>>(e@),
        },
{
    if receipt.status == ReceiptStatus::Succeeded {
        return Ok(());
    }
    match &receipt.error {
        Some(e) => Err(e.clone()),
        None => Err(receipt.status.status_label()),
    }
}

/// What a command sends is what the host reads: the operation name parses
/// to the command's operation, and every command-line field travels under
/// its own parameter key.
pub proof fn lemma_ctl_body_carries_fields(op: CtlOp)
    ensures
        op is InspectCapabilities ==> op_from_name(ctl_body(op).0) == Some(DeviceOp::InspectCapabilities),
        op matches CtlOp::CreateCheckout { tank_id, branch, relpath, repo_relpath, start_rev } ==> {
            let p = ctl_body(op).1;
            &&& op_from_name(ctl_body(op).0) == Some(DeviceOp::CreateCheckout)
            &&& text_field(p, "tank_id"@) == Some(tank_id@)
            &&& text_field(p, "branch"@) == Some(branch@)
            &&& text_field(p, "relpath"@) == Some(relpath@)
            &&& text_field(p, "repo_relpath"@) == Some(repo_relpath@)
            &&& text_field(p, "start_rev"@) == Some(start_rev@)
        },
        op matches CtlOp::InspectRequest { target_request_id } ==> {
            &&& op_from_name(ctl_body(op).0) == Some(DeviceOp::InspectRequest)
            &&& text_field(ctl_body(op).1, "request_id"@) == Some(target_request_id@)
        },
        op matches CtlOp::StartSession { checkout_path, session_id } ==> {
            let p = ctl_body(op).1;
            &&& op_from_name(ctl_body(op).0) == Some(DeviceOp::StartSession)
            &&& text_field(p, "checkout_path"@) == Some(checkout_path@)
            &&& (session_id matches Some(sid) ==> text_field(p, "session_id"@) == Some(sid@))
            &&& (session_id is None ==> field(p, "session_id"@) == Some(JsonModel::Null))
        },
        op matches CtlOp::CancelSession { pid } ==> {
            &&& op_from_name(ctl_body(op).0) == Some(DeviceOp::CancelSession)
            &&& as_unsigned(field(ctl_body(op).1, "pid"@)) == Some(pid as u64)
        },
{
    reveal_strlit("inspect_capabilities");
    reveal_strlit("create_checkout");
    reveal_strlit("inspect_request");
    reveal_strlit("start_session");
    reveal_strlit("cancel_session");
    reveal_strlit("request_id");
    reveal_strlit("checkout_path");
    reveal_strlit("session_id");
    reveal_strlit("pid");
    assert("inspect_capabilities"@.len() == 20 && "create_checkout"@.len() == 15 && "inspect_request"@.len() == 15 && "start_session"@.len() == 13 && "cancel_session"@.len() == 14 && "request_id"@.len() == 10 && "checkout_path"@.len() == 13 && "session_id"@.len() == 10 && "pid"@.len() == 3);
    assert("create_checkout"@[0] != "inspect_request"@[0]);
    assert("start_session"@[0] != "checkout_path"@[0]);
    assert("request_id"@[0] != "session_id"@[0]);
    match op {
        CtlOp::CreateCheckout { .. } => {
            reveal_strlit("branch");
            reveal_strlit("relpath");
            reveal_strlit("repo_relpath");
            reveal_strlit("start_rev");
            reveal_strlit("tank_id");
            assert("branch"@.len() == 6 && "relpath"@.len() == 7 && "repo_relpath"@.len() == 12 && "start_rev"@.len() == 9 && "tank_id"@.len() == 7);
            assert("relpath"@[0] != "tank_id"@[0]);
            let m = ctl_body(op).1->Object_0;
            lemma_field_of_distinct(m);
            assert(field(JsonModel::Object(m), m[0].0) == Some(m[0].1));
            assert(field(JsonModel::Object(m), m[1].0) == Some(m[1].1));
            assert(field(JsonModel::Object(m), m[2].0) == Some(m[2].1));
            assert(field(JsonModel::Object(m), m[3].0) == Some(m[3].1));
            assert(field(JsonModel::Object(m), m[4].0) == Some(m[4].1));
        },
        CtlOp::StartSession { .. } => {
            let m = ctl_body(op).1->Object_0;
            lemma_field_of_distinct(m);
            assert(field(JsonModel::Object(m), m[0].0) == Some(m[0].1));
            assert(field(JsonModel::Object(m), m[1].0) == Some(m[1].1));
        },
        CtlOp::InspectRequest { .. } => {
            let m = ctl_body(op).1->Object_0;
            assert(field(JsonModel::Object(m), m[0].0) == Some(m[0].1));
        },
        CtlOp::CancelSession { .. } => {
            let m = ctl_body(op).1->Object_0;
            assert(field(JsonModel::Object(m), m[0].0) == Some(m[0].1));
        },
        CtlOp::InspectCapabilities => {},
    }
}

} // verus!
