//! Device-command protocol: request identity, grant checks, operation names
//! and relative-path grammar. Pure logic; no I/O.

use vstd::prelude::*;
use crate::canonical::{canonical, canonicalize, json_text, keys_distinct, lemma_canonical_ignores_member_order, push_json};
use crate::digest::{digest_hex, is_hex_digest, text_digest};
use crate::json::{field, lemma_field_of_distinct, lemma_members_model, members_model, Json, JsonModel};
use crate::text::{
    chars_eq, chars_of, lower, lowered, same_key, same_key_chars, same_key_exec, str_eq, trim,
    trimmed,
};

verus! {

/// Wire version for device request/receipt JSON bodies.
pub const DEVICE_PROTOCOL_VERSION: u32 = 1;
/// Reject request timestamps more than five minutes in the future.
pub const DEVICE_OPERATION_FUTURE_SKEW_MS: u64 = 5 * 60 * 1000;
/// Reject request timestamps older than 24 hours.
pub const DEVICE_MAX_NEW_OPERATION_AGE_MS: u64 = 24 * 60 * 60 * 1000;

/// Length of a request id: 13 digits, a dash, 32 lowercase hex digits.
pub const REQUEST_ID_LEN: usize = 46;

/// Device-command protocol errors.
#[derive(Debug, Clone, Copy, PartialEq, Eq, Structural)]
pub enum DeviceProtocolError {
    /// Request id is not `{13-digit-ms}-{32 lowercase hex}`.
    InvalidRequestId,
    /// Request timestamp is too far in the future.
    RequestInFuture,
    /// Request timestamp is older than [`DEVICE_MAX_NEW_OPERATION_AGE_MS`].
    RequestExpired,
    /// Grant is revoked or has expired.
    GrantInactive,
    /// Actor pubkey is not on the grant.
    UnauthorizedActor,
    /// Target device pubkey does not match the grant.
    WrongDevice,
    /// Relative path uses `..`, is absolute, or is empty.
    UnsafeRelativePath,
    /// JSON could not be canonicalized.
    InvalidParams,
}

/// Human-readable text of each protocol error.
pub open spec fn protocol_error_text(e: DeviceProtocolError) -> Seq<char> {
    match e {
        DeviceProtocolError::InvalidRequestId => "invalid device request id"@,
        DeviceProtocolError::RequestInFuture => "device request timestamp is in the future"@,
        DeviceProtocolError::RequestExpired => "device request has expired"@,
        DeviceProtocolError::GrantInactive => "device grant is not active"@,
        DeviceProtocolError::UnauthorizedActor => "actor is not authorized for this device"@,
        DeviceProtocolError::WrongDevice => "request targets the wrong device"@,
        DeviceProtocolError::UnsafeRelativePath => "path is outside the allowed root grammar"@,
        DeviceProtocolError::InvalidParams => "device parameters are not canonical JSON"@,
    }
}

impl DeviceProtocolError {
    /// The error's message, as it is shown to users.
    pub fn message(&self) -> (m: String)
        ensures
            m@ == protocol_error_text(*self),
    {
        match self {
            DeviceProtocolError::InvalidRequestId => "invalid device request id".to_string(),
            DeviceProtocolError::RequestInFuture => "device request timestamp is in the future".to_string(),
            DeviceProtocolError::RequestExpired => "device request has expired".to_string(),
            DeviceProtocolError::GrantInactive => "device grant is not active".to_string(),
            DeviceProtocolError::UnauthorizedActor => "actor is not authorized for this device".to_string(),
            DeviceProtocolError::WrongDevice => "request targets the wrong device".to_string(),
            DeviceProtocolError::UnsafeRelativePath => "path is outside the allowed root grammar".to_string(),
            DeviceProtocolError::InvalidParams => "device parameters are not canonical JSON".to_string(),
        }
    }
}

/// Typed device operations.
#[derive(Debug, Clone, Copy, PartialEq, Eq, Structural)]
pub enum DeviceOp {
    /// Read capability/readiness metadata.
    InspectCapabilities,
    /// Create a git branch/worktree under an allowed root.
    CreateCheckout,
    /// Read a prior request's durable receipt.
    InspectRequest,
    /// Start one agent process whose cwd is an existing checkout.
    StartSession,
    /// Cancel that agent process.
    CancelSession,
}

/// Wire name of each operation.
pub open spec fn op_name(op: DeviceOp) -> Seq<char> {
    match op {
        DeviceOp::InspectCapabilities => "inspect_capabilities"@,
        DeviceOp::CreateCheckout => "create_checkout"@,
        DeviceOp::InspectRequest => "inspect_request"@,
        DeviceOp::StartSession => "start_session"@,
        DeviceOp::CancelSession => "cancel_session"@,
    }
}

/// The operation whose wire name is `raw`, if any.
pub open spec fn op_from_name(raw: Seq<char>) -> Option<DeviceOp> {
    if raw == "inspect_capabilities"@ {
        Some(DeviceOp::InspectCapabilities)
    } else if raw == "create_checkout"@ {
        Some(DeviceOp::CreateCheckout)
    } else if raw == "inspect_request"@ {
        Some(DeviceOp::InspectRequest)
    } else if raw == "start_session"@ {
        Some(DeviceOp::StartSession)
    } else if raw == "cancel_session"@ {
        Some(DeviceOp::CancelSession)
    } else {
        None
    }
}

impl DeviceOp {
    /// Wire name.
    pub fn as_str(self) -> (s: &'static str)
        ensures
            s@ == op_name(self),
    {
        match self {
            DeviceOp::InspectCapabilities => "inspect_capabilities",
            DeviceOp::CreateCheckout => "create_checkout",
            DeviceOp::InspectRequest => "inspect_request",
            DeviceOp::StartSession => "start_session",
            DeviceOp::CancelSession => "cancel_session",
        }
    }

    /// Parse a wire name. Unknown names are errors, not local fallbacks.
    pub fn parse(value: &str) -> (r: Option<DeviceOp>)
        ensures
            r == op_from_name(value@),
    {
        if str_eq(value, "inspect_capabilities") {
            Some(DeviceOp::InspectCapabilities)
        } else if str_eq(value, "create_checkout") {
            Some(DeviceOp::CreateCheckout)
        } else if str_eq(value, "inspect_request") {
            Some(DeviceOp::InspectRequest)
        } else if str_eq(value, "start_session") {
            Some(DeviceOp::StartSession)
        } else if str_eq(value, "cancel_session") {
            Some(DeviceOp::CancelSession)
        } else {
            None
        }
    }
}

/// Every operation's wire name parses back to that operation.
pub proof fn lemma_op_name_round_trip(op: DeviceOp)
    ensures
        op_from_name(op_name(op)) == Some(op),
{
    reveal_strlit("inspect_capabilities");
    reveal_strlit("create_checkout");
    reveal_strlit("inspect_request");
    reveal_strlit("start_session");
    reveal_strlit("cancel_session");
    assert("create_checkout"@[0] != "inspect_capabilities"@[0]);
    assert("inspect_request"@[8] != "inspect_capabilities"@[8]);
    assert("inspect_request"@[0] != "create_checkout"@[0]);
    assert("start_session"@[0] != "inspect_capabilities"@[0]);
    assert("start_session"@[0] != "create_checkout"@[0]);
    assert("start_session"@[0] != "inspect_request"@[0]);
    assert("cancel_session"@[0] != "inspect_capabilities"@[0]);
    assert("cancel_session"@[1] != "create_checkout"@[1]);
    assert("cancel_session"@[0] != "inspect_request"@[0]);
    assert("cancel_session"@[0] != "start_session"@[0]);
}

/// Owner grant that authorizes actors to command one execution host.
#[derive(Debug, Clone, PartialEq, Eq)]
pub struct DeviceGrant {
    /// Stable device id (not a pubkey, not a tank id).
    pub device_id: String,
    /// Execution-host service pubkey, lowercase hex.
    pub device_pubkey_hex: String,
    /// Owner who issued the grant, lowercase hex.
    pub owner_pubkey_hex: String,
    /// Actor pubkeys allowed to issue commands, lowercase hex.
    pub actor_pubkeys: Vec<String>,
    /// Absolute allowed project roots (strings only; canonicalize at the host).
    pub allowed_roots: Vec<String>,
    /// Generation; replace to revoke.
    pub generation: u64,
    /// Optional grant expiry (unix ms).
    pub expires_at_ms: Option<u64>,
    /// Explicit revocation flag.
    pub revoked: bool,
}

/// The grant is neither revoked nor past its expiry at `now_ms`.
pub open spec fn grant_active(g: DeviceGrant, now_ms: u64) -> bool {
    !g.revoked && (g.expires_at_ms matches Some(e) ==> now_ms <= e)
}

/// `actor` is the grant's owner or one of its listed actors.
pub open spec fn actor_allowed(g: DeviceGrant, actor: Seq<char>) -> bool {
    let a = lower(trim(actor));
    a == lower(trim(g.owner_pubkey_hex@))
        || exists|i: int| 0 <= i < g.actor_pubkeys.len() && same_key(#[trigger] g.actor_pubkeys[i]@, a)
}

/// The verdict of [`DeviceGrant::authorize`].
pub open spec fn authorize_verdict(g: DeviceGrant, actor: Seq<char>, device: Seq<char>, now_ms: u64) -> Result<(), DeviceProtocolError> {
    if !grant_active(g, now_ms) {
        Err(DeviceProtocolError::GrantInactive)
    } else if !same_key(g.device_pubkey_hex@, device) {
        Err(DeviceProtocolError::WrongDevice)
    } else if actor_allowed(g, actor) {
        Ok(())
    } else {
        Err(DeviceProtocolError::UnauthorizedActor)
    }
}

impl DeviceGrant {
    /// Authorize `actor` to command `device_pubkey` at `now_ms`.
    pub fn authorize(&self, actor_pubkey_hex: &str, device_pubkey_hex: &str, now_ms: u64) -> (r: Result<(), DeviceProtocolError>)
        ensures
            r == authorize_verdict(*self, actor_pubkey_hex@, device_pubkey_hex@, now_ms),
    {
        if self.revoked {
            return Err(DeviceProtocolError::GrantInactive);
        }
        if let Some(expires) = self.expires_at_ms {
            if now_ms > expires {
                return Err(DeviceProtocolError::GrantInactive);
            }
        }
        if !same_key_exec(self.device_pubkey_hex.as_str(), device_pubkey_hex) {
            return Err(DeviceProtocolError::WrongDevice);
        }
        let actor = lowered(&trimmed(actor_pubkey_hex));
        let owner = lowered(&trimmed(self.owner_pubkey_hex.as_str()));
        if chars_eq(&actor, &owner) {
            return Ok(());
        }
        let mut i: usize = 0;
        while i < self.actor_pubkeys.len()
            invariant
                i <= self.actor_pubkeys@.len(),
                actor@ == lower(trim(actor_pubkey_hex@)),
                grant_active(*self, now_ms),
                same_key(self.device_pubkey_hex@, device_pubkey_hex@),
                actor@ != lower(trim(self.owner_pubkey_hex@)),
                forall|m: int| 0 <= m < i ==> !same_key(#[trigger] self.actor_pubkeys@[m]@, actor@),
            decreases self.actor_pubkeys@.len() - i,
        {
            let candidate = chars_of(self.actor_pubkeys[i].as_str());
            if same_key_chars(&candidate, &actor) {
                proof {
                    assert(same_key(self.actor_pubkeys[i as int]@, lower(trim(actor_pubkey_hex@))));
                }
                return Ok(());
            }
            i += 1;
        }
        Err(DeviceProtocolError::UnauthorizedActor)
    }
}

/// ASCII decimal digit.
pub open spec fn is_digit(c: char) -> bool {
    '0' <= c && c <= '9'
}

/// Lowercase hexadecimal digit.
pub open spec fn is_lower_hex(c: char) -> bool {
    is_digit(c) || ('a' <= c && c <= 'f')
}

/// `s` is a request id: 13 decimal digits, `-`, 32 lowercase hex digits.
pub open spec fn is_request_id(s: Seq<char>) -> bool {
    &&& s.len() == 46
    &&& forall|i: int| 0 <= i < 13 ==> is_digit(#[trigger] s[i])
    &&& s[13] == '-'
    &&& forall|i: int| 14 <= i < 46 ==> is_lower_hex(#[trigger] s[i])
}

/// The number written by the decimal digits `s`.
pub open spec fn decimal_value(s: Seq<char>) -> nat
    decreases s.len(),
{
    if s.len() == 0 {
        0
    } else {
        decimal_value(s.drop_last()) * 10 + ((s.last() as u32) - ('0' as u32)) as nat
    }
}

/// `10` to the power `n`.
pub open spec fn pow10(n: nat) -> nat
    decreases n,
{
    if n == 0 {
        1
    } else {
        10 * pow10((n - 1) as nat)
    }
}

proof fn lemma_pow10_mono(a: nat, b: nat)
    requires
        a <= b,
    ensures
        pow10(a) <= pow10(b),
    decreases b,
{
    if a < b {
        lemma_pow10_mono(a, (b - 1) as nat);
    }
}

proof fn lemma_pow10_13()
    ensures
        pow10(13) == 10000000000000,
{
    reveal_with_fuel(pow10, 14);
}

/// The millisecond timestamp embedded in a request id.
pub open spec fn request_timestamp(s: Seq<char>) -> nat {
    decimal_value(s.take(13))
}

/// Parse `{millis}-{32 hex}` and return the embedded timestamp.
pub fn parse_request_timestamp(request_id: &str) -> (r: Result<u64, DeviceProtocolError>)
    ensures
        is_request_id(request_id@) ==> r == Ok::<u64, DeviceProtocolError>(request_timestamp(request_id@) as u64)
            && request_timestamp(request_id@) < pow10(13),
        !is_request_id(request_id@) ==> r == Err::<u64, DeviceProtocolError>(DeviceProtocolError::InvalidRequestId),
{
    let s = chars_of(request_id);
    if s.len() != REQUEST_ID_LEN {
        return Err(DeviceProtocolError::InvalidRequestId);
    }
    let mut i: usize = 0;
    while i < 46
        invariant
            i <= 46,
            s@.len() == 46,
            s@ == request_id@,
            forall|m: int| 0 <= m < i && m < 13 ==> is_digit(#[trigger] s@[m]),
            i > 13 ==> s@[13] == '-',
            forall|m: int| 14 <= m < i ==> is_lower_hex(#[trigger] s@[m]),
        decreases 46 - i,
    {
        let c = s[i];
        if i < 13 {
            if !('0' <= c && c <= '9') {
                return Err(DeviceProtocolError::InvalidRequestId);
            }
        } else if i == 13 {
            if c != '-' {
                return Err(DeviceProtocolError::InvalidRequestId);
            }
        } else if !(('0' <= c && c <= '9') || ('a' <= c && c <= 'f')) {
            return Err(DeviceProtocolError::InvalidRequestId);
        }
        i += 1;
    }
    let mut acc: u64 = 0;
    let mut j: usize = 0;
    while j < 13
        invariant
            j <= 13,
            s@.len() == 46,
            forall|m: int| 0 <= m < 13 ==> is_digit(#[trigger] s@[m]),
            acc as nat == decimal_value(s@.take(j as int)),
            (acc as nat) < pow10(j as nat),
        decreases 13 - j,
    {
        let d = (s[j] as u32) - ('0' as u32);
        proof {
            assert(s@.take(j as int + 1).drop_last() == s@.take(j as int));
            lemma_pow10_mono((j + 1) as nat, 13);
            lemma_pow10_13();
        }
        acc = acc * 10 + d as u64;
        j += 1;
    }
    Ok(acc)
}

/// `a + b`, capped at `u64::MAX`.
pub open spec fn saturating_sum(a: u64, b: u64) -> int {
    if a + b > u64::MAX { u64::MAX as int } else { a + b }
}

/// `a - b`, floored at zero.
pub open spec fn saturating_diff(a: int, b: int) -> int {
    if a < b { 0 } else { a - b }
}

/// The verdict of [`check_request_freshness`].
pub open spec fn freshness_verdict(id: Seq<char>, now_ms: u64) -> Result<(), DeviceProtocolError> {
    if !is_request_id(id) {
        Err(DeviceProtocolError::InvalidRequestId)
    } else if request_timestamp(id) > saturating_sum(now_ms, DEVICE_OPERATION_FUTURE_SKEW_MS) {
        Err(DeviceProtocolError::RequestInFuture)
    } else if saturating_diff(now_ms as int, request_timestamp(id) as int) > DEVICE_MAX_NEW_OPERATION_AGE_MS {
        Err(DeviceProtocolError::RequestExpired)
    } else {
        Ok(())
    }
}

/// Reject expired or future-dated request ids.
pub fn check_request_freshness(request_id: &str, now_ms: u64) -> (r: Result<(), DeviceProtocolError>)
    ensures
        r == freshness_verdict(request_id@, now_ms),
{
    let created = match parse_request_timestamp(request_id) {
        Ok(ts) => ts,
        Err(e) => {
            return Err(e);
        },
    };
    proof {
        lemma_pow10_13();
    }
    if created > now_ms.saturating_add(DEVICE_OPERATION_FUTURE_SKEW_MS) {
        return Err(DeviceProtocolError::RequestInFuture);
    }
    if now_ms.saturating_sub(created) > DEVICE_MAX_NEW_OPERATION_AGE_MS {
        return Err(DeviceProtocolError::RequestExpired);
    }
    Ok(())
}

/// The canonical text that a parameter fingerprint digests: the object
/// `{device_id, grant_generation, op, params}` with `params` in canonical form.
pub open spec fn parameter_text(op: DeviceOp, device_id: Seq<char>, grant_generation: u64, params: JsonModel) -> Seq<char> {
    json_text(
        JsonModel::Object(
            seq![
                ("device_id"@, JsonModel::Str(device_id)),
                ("grant_generation"@, JsonModel::Unsigned(grant_generation)),
                ("op"@, JsonModel::Str(op_name(op))),
                ("params"@, canonical(params)),
            ],
        ),
    )
}

/// SHA-256 hex fingerprint of canonical `{op, device_id, grant_generation, params}`.
pub fn parameter_fingerprint(op: DeviceOp, device_id: &str, grant_generation: u64, params: &Json) -> (r: Result<String, DeviceProtocolError>)
    ensures
        r is Ok,
        r matches Ok(f) ==> f@ == digest_hex(parameter_text(op, device_id@, grant_generation, params@)) && is_hex_digest(f@),
{
    let canonical_params = canonicalize(params);
    let mut body: Vec<(String, Json)> = Vec::new();
    body.push(("device_id".to_string(), Json::Str(device_id.to_string())));
    body.push(("grant_generation".to_string(), Json::Number(crate::json::JsonNumber::Unsigned(grant_generation))));
    body.push(("op".to_string(), Json::Str(op.as_str().to_string())));
    body.push(("params".to_string(), canonical_params));
    proof {
        lemma_members_model(body@);
        assert(members_model(body@) =~= seq![
            ("device_id"@, JsonModel::Str(device_id@)),
            ("grant_generation"@, JsonModel::Unsigned(grant_generation)),
            ("op"@, JsonModel::Str(op_name(op))),
            ("params"@, canonical(params@)),
        ]);
    }
    let object = Json::Object(body);
    let mut text: Vec<char> = Vec::new();
    push_json(&object, &mut text);
    Ok(text_digest(&text))
}

/// Position `i` of `t` starts a `..` component.
pub open spec fn parent_component_at(t: Seq<char>, i: int) -> bool {
    &&& 0 <= i && i + 2 <= t.len()
    &&& t[i] == '.' && t[i + 1] == '.'
    &&& (i == 0 || t[i - 1] == '/')
    &&& (i + 2 == t.len() || t[i + 2] == '/')
}

/// The host-relative path grammar: after trimming, non-empty, not absolute,
/// free of NUL characters and free of `..` components.
pub open spec fn relative_path_safe(rel: Seq<char>) -> bool {
    let t = trim(rel);
    &&& t.len() > 0
    &&& t[0] != '/'
    &&& forall|i: int| 0 <= i < t.len() ==> #[trigger] t[i] != '\0'
    &&& forall|i: int| !#[trigger] parent_component_at(t, i)
}

/// Reject absolute paths and `..` components in a host-relative worktree path.
pub fn relative_path_is_safe(rel: &str) -> (r: Result<(), DeviceProtocolError>)
    ensures
        relative_path_safe(rel@) ==> r == Ok::<(), DeviceProtocolError>(()),
        !relative_path_safe(rel@) ==> r == Err::<(), DeviceProtocolError>(DeviceProtocolError::UnsafeRelativePath),
{
    let t = trimmed(rel);
    let n = t.len();
    if n == 0 {
        return Err(DeviceProtocolError::UnsafeRelativePath);
    }
    if t[0] == '/' {
        return Err(DeviceProtocolError::UnsafeRelativePath);
    }
    let mut i: usize = 0;
    while i < n
        invariant
            i <= n,
            n == t@.len(),
            t@ == trim(rel@),
            forall|m: int| 0 <= m < i ==> #[trigger] t@[m] != '\0',
            forall|m: int| 0 <= m < i ==> !#[trigger] parent_component_at(t@, m),
        decreases n - i,
    {
        if t[i] == '\0' {
            proof {
                assert(t@[i as int] == '\0');
            }
            return Err(DeviceProtocolError::UnsafeRelativePath);
        }
        if n - i >= 2 && t[i] == '.' && t[i + 1] == '.' && (i == 0 || t[i - 1] == '/') && (n - i == 2 || t[i + 2] == '/') {
            proof {
                assert(parent_component_at(t@, i as int));
            }
            return Err(DeviceProtocolError::UnsafeRelativePath);
        }
        i += 1;
    }
    proof {
        assert forall|m: int| !#[trigger] parent_component_at(t@, m) by {
            if 0 <= m < n {
            }
        }
    }
    Ok(())
}


/// Parameter key order does not change a fingerprint: params objects with
/// distinct keys and the same members, in any order, fingerprint alike.
pub proof fn lemma_fingerprint_ignores_key_order(
    op: DeviceOp,
    device_id: Seq<char>,
    grant_generation: u64,
    m1: Seq<(Seq<char>, JsonModel)>,
    m2: Seq<(Seq<char>, JsonModel)>,
)
    requires
        keys_distinct(m1),
        keys_distinct(m2),
        m1.to_multiset() == m2.to_multiset(),
    ensures
        digest_hex(parameter_text(op, device_id, grant_generation, JsonModel::Object(m1)))
            == digest_hex(parameter_text(op, device_id, grant_generation, JsonModel::Object(m2))),
{
    lemma_canonical_ignores_member_order(m1, m2);
}


/// A well-formed request id is fresh exactly when its timestamp is at most
/// five minutes ahead of `now_ms` and at most 24 hours behind it.
pub proof fn lemma_freshness_window(id: Seq<char>, now_ms: u64)
    requires
        is_request_id(id),
    ensures
        freshness_verdict(id, now_ms) is Ok <==> (
            request_timestamp(id) <= now_ms + DEVICE_OPERATION_FUTURE_SKEW_MS
            && now_ms <= request_timestamp(id) + DEVICE_MAX_NEW_OPERATION_AGE_MS),
{
    lemma_digits_below(id.take(13));
    lemma_pow10_13();
}

proof fn lemma_digits_below(s: Seq<char>)
    requires
        forall|i: int| 0 <= i < s.len() ==> is_digit(#[trigger] s[i]),
    ensures
        decimal_value(s) < pow10(s.len()),
    decreases s.len(),
{
    if s.len() > 0 {
        let d = s.drop_last();
        assert forall|i: int| 0 <= i < d.len() implies is_digit(#[trigger] d[i]) by {
            assert(d[i] == s[i]);
        }
        lemma_digits_below(d);
        assert(is_digit(s[s.len() - 1]));
        assert(((s.last() as u32) - ('0' as u32)) <= 9);
        assert(pow10(s.len()) == 10 * pow10(d.len()));
        assert(decimal_value(s) == decimal_value(d) * 10 + ((s.last() as u32) - ('0' as u32)) as nat);
        assert(decimal_value(d) * 10 + 9 < 10 * pow10(d.len())) by (nonlinear_arith)
            requires decimal_value(d) < pow10(d.len());
    }
}

/// A parameter fingerprint digests the canonical text of a four-member
/// object that carries the device id, the grant generation, the operation's
/// name and the canonical params, each under its own name.
pub proof fn lemma_parameter_text_fields(op: DeviceOp, device_id: Seq<char>, grant_generation: u64, params: JsonModel)
    ensures
        exists|o: JsonModel| #![trigger json_text(o)] {
            &&& parameter_text(op, device_id, grant_generation, params) == json_text(o)
            &&& o matches JsonModel::Object(m) && m.len() == 4
            &&& field(o, "device_id"@) == Some(JsonModel::Str(device_id))
            &&& field(o, "grant_generation"@) == Some(JsonModel::Unsigned(grant_generation))
            &&& field(o, "op"@) == Some(JsonModel::Str(op_name(op)))
            &&& field(o, "params"@) == Some(canonical(params))
        },
{
    reveal_strlit("device_id");
    reveal_strlit("grant_generation");
    reveal_strlit("op");
    reveal_strlit("params");
    assert("device_id"@.len() == 9 && "grant_generation"@.len() == 16 && "op"@.len() == 2 && "params"@.len() == 6);
    let o = JsonModel::Object(seq![
        ("device_id"@, JsonModel::Str(device_id)),
        ("grant_generation"@, JsonModel::Unsigned(grant_generation)),
        ("op"@, JsonModel::Str(op_name(op))),
        ("params"@, canonical(params)),
    ]);
    let m = o->Object_0;
    lemma_field_of_distinct(m);
    assert(field(JsonModel::Object(m), m[0].0) == Some(m[0].1));
    assert(field(JsonModel::Object(m), m[1].0) == Some(m[1].1));
    assert(field(JsonModel::Object(m), m[2].0) == Some(m[2].1));
    assert(field(JsonModel::Object(m), m[3].0) == Some(m[3].1));
    assert(parameter_text(op, device_id, grant_generation, params) == json_text(o));
}

} // verus!
