//! Device request and receipt bodies, receipt statuses and request ids.

use vstd::prelude::*;
use vstd::string::StringExecFns;
use crate::canonical::{decimal_text, digit_char, hex_char, push_decimal};
use crate::device::{
    decimal_value, DEVICE_PROTOCOL_VERSION, is_digit, is_lower_hex, is_request_id, op_from_name, parameter_fingerprint, parameter_text, pow10, request_timestamp, DeviceOp,
};
use crate::digest::{digest_hex, hex_encode, hex_text, is_hex_digest, lemma_hex_text};
use crate::assignment::{tag_text, tag_texts};
use crate::host::DeviceError;
use crate::json::{
    as_unsigned, field, items_model, lemma_field_of_distinct, lemma_items_model, lemma_members_model, members_model, text_field,
    Json, JsonModel, JsonNumber,
};
use crate::text::{chars_eq_ignore_case, chars_of, eq_ignore_case, str_eq, string_from_chars};

verus! {

/// Controller to device request body (plaintext before encryption).
#[derive(Debug)]
pub struct DeviceRequest {
    /// Protocol version.
    pub v: u32,
    /// Request id.
    pub request_id: String,
    /// Operation name.
    pub op: String,
    /// Grant generation the actor believes is current.
    pub grant_generation: u64,
    /// Device id.
    pub device_id: String,
    /// Operation params.
    pub params: Json,
}

/// Receipt status matching the journal.
#[derive(Debug, Clone, Copy, PartialEq, Eq, Structural)]
pub enum ReceiptStatus {
    /// Success.
    Succeeded,
    /// Failed after or instead of mutation.
    Failed,
    /// Rejected before mutation.
    Rejected,
    /// Same id, different params.
    Conflict,
    /// Crash/reconcile could not prove a safe retry.
    Uncertain,
}

/// Lowercase name of each status.
pub open spec fn receipt_status_name(s: ReceiptStatus) -> Seq<char> {
    match s {
        ReceiptStatus::Succeeded => "succeeded"@,
        ReceiptStatus::Failed => "failed"@,
        ReceiptStatus::Rejected => "rejected"@,
        ReceiptStatus::Conflict => "conflict"@,
        ReceiptStatus::Uncertain => "uncertain"@,
    }
}

impl ReceiptStatus {
    /// Lowercase status name for CLI errors.
    pub fn status_label(self) -> (s: String)
        ensures
            s@ == receipt_status_name(self),
    {
        match self {
            ReceiptStatus::Succeeded => "succeeded".to_string(),
            ReceiptStatus::Failed => "failed".to_string(),
            ReceiptStatus::Rejected => "rejected".to_string(),
            ReceiptStatus::Conflict => "conflict".to_string(),
            ReceiptStatus::Uncertain => "uncertain".to_string(),
        }
    }
}

/// Device to controller receipt body.
#[derive(Debug)]
pub struct DeviceReceipt {
    /// Protocol version.
    pub v: u32,
    /// Request id.
    pub request_id: String,
    /// Fingerprint of executed (or rejected) params.
    pub fingerprint: String,
    /// Outcome status.
    pub status: ReceiptStatus,
    /// Host-specific evidence.
    pub evidence: Json,
    /// Error text.
    pub error: Option<String>,
}

/// The mathematical value of a receipt.
pub struct ReceiptModel {
    /// Protocol version.
    pub v: u32,
    /// Request id.
    pub request_id: Seq<char>,
    /// Fingerprint.
    pub fingerprint: Seq<char>,
    /// Outcome status.
    pub status: ReceiptStatus,
    /// Evidence.
    pub evidence: JsonModel,
    /// Error text.
    pub error: Option<Seq<char>>,
}

/// The text of an optional string.
pub open spec fn opt_text(s: Option<String>) -> Option<Seq<char>> {
    match s {
        Some(t) => Some(t@),
        None => None,
    }
}

impl View for DeviceReceipt {
    type V = ReceiptModel;

    open spec fn view(&self) -> ReceiptModel {
        ReceiptModel {
            v: self.v,
            request_id: self.request_id@,
            fingerprint: self.fingerprint@,
            status: self.status,
            evidence: self.evidence@,
            error: opt_text(self.error),
        }
    }
}

/// A copy of an optional string.
pub fn copy_opt(s: &Option<String>) -> (r: Option<String>)
    ensures
        opt_text(r) == opt_text(*s),
{
    match s {
        Some(t) => Some(t.clone()),
        None => None,
    }
}

/// The JSON object that a receipt serializes to (members in key order).
pub open spec fn receipt_json(r: ReceiptModel) -> JsonModel {
    JsonModel::Object(
        seq![
            ("error"@, match r.error { Some(e) => JsonModel::Str(e), None => JsonModel::Null }),
            ("evidence"@, r.evidence),
            ("fingerprint"@, JsonModel::Str(r.fingerprint)),
            ("request_id"@, JsonModel::Str(r.request_id)),
            ("status"@, JsonModel::Str(receipt_status_name(r.status))),
            ("v"@, JsonModel::Unsigned(r.v as u64)),
        ],
    )
}

impl DeviceReceipt {
    /// The receipt as a JSON object.
    pub fn to_json(&self) -> (j: Json)
        ensures
            j@ == receipt_json(self@),
    {
        let error = match &self.error {
            Some(e) => Json::Str(e.clone()),
            None => Json::Null,
        };
        let mut members: Vec<(String, Json)> = Vec::new();
        members.push(("error".to_string(), error));
        members.push(("evidence".to_string(), self.evidence.deep_clone()));
        members.push(("fingerprint".to_string(), Json::Str(self.fingerprint.clone())));
        members.push(("request_id".to_string(), Json::Str(self.request_id.clone())));
        members.push(("status".to_string(), Json::Str(self.status.status_label())));
        members.push(("v".to_string(), Json::Number(JsonNumber::Unsigned(self.v as u64))));
        proof {
            lemma_members_model(members@);
            assert(members_model(members@) =~= receipt_json(self@)->Object_0);
        }
        Json::Object(members)
    }
}

/// Fingerprint a request using core canonical JSON; unknown operations are
/// transport errors.
pub fn fingerprint_request(request: &DeviceRequest) -> (r: Result<String, DeviceError>)
    ensures
        op_from_name(request.op@) is None ==> (r matches Err(DeviceError::Transport(m)) && m@ == "unknown op "@ + request.op@),
        op_from_name(request.op@) matches Some(op) ==> (r matches Ok(f)
            && f@ == digest_hex(parameter_text(op, request.device_id@, request.grant_generation, request.params@))
            && is_hex_digest(f@)),
{
    match DeviceOp::parse(request.op.as_str()) {
        None => Err(DeviceError::Transport("unknown op ".to_string().concat(request.op.as_str()))),
        Some(op) => {
            match parameter_fingerprint(op, request.device_id.as_str(), request.grant_generation, &request.params) {
                Ok(f) => Ok(f),
                Err(e) => Err(DeviceError::Protocol(e)),
            }
        },
    }
}

/// `text` left-padded with zeros to at least `width` characters.
pub open spec fn zero_pad(text: Seq<char>, width: nat) -> Seq<char> {
    if text.len() < width {
        Seq::new((width - text.len()) as nat, |i: int| '0') + text
    } else {
        text
    }
}

/// The request id minted at `now_ms` from 16 random bytes: the time as at
/// least 13 zero-padded digits, a dash, and the bytes in lowercase hex.
pub open spec fn request_id_text(now_ms: u64, random: Seq<u8>) -> Seq<char> {
    zero_pad(decimal_text(now_ms as nat), 13) + seq!['-'] + hex_text(random)
}

/// Format a request id from a clock reading and 16 random bytes.
pub fn format_request_id(now_ms: u64, random: &Vec<u8>) -> (id: String)
    ensures
        id@ == request_id_text(now_ms, random@),
{
    let mut digits: Vec<char> = Vec::new();
    push_decimal(now_ms, &mut digits);
    let mut out: Vec<char> = Vec::new();
    let mut k: usize = digits.len();
    while k < 13
        invariant
            digits.len() <= k <= 13 || (k == digits.len() && k >= 13),
            out@ == Seq::new((k - digits@.len()) as nat, |i: int| '0'),
        decreases 13 - k,
    {
        out.push('0');
        proof {
            assert(out@ =~= Seq::new((k + 1 - digits@.len()) as nat, |i: int| '0'));
        }
        k += 1;
    }
    let mut i: usize = 0;
    let ghost pad = out@;
    while i < digits.len()
        invariant
            i <= digits@.len(),
            out@ == pad + digits@.take(i as int),
        decreases digits@.len() - i,
    {
        out.push(digits[i]);
        proof {
            assert(out@ =~= pad + digits@.take(i as int + 1));
        }
        i += 1;
    }
    proof {
        assert(digits@.take(digits@.len() as int) == digits@);
        assert(pad + digits@ =~= zero_pad(decimal_text(now_ms as nat), 13));
    }
    out.push('-');
    let h = hex_encode(random);
    let mut j: usize = 0;
    let ghost prefix = out@;
    while j < h.len()
        invariant
            j <= h@.len(),
            out@ == prefix + h@.take(j as int),
        decreases h@.len() - j,
    {
        out.push(h[j]);
        proof {
            assert(out@ =~= prefix + h@.take(j as int + 1));
        }
        j += 1;
    }
    proof {
        assert(h@.take(h@.len() as int) == h@);
        assert(out@ =~= request_id_text(now_ms, random@));
    }
    string_from_chars(out.as_slice())
}

/// The clock reading of std, carried through unread.
#[verifier::external_type_specification]
#[verifier::external_body]
pub struct ExSystemTime(std::time::SystemTime);

/// Calls `std::time::SystemTime::now()`: the machine's clock, of which
/// nothing is claimed.
#[verifier::external_body]
fn system_time_now() -> std::time::SystemTime {
    std::time::SystemTime::now()
}

/// Calls `SystemTime::duration_since(UNIX_EPOCH)` on `t`; `None` where std
/// reports the reading as earlier than the epoch. Nothing is claimed of the
/// duration: it comes from the clock.
#[verifier::external_body]
fn since_unix_epoch(t: &std::time::SystemTime) -> Option<std::time::Duration> {
    match t.duration_since(std::time::UNIX_EPOCH) {
        Ok(d) => Some(d),
        Err(_) => None,
    }
}

/// Calls `Duration::as_millis` on `d`: its whole milliseconds.
#[verifier::external_body]
fn whole_millis(d: &std::time::Duration) -> u128 {
    d.as_millis()
}

/// The clock as Unix milliseconds: zero for a reading before the epoch, and
/// the largest `u64` for one beyond it. Nothing more is known of the reading.
fn clock_millis() -> u64 {
    let now = system_time_now();
    match since_unix_epoch(&now) {
        None => 0,
        Some(d) => {
            let ms = whole_millis(&d);
            if ms > 0xffff_ffff_ffff_ffffu128 {
                0xffff_ffff_ffff_ffffu64
            } else {
                ms as u64
            }
        },
    }
}

/// Fills 16 bytes from the operating system's random source through
/// `rand::rngs::SysRng` (`TryRng::try_fill_bytes`, which calls
/// `getrandom::fill` and reports failure as an error). `None` where the source
/// failed; otherwise the 16 bytes. Nothing is claimed of their values.
#[verifier::external_body]
fn random_16() -> (r: Option<Vec<u8>>)
    ensures
        r matches Some(b) ==> b@.len() == 16,
{
    let mut bytes: Vec<u8> = vec![0u8; 16];
    match rand::TryRng::try_fill_bytes(&mut rand::rngs::SysRng, bytes.as_mut_slice()) {
        Ok(()) => Some(bytes),
        Err(_) => None,
    }
}

/// Mint a request id with the current time and 16 random bytes; an error
/// only where the operating system's random source fails.
pub fn generate_request_id() -> (r: Result<String, DeviceError>)
    ensures
        r matches Ok(id) ==> exists|now_ms: u64, random: Seq<u8>| random.len() == 16 && id@ == request_id_text(now_ms, random),
        r is Err ==> (r matches Err(DeviceError::Transport(m)) && m@ == "random source unavailable"@),
{
    let now = clock_millis();
    match random_16() {
        None => Err(DeviceError::Transport("random source unavailable".to_string())),
        Some(bytes) => {
            let id = format_request_id(now, &bytes);
            proof {
                assert(bytes@.len() == 16 && id@ == request_id_text(now, bytes@));
            }
            Ok(id)
        },
    }
}


proof fn lemma_decimal_text(n: nat, k: nat)
    ensures
        decimal_text(n).len() >= 1,
        forall|i: int| 0 <= i < decimal_text(n).len() ==> is_digit(#[trigger] decimal_text(n)[i]),
        decimal_value(decimal_text(n)) == n,
        n < pow10(k) && k >= 1 ==> decimal_text(n).len() <= k,
    decreases n,
{
    let t = decimal_text(n);
    if n >= 10 {
        let kk: nat = if k >= 1 { (k - 1) as nat } else { 0 };
        lemma_decimal_text(n / 10, kk);
        let u = decimal_text(n / 10);
        assert(t == u.push(digit_char(n % 10)));
        assert(t.drop_last() =~= u);
        assert(t.last() == digit_char(n % 10));
        assert((digit_char(n % 10) as u32) == 48 + n % 10);
        assert(decimal_value(t) == decimal_value(u) * 10 + n % 10);
        assert((n / 10) * 10 + n % 10 == n);
        assert(decimal_value(t) == n);
        assert forall|i: int| 0 <= i < t.len() implies is_digit(#[trigger] t[i]) by {
            if i < u.len() {
                assert(t[i] == u[i]);
            }
        }
        if k >= 1 && n < pow10(k) {
            if k == 1 {
                assert(pow10(1) == 10 * pow10(0));
            } else {
                assert(pow10(k) == 10 * pow10(kk));
                assert(n / 10 < pow10(kk));
            }
        }
    } else {
        assert(t == seq![digit_char(n)]);
        assert(t.drop_last() =~= Seq::<char>::empty());
        assert((digit_char(n) as u32) == 48 + n);
        assert(decimal_value(t.drop_last()) == 0);
        assert(decimal_value(t) == n);
        if k >= 1 {
            assert(pow10(k) == 10 * pow10((k - 1) as nat));
        }
    }
}

proof fn lemma_zero_digits(m: nat)
    ensures
        decimal_value(Seq::new(m, |i: int| '0')) == 0,
    decreases m,
{
    if m > 0 {
        lemma_zero_digits((m - 1) as nat);
        assert(Seq::new(m, |i: int| '0').drop_last() =~= Seq::new((m - 1) as nat, |i: int| '0'));
    }
}

proof fn lemma_leading_zeros(m: nat, s: Seq<char>)
    ensures
        decimal_value(Seq::new(m, |i: int| '0') + s) == decimal_value(s),
    decreases s.len(),
{
    let z = Seq::new(m, |i: int| '0');
    if s.len() == 0 {
        assert(z + s =~= z);
        lemma_zero_digits(m);
    } else {
        lemma_leading_zeros(m, s.drop_last());
        assert((z + s).drop_last() =~= z + s.drop_last());
        assert((z + s).last() == s.last());
    }
}

/// A minted request id reads back: for any clock reading below 10^13 ms and
/// any 16 bytes, the id is well formed and its timestamp is the reading.
pub proof fn lemma_request_id_round_trip(now_ms: u64, random: Seq<u8>)
    requires
        now_ms < 10000000000000,
        random.len() == 16,
    ensures
        is_request_id(request_id_text(now_ms, random)),
        request_timestamp(request_id_text(now_ms, random)) == now_ms,
{
    reveal_with_fuel(pow10, 14);
    lemma_decimal_text(now_ms as nat, 13);
    lemma_hex_text(random);
    let d = decimal_text(now_ms as nat);
    let z = Seq::new((13 - d.len()) as nat, |i: int| '0');
    let padded = zero_pad(d, 13);
    assert(padded.len() == 13);
    if d.len() < 13 {
        assert(padded == z + d);
        lemma_leading_zeros((13 - d.len()) as nat, d);
        assert forall|i: int| 0 <= i < 13 implies is_digit(#[trigger] padded[i]) by {
            if i >= z.len() {
                assert(padded[i] == d[i - z.len()]);
            }
        }
    }
    let h = hex_text(random);
    let id = request_id_text(now_ms, random);
    assert(id == padded + seq!['-'] + h);
    assert(id.take(13) =~= padded);
    assert forall|i: int| 0 <= i < 13 implies is_digit(#[trigger] id[i]) by {
        assert(id[i] == padded[i]);
    }
    assert forall|i: int| 14 <= i < 46 implies is_lower_hex(#[trigger] id[i]) by {
        assert(id[i] == h[i - 14]);
    }
}


/// Kind of the plaintext readiness advertisement (replaceable).
pub const KIND_DEVICE_ADVERTISEMENT: u32 = 30180;
/// Kind of an encrypted controller-to-device request.
pub const KIND_DEVICE_REQUEST: u32 = 43200;
/// Kind of an encrypted device-to-controller receipt.
pub const KIND_DEVICE_RECEIPT: u32 = 43201;

/// A tag of two texts.
pub fn tag2(name: &str, value: &str) -> (t: Vec<String>)
    ensures
        tag_text(t) == seq![name@, value@],
{
    let mut t: Vec<String> = Vec::new();
    t.push(name.to_string());
    t.push(value.to_string());
    proof { assert(tag_text(t) =~= seq![name@, value@]); }
    t
}

/// The tags of a request event: the device key, the request id as `d`, the
/// device id and the operation.
pub fn request_tags(device_pubkey_hex: &str, device_id: &str, request: &DeviceRequest) -> (v: Vec<Vec<String>>)
    ensures
        tag_texts(v@) == seq![
            seq!["p"@, device_pubkey_hex@],
            seq!["d"@, request.request_id@],
            seq!["device"@, device_id@],
            seq!["op"@, request.op@],
        ],
        tags_address(tag_texts(v@), device_pubkey_hex@),
{
    let mut v: Vec<Vec<String>> = Vec::new();
    v.push(tag2("p", device_pubkey_hex));
    v.push(tag2("d", request.request_id.as_str()));
    v.push(tag2("device", device_id));
    v.push(tag2("op", request.op.as_str()));
    proof {
        assert(tag_texts(v@) =~= seq![
            seq!["p"@, device_pubkey_hex@],
            seq!["d"@, request.request_id@],
            seq!["device"@, device_id@],
            seq!["op"@, request.op@],
        ]);
        let t = tag_texts(v@);
        assert(t[0].len() > 1 && t[0][0] == "p"@ && eq_ignore_case(t[0][1], device_pubkey_hex@));
    }
    v
}

/// The tags of a receipt event: the actor key, the request id as `d` and
/// the device id.
pub fn receipt_tags(actor_pubkey_hex: &str, device_id: &str, receipt: &DeviceReceipt) -> (v: Vec<Vec<String>>)
    ensures
        tag_texts(v@) == seq![seq!["p"@, actor_pubkey_hex@], seq!["d"@, receipt.request_id@], seq!["device"@, device_id@]],
{
    let mut v: Vec<Vec<String>> = Vec::new();
    v.push(tag2("p", actor_pubkey_hex));
    v.push(tag2("d", receipt.request_id.as_str()));
    v.push(tag2("device", device_id));
    proof {
        assert(tag_texts(v@) =~= seq![seq!["p"@, actor_pubkey_hex@], seq!["d"@, receipt.request_id@], seq!["device"@, device_id@]]);
    }
    v
}

/// The readiness advertisement body (members in key order).
pub open spec fn advertisement_json(device_id: Seq<char>, grant_generation: u64) -> JsonModel {
    JsonModel::Object(seq![
        ("device_id"@, JsonModel::Str(device_id)),
        ("grant_generation"@, JsonModel::Unsigned(grant_generation)),
        ("harnesses"@, JsonModel::Array(seq![JsonModel::Str("fixture-agent"@)])),
        ("online"@, JsonModel::Bool(true)),
        ("protocol_version"@, JsonModel::Unsigned(DEVICE_PROTOCOL_VERSION as u64)),
        ("setup_readiness"@, JsonModel::Str("ready"@)),
    ])
}

/// The body of a readiness advertisement; its only tag is `d` = device id.
pub fn advertisement_body(device_id: &str, grant_generation: u64) -> (j: Json)
    ensures
        j@ == advertisement_json(device_id@, grant_generation),
{
    let mut harnesses: Vec<Json> = Vec::new();
    harnesses.push(Json::Str("fixture-agent".to_string()));
    proof {
        lemma_items_model(harnesses@);
        assert(items_model(harnesses@) =~= seq![JsonModel::Str("fixture-agent"@)]);
    }
    let mut m: Vec<(String, Json)> = Vec::new();
    m.push(("device_id".to_string(), Json::Str(device_id.to_string())));
    m.push(("grant_generation".to_string(), Json::Number(JsonNumber::Unsigned(grant_generation))));
    m.push(("harnesses".to_string(), Json::Array(harnesses)));
    m.push(("online".to_string(), Json::Bool(true)));
    m.push(("protocol_version".to_string(), Json::Number(JsonNumber::Unsigned(DEVICE_PROTOCOL_VERSION as u64))));
    m.push(("setup_readiness".to_string(), Json::Str("ready".to_string())));
    proof {
        lemma_members_model(m@);
        assert(members_model(m@) =~= advertisement_json(device_id@, grant_generation)->Object_0);
    }
    Json::Object(m)
}

/// Some tag is a `p` tag whose value equals `host_hex` up to ASCII case.
pub open spec fn tags_address(tags: Seq<Seq<Seq<char>>>, host_hex: Seq<char>) -> bool {
    exists|i: int| 0 <= i < tags.len() && (#[trigger] tags[i]).len() > 1 && tags[i][0] == "p"@
        && eq_ignore_case(tags[i][1], host_hex)
}

/// Whether an inbound event of kind `kind` with `tags` is a request for the
/// host whose key is `host_hex`.
pub fn is_request_for(kind: u16, tags: &Vec<Vec<String>>, host_hex: &str) -> (r: bool)
    ensures
        r == (kind as u32 == KIND_DEVICE_REQUEST && tags_address(tag_texts(tags@), host_hex@)),
{
    if kind as u32 != KIND_DEVICE_REQUEST {
        return false;
    }
    let host = chars_of(host_hex);
    let ghost tt = tag_texts(tags@);
    let mut i: usize = 0;
    while i < tags.len()
        invariant
            i <= tags@.len(),
            tt == tag_texts(tags@),
            tt.len() == tags@.len(),
            host@ == host_hex@,
            kind as u32 == KIND_DEVICE_REQUEST,
            forall|m: int| 0 <= m < i ==> !((#[trigger] tt[m]).len() > 1 && tt[m][0] == "p"@ && eq_ignore_case(tt[m][1], host_hex@)),
        decreases tags@.len() - i,
    {
        let tag = &tags[i];
        proof {
            assert(tt[i as int] == tag_text(*tag));
        }
        if tag.len() > 1 && str_eq(tag[0].as_str(), "p") {
            let value = chars_of(tag[1].as_str());
            if chars_eq_ignore_case(&value, &host) {
                proof {
                    assert(tt[i as int].len() > 1 && tt[i as int][0] == "p"@ && eq_ignore_case(tt[i as int][1], host_hex@));
                    assert(tags_address(tt, host_hex@));
                }
                return true;
            }
        }
        i += 1;
    }
    false
}

/// A receipt's JSON carries each receipt field under its own name: the
/// request id, fingerprint, status name, evidence, error (`null` when
/// absent) and protocol version.
pub proof fn lemma_receipt_json_fields(r: ReceiptModel)
    ensures
        text_field(receipt_json(r), "request_id"@) == Some(r.request_id),
        text_field(receipt_json(r), "fingerprint"@) == Some(r.fingerprint),
        text_field(receipt_json(r), "status"@) == Some(receipt_status_name(r.status)),
        field(receipt_json(r), "evidence"@) == Some(r.evidence),
        (r.error matches Some(e) ==> text_field(receipt_json(r), "error"@) == Some(e)),
        (r.error is None ==> field(receipt_json(r), "error"@) == Some(JsonModel::Null)),
        as_unsigned(field(receipt_json(r), "v"@)) == Some(r.v as u64),
{
    reveal_strlit("error");
    reveal_strlit("evidence");
    reveal_strlit("fingerprint");
    reveal_strlit("request_id");
    reveal_strlit("status");
    reveal_strlit("v");
    assert("error"@.len() == 5 && "evidence"@.len() == 8 && "fingerprint"@.len() == 11 && "request_id"@.len() == 10 && "status"@.len() == 6 && "v"@.len() == 1);
    let m = receipt_json(r)->Object_0;
    lemma_field_of_distinct(m);
    assert(field(JsonModel::Object(m), m[0].0) == Some(m[0].1));
    assert(field(JsonModel::Object(m), m[1].0) == Some(m[1].1));
    assert(field(JsonModel::Object(m), m[2].0) == Some(m[2].1));
    assert(field(JsonModel::Object(m), m[3].0) == Some(m[3].1));
    assert(field(JsonModel::Object(m), m[4].0) == Some(m[4].1));
    assert(field(JsonModel::Object(m), m[5].0) == Some(m[5].1));
}

/// A readiness advertisement names the device and the grant generation it
/// serves, online and ready.
pub proof fn lemma_advertisement_fields(device_id: Seq<char>, grant_generation: u64)
    ensures
        text_field(advertisement_json(device_id, grant_generation), "device_id"@) == Some(device_id),
        as_unsigned(field(advertisement_json(device_id, grant_generation), "grant_generation"@)) == Some(grant_generation),
        field(advertisement_json(device_id, grant_generation), "online"@) == Some(JsonModel::Bool(true)),
        text_field(advertisement_json(device_id, grant_generation), "setup_readiness"@) == Some("ready"@),
{
    reveal_strlit("device_id");
    reveal_strlit("grant_generation");
    reveal_strlit("harnesses");
    reveal_strlit("online");
    reveal_strlit("protocol_version");
    reveal_strlit("setup_readiness");
    assert("device_id"@.len() == 9 && "grant_generation"@.len() == 16 && "harnesses"@.len() == 9 && "online"@.len() == 6 && "protocol_version"@.len() == 16 && "setup_readiness"@.len() == 15);
    assert("device_id"@[0] != "harnesses"@[0]);
    assert("grant_generation"@[0] != "protocol_version"@[0]);
    let m = advertisement_json(device_id, grant_generation)->Object_0;
    lemma_field_of_distinct(m);
    assert(field(JsonModel::Object(m), m[0].0) == Some(m[0].1));
    assert(field(JsonModel::Object(m), m[1].0) == Some(m[1].1));
    assert(field(JsonModel::Object(m), m[2].0) == Some(m[2].1));
    assert(field(JsonModel::Object(m), m[3].0) == Some(m[3].1));
    assert(field(JsonModel::Object(m), m[4].0) == Some(m[4].1));
    assert(field(JsonModel::Object(m), m[5].0) == Some(m[5].1));
}


/// Each receipt status has its own lowercase name on the wire.
pub proof fn lemma_status_names(a: ReceiptStatus, b: ReceiptStatus)
    ensures
        receipt_status_name(ReceiptStatus::Succeeded) == "succeeded"@,
        receipt_status_name(ReceiptStatus::Failed) == "failed"@,
        receipt_status_name(ReceiptStatus::Rejected) == "rejected"@,
        receipt_status_name(ReceiptStatus::Conflict) == "conflict"@,
        receipt_status_name(ReceiptStatus::Uncertain) == "uncertain"@,
        receipt_status_name(a) == receipt_status_name(b) ==> a == b,
{
    reveal_strlit("succeeded");
    reveal_strlit("failed");
    reveal_strlit("rejected");
    reveal_strlit("conflict");
    reveal_strlit("uncertain");
    assert("succeeded"@.len() == 9 && "failed"@.len() == 6 && "rejected"@.len() == 8 && "conflict"@.len() == 8 && "uncertain"@.len() == 9);
    assert("succeeded"@[0] != "uncertain"@[0]);
    assert("rejected"@[0] != "conflict"@[0]);
}

} // verus!
