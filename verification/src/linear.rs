//! Linear client logic for the desktop: connection and issue records, the
//! mapping of GraphQL payloads, mock fixtures, and the rules that keep the
//! API key out of every result and error. HTTP and the OS key store are the
//! host's.

use vstd::prelude::*;
use vstd::string::StringExecFns;
use crate::canonical::{decimal_text, json_text, push_decimal, push_json};
use crate::json::{
    as_text, field, first_member, items_model, json_model, lemma_first_member_concat, lemma_items_model, lemma_members_model, members_model, text_field, Json, JsonModel,
};
use crate::text::{chars_contains, chars_of, contains, lower, lowered, str_eq, string_from_chars, trim, trimmed};
use crate::wire::{copy_opt, opt_text};

verus! {

/// Keychain blob slot. Never the identity nsec key.
pub const LINEAR_SECRET_SLOT: &'static str = "aquarium-linear-api-key";
/// The identity key slot, which the Linear key must never use.
pub const IDENTITY_SLOT: &'static str = "identity";
/// Official Linear GraphQL endpoint.
pub const LINEAR_GRAPHQL_URL: &'static str = "https://api.linear.app/graphql";

/// Linear connection record. Never includes the API key.
#[derive(Debug, PartialEq, Eq)]
pub struct LinearConnection {
    /// Provenance. `linear` only after GraphQL success; mock is never live.
    pub source: String,
    /// Whether a usable Linear workspace was verified.
    pub connected: bool,
    /// Workspace label when connected.
    pub workspace_name: Option<String>,
    /// Human-readable status. Must not contain the key.
    pub message: String,
}

/// Linear issue record.
#[derive(Debug, PartialEq, Eq)]
pub struct LinearIssue {
    /// Provenance. `linear` only from GraphQL; mock fixtures stay mock.
    pub source: String,
    /// Linear issue id.
    pub id: String,
    /// Display identifier (e.g. AQU-1).
    pub identifier: String,
    /// Title.
    pub title: String,
    /// Workflow state.
    pub status: String,
    /// Optional project.
    pub project_name: Option<String>,
    /// Optional URL.
    pub url: Option<String>,
    /// Optional bound tank.
    pub tank_id: Option<String>,
}

/// The mathematical value of a [`LinearConnection`].
pub struct ConnectionModel {
    /// Provenance.
    pub source: Seq<char>,
    /// Whether a workspace was verified.
    pub connected: bool,
    /// Workspace label.
    pub workspace_name: Option<Seq<char>>,
    /// Status text.
    pub message: Seq<char>,
}

impl View for LinearConnection {
    type V = ConnectionModel;

    open spec fn view(&self) -> ConnectionModel {
        ConnectionModel {
            source: self.source@,
            connected: self.connected,
            workspace_name: opt_text(self.workspace_name),
            message: self.message@,
        }
    }
}

/// The mathematical value of a [`LinearIssue`].
pub struct IssueModel {
    /// Provenance.
    pub source: Seq<char>,
    /// Issue id.
    pub id: Seq<char>,
    /// Display identifier.
    pub identifier: Seq<char>,
    /// Title.
    pub title: Seq<char>,
    /// Workflow state.
    pub status: Seq<char>,
    /// Project.
    pub project_name: Option<Seq<char>>,
    /// URL.
    pub url: Option<Seq<char>>,
    /// Bound tank.
    pub tank_id: Option<Seq<char>>,
}

impl View for LinearIssue {
    type V = IssueModel;

    open spec fn view(&self) -> IssueModel {
        IssueModel {
            source: self.source@,
            id: self.id@,
            identifier: self.identifier@,
            title: self.title@,
            status: self.status@,
            project_name: opt_text(self.project_name),
            url: opt_text(self.url),
            tank_id: opt_text(self.tank_id),
        }
    }
}

/// The models of a sequence of issues.
pub open spec fn issue_models(s: Seq<LinearIssue>) -> Seq<IssueModel> {
    s.map_values(|i: LinearIssue| i@)
}

/// How the native client reaches Linear.
#[derive(Debug, PartialEq)]
pub enum LinearTransport {
    /// Official GraphQL over HTTP at this endpoint.
    Live {
        /// GraphQL endpoint.
        endpoint: String,
    },
    /// Explicit development fixture. Never `source: linear`.
    Mock,
}

/// In-memory or OS-backed secret slot for the Linear key.
pub trait LinearSecretSlot {
    /// Persist the key. Errors must not echo the value.
    fn store(&self, value: &str) -> Result<(), String>;
    /// Load the key for native Linear operations only.
    fn load(&self) -> Result<Option<String>, String>;
    /// Forget the key.
    fn delete(&self) -> Result<(), String>;
}

/// `value`'s compact JSON text contains the non-empty `secret`.
pub open spec fn leaks(value: JsonModel, secret: Seq<char>) -> bool {
    secret.len() > 0 && contains(json_text(value), secret)
}

/// A record that says Linear is not connected, with `message`.
pub open spec fn disconnected_model(message: Seq<char>) -> ConnectionModel {
    ConnectionModel { source: "linear"@, connected: false, workspace_name: None, message }
}

/// Not connected, with this status text.
pub fn disconnected(message: &str) -> (c: LinearConnection)
    ensures
        c@ == disconnected_model(message@),
{
    proof { reveal_strlit("linear"); }
    LinearConnection {
        source: "linear".to_string(),
        connected: false,
        workspace_name: None,
        message: message.to_string(),
    }
}

/// The fixture connection: mock provenance, never connected.
pub open spec fn mock_connection_model() -> ConnectionModel {
    ConnectionModel {
        source: "mock"@,
        connected: false,
        workspace_name: None,
        message: "mock Linear fixture; not a live workspace"@,
    }
}

/// The connection the explicit mock transport reports.
pub fn mock_connection() -> (c: LinearConnection)
    ensures
        c@ == mock_connection_model(),
{
    LinearConnection {
        source: "mock".to_string(),
        connected: false,
        workspace_name: None,
        message: "mock Linear fixture; not a live workspace".to_string(),
    }
}

/// The one fixture issue of the mock transport.
pub open spec fn mock_issue_model() -> IssueModel {
    IssueModel {
        source: "mock"@,
        id: "fixture-issue-1"@,
        identifier: "AQU-1"@,
        title: "Fixture tank"@,
        status: "Todo"@,
        project_name: Some("Aquarium"@),
        url: None,
        tank_id: None,
    }
}

/// The issues the explicit mock transport holds.
pub fn mock_issues() -> (v: Vec<LinearIssue>)
    ensures
        issue_models(v@) == seq![mock_issue_model()],
{
    let mut v: Vec<LinearIssue> = Vec::new();
    v.push(LinearIssue {
        source: "mock".to_string(),
        id: "fixture-issue-1".to_string(),
        identifier: "AQU-1".to_string(),
        title: "Fixture tank".to_string(),
        status: "Todo".to_string(),
        project_name: Some("Aquarium".to_string()),
        url: None,
        tank_id: None,
    });
    proof { assert(issue_models(v@) =~= seq![mock_issue_model()]); }
    v
}

/// A string member, present only when the value is.
pub open spec fn opt_member(key: Seq<char>, value: Option<Seq<char>>) -> Seq<(Seq<char>, JsonModel)> {
    match value {
        Some(t) => seq![(key, JsonModel::Str(t))],
        None => Seq::empty(),
    }
}

/// The JSON object a connection serializes to: members in key order, an
/// absent workspace left out.
pub open spec fn connection_json(c: ConnectionModel) -> JsonModel {
    JsonModel::Object(
        seq![
            ("connected"@, JsonModel::Bool(c.connected)),
            ("message"@, JsonModel::Str(c.message)),
            ("source"@, JsonModel::Str(c.source)),
        ] + opt_member("workspace_name"@, c.workspace_name),
    )
}

/// The JSON object an issue serializes to: members in key order, absent
/// optional members left out.
pub open spec fn issue_json(i: IssueModel) -> JsonModel {
    JsonModel::Object(
        seq![("id"@, JsonModel::Str(i.id)), ("identifier"@, JsonModel::Str(i.identifier))]
            + opt_member("project_name"@, i.project_name)
            + seq![("source"@, JsonModel::Str(i.source)), ("status"@, JsonModel::Str(i.status))]
            + opt_member("tank_id"@, i.tank_id)
            + seq![("title"@, JsonModel::Str(i.title))]
            + opt_member("url"@, i.url),
    )
}

fn push_opt_member(members: &mut Vec<(String, Json)>, key: &str, value: &Option<String>)
    ensures
        members_model(final(members)@) == members_model(old(members)@) + opt_member(key@, opt_text(*value)),
{
    proof { lemma_members_model(members@); }
    let ghost before = members@;
    match value {
        Some(t) => {
            members.push((key.to_string(), Json::Str(t.clone())));
        },
        None => {},
    }
    proof {
        lemma_members_model(members@);
        assert(members_model(members@) =~= members_model(before) + opt_member(key@, opt_text(*value)));
    }
}

impl LinearConnection {
    /// The connection as the JSON object it serializes to.
    pub fn to_json(&self) -> (j: Json)
        ensures
            j@ == connection_json(self@),
    {
        let mut members: Vec<(String, Json)> = Vec::new();
        members.push(("connected".to_string(), Json::Bool(self.connected)));
        members.push(("message".to_string(), Json::Str(self.message.clone())));
        members.push(("source".to_string(), Json::Str(self.source.clone())));
        proof {
            lemma_members_model(members@);
            assert(members_model(members@) =~= seq![
                ("connected"@, JsonModel::Bool(self.connected)),
                ("message"@, JsonModel::Str(self@.message)),
                ("source"@, JsonModel::Str(self@.source)),
            ]);
        }
        push_opt_member(&mut members, "workspace_name", &self.workspace_name);
        Json::Object(members)
    }
}

impl LinearIssue {
    /// The issue as the JSON object it serializes to.
    pub fn to_json(&self) -> (j: Json)
        ensures
            j@ == issue_json(self@),
    {
        let mut members: Vec<(String, Json)> = Vec::new();
        members.push(("id".to_string(), Json::Str(self.id.clone())));
        members.push(("identifier".to_string(), Json::Str(self.identifier.clone())));
        proof {
            lemma_members_model(members@);
            assert(members_model(members@) =~= seq![("id"@, JsonModel::Str(self@.id)), ("identifier"@, JsonModel::Str(self@.identifier))]);
        }
        push_opt_member(&mut members, "project_name", &self.project_name);
        let ghost m1 = members_model(members@);
        proof { lemma_members_model(members@); }
        members.push(("source".to_string(), Json::Str(self.source.clone())));
        members.push(("status".to_string(), Json::Str(self.status.clone())));
        proof {
            lemma_members_model(members@);
            assert(members_model(members@) =~= m1 + seq![("source"@, JsonModel::Str(self@.source)), ("status"@, JsonModel::Str(self@.status))]);
        }
        push_opt_member(&mut members, "tank_id", &self.tank_id);
        let ghost m2 = members_model(members@);
        proof { lemma_members_model(members@); }
        members.push(("title".to_string(), Json::Str(self.title.clone())));
        proof {
            lemma_members_model(members@);
            assert(members_model(members@) =~= m2 + seq![("title"@, JsonModel::Str(self@.title))]);
        }
        push_opt_member(&mut members, "url", &self.url);
        Json::Object(members)
    }
}

/// Whether the JSON text of `value` contains the non-empty `secret`.
pub fn json_has_secret(value: &Json, secret: &str) -> (r: bool)
    ensures
        r == leaks(value@, secret@),
{
    let s = chars_of(secret);
    if s.len() == 0 {
        return false;
    }
    let mut text: Vec<char> = Vec::new();
    push_json(value, &mut text);
    proof { assert(text@ =~= json_text(value@)); }
    chars_contains(&text, &s)
}

/// `s` with every non-overlapping occurrence of `pat`, left to right,
/// replaced by `rep`, as `str::replace` does for a non-empty pattern.
pub open spec fn replace_all(s: Seq<char>, pat: Seq<char>, rep: Seq<char>) -> Seq<char>
    decreases s.len(),
{
    if pat.len() == 0 || s.len() < pat.len() {
        s
    } else if s.take(pat.len() as int) == pat {
        rep + replace_all(s.skip(pat.len() as int), pat, rep)
    } else {
        seq![s[0]] + replace_all(s.drop_first(), pat, rep)
    }
}

/// A message with the secret replaced by `[redacted]`.
pub open spec fn redacted(message: Seq<char>, secret: Seq<char>) -> Seq<char> {
    if secret.len() == 0 || !contains(message, secret) {
        message
    } else {
        replace_all(message, secret, "[redacted]"@)
    }
}

proof fn lemma_replace_all_step(s: Seq<char>, pat: Seq<char>, rep: Seq<char>, i: int)
    requires
        pat.len() > 0,
        0 <= i <= s.len(),
    ensures
        i + pat.len() <= s.len() && s.subrange(i, i + pat.len()) == pat ==>
            replace_all(s.skip(i), pat, rep) == rep + replace_all(s.skip(i + pat.len()), pat, rep),
        (i + pat.len() <= s.len() && s.subrange(i, i + pat.len()) != pat) ==>
            replace_all(s.skip(i), pat, rep) == seq![s[i]] + replace_all(s.skip(i + 1), pat, rep),
        i + pat.len() > s.len() ==> replace_all(s.skip(i), pat, rep) == s.skip(i),
{
    let t = s.skip(i);
    if i + pat.len() <= s.len() {
        assert(t.take(pat.len() as int) == s.subrange(i, i + pat.len()));
        assert(t.skip(pat.len() as int) == s.skip(i + pat.len()));
        assert(t.drop_first() == s.skip(i + 1));
    }
}

/// The message with every occurrence of the secret redacted.
pub fn redact_secret(message: &str, secret: &str) -> (r: String)
    ensures
        r@ == redacted(message@, secret@),
{
    let m = chars_of(message);
    let s = chars_of(secret);
    if s.len() == 0 || !chars_contains(&m, &s) {
        return message.to_string();
    }
    let rep = chars_of("[redacted]");
    let n = s.len();
    let ml = m.len();
    let mut out: Vec<char> = Vec::new();
    let mut i: usize = 0;
    proof { assert(m@.skip(0) =~= m@); }
    while i < ml
        invariant
            ml == m@.len(),
            n == s@.len(),
            n > 0,
            i <= m@.len(),
            rep@ == "[redacted]"@,
            out@ + replace_all(m@.skip(i as int), s@, rep@) == replace_all(m@, s@, rep@),
        decreases m@.len() - i,
    {
        proof { lemma_replace_all_step(m@, s@, rep@, i as int); }
        if ml - i >= n {
            let mut j: usize = 0;
            let mut same = true;
            while j < n && same
                invariant
                    j <= n,
                    n == s@.len(),
                    ml == m@.len(),
                    i + n <= ml,
                    forall|k: int| 0 <= k < j ==> m@[i + k] == s@[k],
                    !same ==> j < n && m@[i + j] != s@[j as int],
                decreases n - j + (if same { 1int } else { 0int }),
            {
                if m[i + j] == s[j] {
                    j += 1;
                } else {
                    same = false;
                }
            }
            if same {
                proof { assert(m@.subrange(i as int, i + n) =~= s@); }
                let mut k: usize = 0;
                let ghost before = out@;
                while k < rep.len()
                    invariant
                        k <= rep@.len(),
                        out@ == before + rep@.take(k as int),
                    decreases rep@.len() - k,
                {
                    out.push(rep[k]);
                    proof { assert(out@ =~= before + rep@.take(k as int + 1)); }
                    k += 1;
                }
                proof {
                    assert(rep@.take(rep@.len() as int) == rep@);
                    assert(out@ + replace_all(m@.skip(i + n), s@, rep@) =~= before + (rep@ + replace_all(m@.skip(i + n), s@, rep@)));
                }
                i += n;
            } else {
                proof { assert(m@.subrange(i as int, i + n)[j as int] != s@[j as int]); }
                let ghost before = out@;
                out.push(m[i]);
                proof { assert(out@ + replace_all(m@.skip(i + 1), s@, rep@) =~= before + (seq![m@[i as int]] + replace_all(m@.skip(i + 1), s@, rep@))); }
                i += 1;
            }
        } else {
            let ghost before = out@;
            let mut k: usize = i;
            while k < ml
                invariant
                    ml == m@.len(),
                    i <= k <= m@.len(),
                    out@ == before + m@.subrange(i as int, k as int),
                decreases m@.len() - k,
            {
                out.push(m[k]);
                proof { assert(out@ =~= before + m@.subrange(i as int, k as int + 1)); }
                k += 1;
            }
            proof {
                assert(m@.subrange(i as int, m@.len() as int) == m@.skip(i as int));
                assert(m@.skip(m@.len() as int) == Seq::<char>::empty());
                assert(replace_all(Seq::<char>::empty(), s@, rep@) == Seq::<char>::empty());
            }
            i = ml;
        }
    }
    proof {
        assert(m@.skip(m@.len() as int) == Seq::<char>::empty());
        assert(out@ =~= replace_all(m@, s@, rep@));
        reveal_strlit("[redacted]");
    }
    string_from_chars(out.as_slice())
}


/// The text at `outer.inner` of `node`, as nested `get` and `as_str` find it.
pub open spec fn nested_text(node: JsonModel, outer: Seq<char>, inner: Seq<char>) -> Option<Seq<char>> {
    match field(node, outer) {
        Some(o) => text_field(o, inner),
        None => None,
    }
}

/// The issue a GraphQL issue node describes, or `None` when its `id` or
/// `identifier` is missing, not a string, or empty.
pub open spec fn graphql_issue(node: JsonModel, source: Seq<char>) -> Option<IssueModel> {
    match (text_field(node, "id"@), text_field(node, "identifier"@)) {
        (Some(id), Some(identifier)) => if id.len() == 0 || identifier.len() == 0 {
            None
        } else {
            Some(IssueModel {
                source,
                id,
                identifier,
                title: match text_field(node, "title"@) { Some(t) => t, None => Seq::empty() },
                status: match nested_text(node, "state"@, "name"@) { Some(t) => t, None => Seq::empty() },
                project_name: nested_text(node, "project"@, "name"@),
                url: text_field(node, "url"@),
                tank_id: None,
            })
        },
        _ => None,
    }
}

/// A GraphQL issue node maps field by field: it gives an issue exactly when
/// its `id` and `identifier` are non-empty strings, and then the issue's id,
/// identifier, title (empty when absent), workflow state name (empty when
/// absent), project name and URL are the node's own, with no tank bound.
pub proof fn lemma_graphql_issue_fields(node: JsonModel, source: Seq<char>)
    ensures
        graphql_issue(node, source) is Some <==> ({
            &&& text_field(node, "id"@) is Some && text_field(node, "id"@)->0.len() > 0
            &&& text_field(node, "identifier"@) is Some && text_field(node, "identifier"@)->0.len() > 0
        }),
        graphql_issue(node, source) matches Some(i) ==> {
            &&& i.source == source
            &&& Some(i.id) == text_field(node, "id"@)
            &&& Some(i.identifier) == text_field(node, "identifier"@)
            &&& (text_field(node, "title"@) matches Some(t) ==> i.title == t)
            &&& (text_field(node, "title"@) is None ==> i.title == Seq::<char>::empty())
            &&& (field(node, "state"@) matches Some(st) ==> (text_field(st, "name"@) matches Some(n) ==> i.status == n))
            &&& (field(node, "state"@) matches Some(st) ==> (text_field(st, "name"@) is None ==> i.status == Seq::<char>::empty()))
            &&& (field(node, "state"@) is None ==> i.status == Seq::<char>::empty())
            &&& (field(node, "project"@) matches Some(p) ==> i.project_name == text_field(p, "name"@))
            &&& (field(node, "project"@) is None ==> i.project_name is None)
            &&& i.url == text_field(node, "url"@)
            &&& i.tank_id is None
        },
{
}

fn text_of(node: &Json, key: &str) -> (r: Option<String>)
    ensures
        opt_text(r) == text_field(node@, key@),
{
    match node.get(key) {
        Some(v) => match v.as_str() {
            Some(t) => Some(t.clone()),
            None => None,
        },
        None => None,
    }
}

fn nested_text_of(node: &Json, outer: &str, inner: &str) -> (r: Option<String>)
    ensures
        opt_text(r) == nested_text(node@, outer@, inner@),
{
    match node.get(outer) {
        Some(o) => text_of(o, inner),
        None => None,
    }
}

/// The issue a GraphQL issue node describes, tagged with `source`.
pub fn issue_from_graphql(node: &Json, source: &str) -> (r: Option<LinearIssue>)
    ensures
        match r {
            Some(i) => graphql_issue(node@, source@) == Some(i@),
            None => graphql_issue(node@, source@) is None,
        },
{
    let id = match text_of(node, "id") {
        Some(t) => t,
        None => return None,
    };
    let identifier = match text_of(node, "identifier") {
        Some(t) => t,
        None => return None,
    };
    if id.as_str().unicode_len() == 0 || identifier.as_str().unicode_len() == 0 {
        return None;
    }
    let title = match text_of(node, "title") {
        Some(t) => t,
        None => String::new(),
    };
    let status = match nested_text_of(node, "state", "name") {
        Some(t) => t,
        None => String::new(),
    };
    Some(LinearIssue {
        source: source.to_string(),
        id,
        identifier,
        title,
        status,
        project_name: nested_text_of(node, "project", "name"),
        url: text_of(node, "url"),
        tank_id: None,
    })
}

/// The connection a successful viewer query describes: an error when
/// `data` is missing or `data.viewer` is not an object with a string `id`.
pub open spec fn viewer_connection(payload: JsonModel) -> Result<ConnectionModel, Seq<char>> {
    match field(payload, "data"@) {
        None => Err("linear connect missing data"@),
        Some(data) => match field(data, "viewer"@) {
            Some(viewer) => if viewer is Object && text_field(viewer, "id"@) is Some {
                Ok(ConnectionModel {
                    source: "linear"@,
                    connected: true,
                    workspace_name: nested_text(data, "organization"@, "name"@),
                    message: "connected"@,
                })
            } else {
                Err("linear connect did not return a viewer"@)
            },
            None => Err("linear connect did not return a viewer"@),
        },
    }
}

/// The connection a viewer query payload proves.
pub fn connection_from_viewer(payload: &Json) -> (r: Result<LinearConnection, String>)
    ensures
        match r {
            Ok(c) => viewer_connection(payload@) == Ok::<ConnectionModel, Seq<char>>(c@),
            Err(e) => viewer_connection(payload@) == Err::<ConnectionModel, Seq<char>>(e@),
        },
{
    let data = match payload.get("data") {
        Some(d) => d,
        None => return Err("linear connect missing data".to_string()),
    };
    let ok_viewer = match data.get("viewer") {
        Some(viewer) => viewer.is_object() && text_of(viewer, "id").is_some(),
        None => false,
    };
    if !ok_viewer {
        return Err("linear connect did not return a viewer".to_string());
    }
    Ok(LinearConnection {
        source: "linear".to_string(),
        connected: true,
        workspace_name: nested_text_of(data, "organization", "name"),
        message: "connected".to_string(),
    })
}


/// What a GraphQL HTTP exchange yields: a refused key for 401 and 403, the
/// status for any other non-2xx answer, an error for a body that is not
/// JSON or that carries a non-empty `errors` array, else the payload.
pub open spec fn graphql_result(status: u16, body: Option<JsonModel>) -> Result<JsonModel, Seq<char>> {
    if !(200 <= status && status <= 299) {
        if status == 401 || status == 403 {
            Err("linear rejected the API key"@)
        } else {
            Err("linear http "@ + decimal_text(status as nat))
        }
    } else {
        match body {
            None => Err("linear returned a non-JSON body"@),
            Some(b) => match field(b, "errors"@) {
                Some(JsonModel::Array(errors)) => if errors.len() > 0 {
                    Err("linear graphql returned errors"@)
                } else {
                    Ok(b)
                },
                _ => Ok(b),
            },
        }
    }
}

/// The payload of a GraphQL exchange, from its HTTP status and its body as
/// parsed JSON (`None` when the body was not JSON).
pub fn graphql_outcome(status: u16, body: Option<Json>) -> (r: Result<Json, String>)
    ensures
        match r {
            Ok(j) => graphql_result(status, match body { Some(b) => Some(b@), None => None }) == Ok::<JsonModel, Seq<char>>(j@),
            Err(e) => graphql_result(status, match body { Some(b) => Some(b@), None => None }) == Err::<JsonModel, Seq<char>>(e@),
        },
{
    if !(200 <= status && status <= 299) {
        if status == 401 || status == 403 {
            return Err("linear rejected the API key".to_string());
        }
        let mut text = chars_of("linear http ");
        push_decimal(status as u64, &mut text);
        proof { reveal_strlit("linear http "); }
        return Err(string_from_chars(text.as_slice()));
    }
    match body {
        None => Err("linear returned a non-JSON body".to_string()),
        Some(b) => {
            let refused = match b.get("errors") {
                Some(e) => match e.as_array() {
                    Some(items) => {
                        proof { lemma_items_model(items@); }
                        items.len() > 0
                    },
                    None => false,
                },
                None => false,
            };
            if refused {
                Err("linear graphql returned errors".to_string())
            } else {
                Ok(b)
            }
        },
    }
}

/// The issues found among GraphQL nodes, in order, skipping nodes that do
/// not describe one.
pub open spec fn issues_of(nodes: Seq<JsonModel>, source: Seq<char>) -> Seq<IssueModel>
    decreases nodes.len(),
{
    if nodes.len() == 0 {
        Seq::empty()
    } else {
        issues_of(nodes.drop_last(), source) + match graphql_issue(nodes.last(), source) {
            Some(i) => seq![i],
            None => Seq::empty(),
        }
    }
}

/// The node list at `/data/<list>/nodes` of a payload.
pub open spec fn node_list(payload: JsonModel, list: Seq<char>) -> Option<JsonModel> {
    match field(payload, "data"@) {
        Some(d) => match field(d, list) {
            Some(l) => field(l, "nodes"@),
            None => None,
        },
        None => None,
    }
}

/// The issues of a list or search payload: the `issues` list for a blank
/// query, the `searchIssues` list otherwise; none when it is missing.
pub open spec fn payload_issues(payload: JsonModel, query: Seq<char>) -> Seq<IssueModel> {
    let list = if trim(query).len() == 0 { "issues"@ } else { "searchIssues"@ };
    match node_list(payload, list) {
        Some(JsonModel::Array(nodes)) => issues_of(nodes, "linear"@),
        _ => Seq::empty(),
    }
}

fn issues_from_nodes(nodes: &Vec<Json>, source: &str) -> (v: Vec<LinearIssue>)
    ensures
        issue_models(v@) == issues_of(items_model(nodes@), source@),
{
    proof { lemma_items_model(nodes@); }
    let ghost all = items_model(nodes@);
    let mut v: Vec<LinearIssue> = Vec::new();
    let mut i: usize = 0;
    while i < nodes.len()
        invariant
            i <= nodes@.len(),
            all == items_model(nodes@),
            all.len() == nodes@.len(),
            forall|k: int| 0 <= k < nodes@.len() ==> #[trigger] all[k] == json_model(nodes@[k]),
            issue_models(v@) == issues_of(all.take(i as int), source@),
        decreases nodes@.len() - i,
    {
        let found = issue_from_graphql(&nodes[i], source);
        let ghost before = v@;
        proof {
            assert(all.take(i as int + 1).drop_last() =~= all.take(i as int));
            assert(all.take(i as int + 1).last() == json_model(nodes@[i as int]));
        }
        match found {
            Some(issue) => {
                v.push(issue);
                proof { assert(issue_models(v@) =~= issue_models(before) + seq![v@.last()@]); }
            },
            None => {},
        }
        i += 1;
    }
    proof { assert(all.take(nodes@.len() as int) =~= all); }
    v
}

/// The issues of a list (blank query) or search payload.
pub fn issues_from_payload(payload: &Json, query: &str) -> (v: Vec<LinearIssue>)
    ensures
        issue_models(v@) == payload_issues(payload@, query@),
{
    let blank = trimmed(query).len() == 0;
    let list = if blank { "issues" } else { "searchIssues" };
    proof {
        reveal_strlit("issues");
        reveal_strlit("searchIssues");
    }
    let nodes = match payload.get("data") {
        Some(d) => match d.get(list) {
            Some(l) => l.get("nodes"),
            None => None,
        },
        None => None,
    };
    match nodes {
        Some(n) => match n.as_array() {
            Some(items) => issues_from_nodes(items, "linear"),
            None => {
                proof { assert(issue_models(Seq::<LinearIssue>::empty()) =~= Seq::<IssueModel>::empty()); }
                Vec::new()
            },
        },
        None => {
            proof { assert(issue_models(Seq::<LinearIssue>::empty()) =~= Seq::<IssueModel>::empty()); }
            Vec::new()
        },
    }
}

/// The issue of a single-issue payload: `/data/issue`, unless null or not
/// an issue.
pub open spec fn payload_issue(payload: JsonModel) -> Option<IssueModel> {
    match field(payload, "data"@) {
        Some(d) => match field(d, "issue"@) {
            Some(node) => if node is Null { None } else { graphql_issue(node, "linear"@) },
            None => None,
        },
        None => None,
    }
}

/// The issue of a single-issue payload.
pub fn issue_from_payload(payload: &Json) -> (r: Option<LinearIssue>)
    ensures
        match r {
            Some(i) => payload_issue(payload@) == Some(i@),
            None => payload_issue(payload@) is None,
        },
{
    match payload.get("data") {
        Some(d) => match d.get("issue") {
            Some(node) => if node.is_null() { None } else { issue_from_graphql(node, "linear") },
            None => None,
        },
        None => None,
    }
}


/// An issue matches a lowered query when the query is empty or occurs in
/// the lowered title or identifier.
pub open spec fn mock_match(issue: IssueModel, q: Seq<char>) -> bool {
    q.len() == 0 || contains(lower(issue.title), q) || contains(lower(issue.identifier), q)
}

/// The issues of `s` that match the lowered query `q`, in order.
pub open spec fn matching(s: Seq<IssueModel>, q: Seq<char>) -> Seq<IssueModel>
    decreases s.len(),
{
    if s.len() == 0 {
        Seq::empty()
    } else {
        matching(s.drop_last(), q) + if mock_match(s.last(), q) { seq![s.last()] } else { Seq::empty() }
    }
}

/// The issue with the same model.
pub fn copy_issue(i: &LinearIssue) -> (r: LinearIssue)
    ensures
        r@ == i@,
{
    LinearIssue {
        source: i.source.clone(),
        id: i.id.clone(),
        identifier: i.identifier.clone(),
        title: i.title.clone(),
        status: i.status.clone(),
        project_name: copy_opt(&i.project_name),
        url: copy_opt(&i.url),
        tank_id: copy_opt(&i.tank_id),
    }
}

/// The fixture issues that match `query`, compared in ASCII lower case.
pub fn mock_search(query: &str) -> (v: Vec<LinearIssue>)
    ensures
        issue_models(v@) == matching(seq![mock_issue_model()], lower(query@)),
        forall|k: int| 0 <= k < v@.len() ==> (#[trigger] v@[k]).source@ == "mock"@,
{
    let all = mock_issues();
    let ghost models = issue_models(all@);
    let q = lowered(&chars_of(query));
    let mut v: Vec<LinearIssue> = Vec::new();
    let mut i: usize = 0;
    while i < all.len()
        invariant
            i <= all@.len(),
            models == issue_models(all@),
            models == seq![mock_issue_model()],
            q@ == lower(query@),
            issue_models(v@) == matching(models.take(i as int), q@),
            forall|k: int| 0 <= k < v@.len() ==> (#[trigger] v@[k]).source@ == "mock"@,
        decreases all@.len() - i,
    {
        let issue = &all[i];
        let hit = q.len() == 0
            || chars_contains(&lowered(&chars_of(issue.title.as_str())), &q)
            || chars_contains(&lowered(&chars_of(issue.identifier.as_str())), &q);
        let ghost before = v@;
        proof {
            assert(models.take(i as int + 1).drop_last() =~= models.take(i as int));
            assert(models.take(i as int + 1).last() == models[i as int]);
            assert(models[i as int] == all@[i as int]@);
        }
        if hit {
            let c = copy_issue(issue);
            proof {
                assert(models[i as int] == mock_issue_model());
                assert(c@.source == "mock"@);
            }
            v.push(c);
            proof {
                assert(issue_models(v@) =~= issue_models(before) + seq![v@.last()@]);
                assert forall|k: int| 0 <= k < v@.len() implies (#[trigger] v@[k]).source@ == "mock"@ by {
                    if k < before.len() {
                        assert(v@[k] == before[k]);
                    }
                }
            }
        }
        i += 1;
    }
    proof { assert(models.take(all@.len() as int) =~= models); }
    v
}

/// The first issue of `s` whose id or identifier is `id`.
pub open spec fn find_issue(s: Seq<IssueModel>, id: Seq<char>) -> Option<IssueModel>
    decreases s.len(),
{
    if s.len() == 0 {
        None
    } else if s[0].id == id || s[0].identifier == id {
        Some(s[0])
    } else {
        find_issue(s.drop_first(), id)
    }
}

/// The fixture issue whose id or identifier is `id`.
pub fn mock_get(id: &str) -> (r: Option<LinearIssue>)
    ensures
        match r {
            Some(i) => find_issue(seq![mock_issue_model()], id@) == Some(i@),
            None => find_issue(seq![mock_issue_model()], id@) is None,
        },
{
    let all = mock_issues();
    let ghost models = issue_models(all@);
    let mut i: usize = 0;
    proof { assert(models.skip(0) =~= models); }
    while i < all.len()
        invariant
            i <= all@.len(),
            models == issue_models(all@),
            models == seq![mock_issue_model()],
            find_issue(models, id@) == find_issue(models.skip(i as int), id@),
        decreases all@.len() - i,
    {
        let issue = &all[i];
        proof {
            assert(models.skip(i as int)[0] == all@[i as int]@);
            assert(models.skip(i as int).drop_first() =~= models.skip(i as int + 1));
        }
        if str_eq(issue.id.as_str(), id) || str_eq(issue.identifier.as_str(), id) {
            return Some(copy_issue(issue));
        }
        i += 1;
    }
    proof { assert(models.skip(all@.len() as int) =~= Seq::<IssueModel>::empty()); }
    None
}

/// The error a result is refused with when it would carry the key.
pub open spec fn refusal_text(op: Seq<char>) -> Seq<char> {
    "linear "@ + op + " refused to emit a credential"@
}

/// Refuses a result whose JSON text would carry the secret.
pub fn refuse_if_secret(value: &Json, secret: &str, op: &str) -> (r: Result<(), String>)
    ensures
        leaks(value@, secret@) ==> (r matches Err(e) && e@ == refusal_text(op@)),
        !leaks(value@, secret@) ==> r is Ok,
{
    if json_has_secret(value, secret) {
        return Err("linear ".to_string().concat(op).concat(" refused to emit a credential"));
    }
    Ok(())
}

/// The key a connect request stores: the input trimmed, refused when blank.
pub open spec fn connect_key_result(api_key: Seq<char>) -> Result<Seq<char>, Seq<char>> {
    if trim(api_key).len() == 0 {
        Err("linear api key is required"@)
    } else {
        Ok(trim(api_key))
    }
}

/// The trimmed key of a connect request.
pub fn connect_key(api_key: &str) -> (r: Result<String, String>)
    ensures
        match r {
            Ok(k) => connect_key_result(api_key@) == Ok::<Seq<char>, Seq<char>>(k@),
            Err(e) => connect_key_result(api_key@) == Err::<Seq<char>, Seq<char>>(e@),
        },
{
    let k = trimmed(api_key);
    if k.len() == 0 {
        return Err("linear api key is required".to_string());
    }
    Ok(string_from_chars(k.as_slice()))
}

/// Whether a verified connection's key is kept: a live connected
/// workspace, or the explicit mock.
pub open spec fn keeps_key(c: ConnectionModel) -> bool {
    (c.source == "linear"@ && c.connected) || c.source == "mock"@
}

/// What a connect request answers once the transport has verified `key`:
/// the redacted transport error, a refusal when the connection would carry
/// the key, or the connection and whether to store the key.
pub open spec fn connect_result(key: Seq<char>, verified: Result<ConnectionModel, Seq<char>>) -> Result<(ConnectionModel, bool), Seq<char>> {
    match verified {
        Err(e) => Err(redacted(e, key)),
        Ok(c) => if leaks(connection_json(c), key) {
            Err(refusal_text("connect"@))
        } else {
            Ok((c, keeps_key(c)))
        },
    }
}

/// The model of a transport answer.
pub open spec fn answer_model(r: Result<LinearConnection, String>) -> Result<ConnectionModel, Seq<char>> {
    match r {
        Ok(c) => Ok(c@),
        Err(e) => Err(e@),
    }
}

/// Decides a connect request from the transport's verification of `key`.
/// On success the second value says whether the key is to be stored.
pub fn connect_outcome(key: &str, verified: Result<LinearConnection, String>) -> (r: Result<(LinearConnection, bool), String>)
    ensures
        match r {
            Ok((c, store)) => connect_result(key@, answer_model(verified)) == Ok::<(ConnectionModel, bool), Seq<char>>((c@, store)),
            Err(e) => connect_result(key@, answer_model(verified)) == Err::<(ConnectionModel, bool), Seq<char>>(e@),
        },
        r matches Ok((c, _)) ==> !leaks(connection_json(c@), key@),
{
    match verified {
        Err(e) => Err(redact_secret(e.as_str(), key)),
        Ok(c) => {
            let j = c.to_json();
            match refuse_if_secret(&j, key, "connect") {
                Err(e) => {
                    proof { reveal_strlit("connect"); }
                    Err(e)
                },
                Ok(()) => {
                    let live = str_eq(c.source.as_str(), "linear") && c.connected;
                    let mock = str_eq(c.source.as_str(), "mock");
                    Ok((c, live || mock))
                },
            }
        },
    }
}

/// What a status request answers once the transport has re-verified the
/// stored `key`: the connection, or a disconnected record with the
/// redacted error; refused when it would carry the key.
pub open spec fn connection_result(key: Seq<char>, verified: Result<ConnectionModel, Seq<char>>) -> Result<ConnectionModel, Seq<char>> {
    let c = match verified {
        Ok(c) => c,
        Err(m) => disconnected_model(redacted(m, key)),
    };
    if leaks(connection_json(c), key) {
        Err(refusal_text("connection"@))
    } else {
        Ok(c)
    }
}

/// Decides a status request from the transport's re-verification of the
/// stored `key`.
pub fn connection_outcome(key: &str, verified: Result<LinearConnection, String>) -> (r: Result<LinearConnection, String>)
    ensures
        match r {
            Ok(c) => connection_result(key@, answer_model(verified)) == Ok::<ConnectionModel, Seq<char>>(c@),
            Err(e) => connection_result(key@, answer_model(verified)) == Err::<ConnectionModel, Seq<char>>(e@),
        },
        r matches Ok(c) ==> !leaks(connection_json(c@), key@),
{
    let c = match verified {
        Ok(c) => c,
        Err(m) => disconnected(redact_secret(m.as_str(), key).as_str()),
    };
    let j = c.to_json();
    match refuse_if_secret(&j, key, "connection") {
        Err(e) => {
            proof { reveal_strlit("connection"); }
            Err(e)
        },
        Ok(()) => Ok(c),
    }
}

/// The stored key a search or get needs; without one no request is made.
pub fn stored_key(loaded: Option<String>) -> (r: Result<String, String>)
    ensures
        match loaded {
            Some(k) => r matches Ok(x) && x@ == k@,
            None => r matches Err(e) && e@ == "linear is not connected"@,
        },
{
    match loaded {
        Some(k) => Ok(k),
        None => Err("linear is not connected".to_string()),
    }
}

/// The JSON array a list of issues serializes to.
pub open spec fn issues_json(s: Seq<IssueModel>) -> JsonModel {
    JsonModel::Array(s.map_values(|i: IssueModel| issue_json(i)))
}

fn issues_to_json(v: &Vec<LinearIssue>) -> (j: Json)
    ensures
        j@ == issues_json(issue_models(v@)),
{
    let mut items: Vec<Json> = Vec::new();
    let mut i: usize = 0;
    while i < v.len()
        invariant
            i <= v@.len(),
            items@.len() == i,
            forall|k: int| 0 <= k < i ==> json_model(#[trigger] items@[k]) == issue_json(v@[k]@),
        decreases v@.len() - i,
    {
        items.push(v[i].to_json());
        i += 1;
    }
    proof {
        lemma_items_model(items@);
        assert(items_model(items@) =~= issue_models(v@).map_values(|i: IssueModel| issue_json(i)));
    }
    Json::Array(items)
}

/// The model of a search answer.
pub open spec fn found_models(r: Result<Vec<LinearIssue>, String>) -> Result<Seq<IssueModel>, Seq<char>> {
    match r {
        Ok(v) => Ok(issue_models(v@)),
        Err(e) => Err(e@),
    }
}

/// What a search answers: the redacted transport error, a refusal when the
/// issues would carry the key, or the issues.
pub open spec fn search_result(key: Seq<char>, found: Result<Seq<IssueModel>, Seq<char>>) -> Result<Seq<IssueModel>, Seq<char>> {
    match found {
        Err(e) => Err(redacted(e, key)),
        Ok(s) => if leaks(issues_json(s), key) { Err(refusal_text("search"@)) } else { Ok(s) },
    }
}

/// Decides a search from the transport's answer for the stored `key`.
pub fn search_outcome(key: &str, found: Result<Vec<LinearIssue>, String>) -> (r: Result<Vec<LinearIssue>, String>)
    ensures
        match r {
            Ok(v) => search_result(key@, found_models(found)) == Ok::<Seq<IssueModel>, Seq<char>>(issue_models(v@)),
            Err(e) => search_result(key@, found_models(found)) == Err::<Seq<IssueModel>, Seq<char>>(e@),
        },
        r matches Ok(v) ==> !leaks(issues_json(issue_models(v@)), key@),
{
    match found {
        Err(e) => Err(redact_secret(e.as_str(), key)),
        Ok(v) => {
            let j = issues_to_json(&v);
            match refuse_if_secret(&j, key, "search") {
                Err(e) => {
                    proof { reveal_strlit("search"); }
                    Err(e)
                },
                Ok(()) => Ok(v),
            }
        },
    }
}

/// The JSON an optional issue serializes to.
pub open spec fn maybe_issue_json(i: Option<IssueModel>) -> JsonModel {
    match i {
        Some(x) => issue_json(x),
        None => JsonModel::Null,
    }
}

/// The model of a get answer.
pub open spec fn got_model(r: Result<Option<LinearIssue>, String>) -> Result<Option<IssueModel>, Seq<char>> {
    match r {
        Ok(Some(i)) => Ok(Some(i@)),
        Ok(None) => Ok(None),
        Err(e) => Err(e@),
    }
}

/// What a get answers: the redacted transport error, a refusal when the
/// issue would carry the key, or the issue.
pub open spec fn get_result(key: Seq<char>, got: Result<Option<IssueModel>, Seq<char>>) -> Result<Option<IssueModel>, Seq<char>> {
    match got {
        Err(e) => Err(redacted(e, key)),
        Ok(i) => if leaks(maybe_issue_json(i), key) { Err(refusal_text("get issue"@)) } else { Ok(i) },
    }
}

/// Decides a get from the transport's answer for the stored `key`.
pub fn get_outcome(key: &str, got: Result<Option<LinearIssue>, String>) -> (r: Result<Option<LinearIssue>, String>)
    ensures
        match r {
            Ok(i) => get_result(key@, got_model(got)) == Ok::<Option<IssueModel>, Seq<char>>(match i { Some(x) => Some(x@), None => None }),
            Err(e) => get_result(key@, got_model(got)) == Err::<Option<IssueModel>, Seq<char>>(e@),
        },
        r matches Ok(i) ==> !leaks(maybe_issue_json(match i { Some(x) => Some(x@), None => None }), key@),
{
    match got {
        Err(e) => Err(redact_secret(e.as_str(), key)),
        Ok(i) => {
            let j = match &i {
                Some(x) => x.to_json(),
                None => Json::Null,
            };
            match refuse_if_secret(&j, key, "get issue") {
                Err(e) => {
                    proof { reveal_strlit("get issue"); }
                    Err(e)
                },
                Ok(()) => Ok(i),
            }
        },
    }
}


/// Viewer and organization of the key's workspace.
pub const CONNECT_QUERY: &'static str = "query AquariumConnect {\n  viewer { id name }\n  organization { id name urlKey }\n}";

/// Issues matching a search term.
pub const SEARCH_QUERY: &'static str = "query AquariumSearch($term: String!) {\n  searchIssues(term: $term, first: 25) {\n    nodes {\n      ... on Issue {\n        id\n        identifier\n        title\n        url\n        state { name }\n        project { name }\n      }\n    }\n  }\n}";

/// The first issues of the workspace.
pub const LIST_QUERY: &'static str = "query AquariumIssues {\n  issues(first: 25) {\n    nodes {\n      id\n      identifier\n      title\n      url\n      state { name }\n      project { name }\n    }\n  }\n}";

/// One issue by id or identifier.
pub const GET_QUERY: &'static str = "query AquariumIssue($id: String!) {\n  issue(id: $id) {\n    id\n    identifier\n    title\n    url\n    state { name }\n    project { name }\n  }\n}";

/// The body POSTed to the GraphQL endpoint: `{query, variables}`.
pub open spec fn graphql_body_json(query: Seq<char>, variables: JsonModel) -> JsonModel {
    JsonModel::Object(seq![("query"@, JsonModel::Str(query)), ("variables"@, variables)])
}

/// The body of a GraphQL request.
pub fn graphql_body(query: &str, variables: Json) -> (j: Json)
    ensures
        j@ == graphql_body_json(query@, variables@),
{
    let mut m: Vec<(String, Json)> = Vec::new();
    m.push(("query".to_string(), Json::Str(query.to_string())));
    let ghost vm = variables@;
    m.push(("variables".to_string(), variables));
    proof {
        lemma_members_model(m@);
        assert(members_model(m@) =~= seq![("query"@, JsonModel::Str(query@)), ("variables"@, vm)]);
    }
    Json::Object(m)
}

/// The object `{key: value}` of one string member.
pub open spec fn single_text(key: Seq<char>, value: Seq<char>) -> JsonModel {
    JsonModel::Object(seq![(key, JsonModel::Str(value))])
}

fn single(key: &str, value: &str) -> (j: Json)
    ensures
        j@ == single_text(key@, value@),
{
    let mut m: Vec<(String, Json)> = Vec::new();
    m.push((key.to_string(), Json::Str(value.to_string())));
    proof {
        lemma_members_model(m@);
        assert(members_model(m@) =~= seq![(key@, JsonModel::Str(value@))]);
    }
    Json::Object(m)
}

/// The GraphQL request a search sends: the issue list for a blank query,
/// a search for the (untrimmed) query otherwise.
pub open spec fn search_request_json(query: Seq<char>) -> JsonModel {
    if trim(query).len() == 0 {
        graphql_body_json(LIST_QUERY@, JsonModel::Object(Seq::empty()))
    } else {
        graphql_body_json(SEARCH_QUERY@, single_text("term"@, query))
    }
}

/// The GraphQL request body of a search for `query`.
pub fn search_request(query: &str) -> (j: Json)
    ensures
        j@ == search_request_json(query@),
{
    if trimmed(query).len() == 0 {
        proof { lemma_members_model(Seq::<(String, Json)>::empty()); }
        let empty = Json::Object(Vec::new());
        proof { assert(members_model(Seq::<(String, Json)>::empty()) =~= Seq::<(Seq<char>, JsonModel)>::empty()); }
        graphql_body(LIST_QUERY, empty)
    } else {
        graphql_body(SEARCH_QUERY, single("term", query))
    }
}

/// The GraphQL request body that fetches the issue `id`.
pub fn get_request(id: &str) -> (j: Json)
    ensures
        j@ == graphql_body_json(GET_QUERY@, single_text("id"@, id@)),
{
    graphql_body(GET_QUERY, single("id", id))
}

/// The GraphQL request body of the connect (viewer) query.
pub fn connect_request() -> (j: Json)
    ensures
        j@ == graphql_body_json(CONNECT_QUERY@, JsonModel::Object(Seq::empty())),
{
    proof { lemma_members_model(Seq::<(String, Json)>::empty()); }
    let empty = Json::Object(Vec::new());
    proof { assert(members_model(Seq::<(String, Json)>::empty()) =~= Seq::<(Seq<char>, JsonModel)>::empty()); }
    graphql_body(CONNECT_QUERY, empty)
}

/// The message of a failed HTTP exchange, by what failed.
pub open spec fn http_error_message(timed_out: bool, connect_failed: bool) -> Seq<char> {
    if timed_out {
        "linear unreachable: request timed out"@
    } else if connect_failed {
        "linear unreachable: could not connect"@
    } else {
        "linear unreachable: network error"@
    }
}

/// The message of a failed HTTP exchange; never the key or the URL.
pub fn http_error_text(timed_out: bool, connect_failed: bool) -> (m: String)
    ensures
        m@ == http_error_message(timed_out, connect_failed),
{
    if timed_out {
        "linear unreachable: request timed out".to_string()
    } else if connect_failed {
        "linear unreachable: could not connect".to_string()
    } else {
        "linear unreachable: network error".to_string()
    }
}


proof fn lemma_replace_prefix(u: Seq<char>, pat: Seq<char>, rep: Seq<char>, k: int)
    requires
        pat.len() > 0,
        rep.len() > 0,
        0 <= k <= replace_all(u, pat, rep).len(),
    ensures
        (k <= u.len() && replace_all(u, pat, rep).take(k) == u.take(k))
            || replace_all(u, pat, rep).take(k).contains(rep[0]),
    decreases u.len(),
{
    let t = replace_all(u, pat, rep);
    if u.len() < pat.len() {
    } else if u.take(pat.len() as int) == pat {
        if k > 0 {
            assert(t.take(k)[0] == rep[0]);
        } else {
            assert(t.take(0) =~= u.take(0));
        }
    } else {
        let rest = replace_all(u.drop_first(), pat, rep);
        assert(t == seq![u[0]] + rest);
        if k == 0 {
            assert(t.take(0) =~= u.take(0));
        } else {
            lemma_replace_prefix(u.drop_first(), pat, rep, k - 1);
            if k - 1 <= u.drop_first().len() && rest.take(k - 1) == u.drop_first().take(k - 1) {
                assert forall|m: int| 0 <= m < k implies t.take(k)[m] == u.take(k)[m] by {
                    if m > 0 {
                        assert(t[m] == rest[m - 1]);
                        assert(rest.take(k - 1)[m - 1] == u.drop_first().take(k - 1)[m - 1]);
                    }
                }
                assert(t.take(k) =~= u.take(k));
            } else {
                let j = choose|j: int| 0 <= j < rest.take(k - 1).len() && #[trigger] rest.take(k - 1)[j] == rep[0];
                assert(t.take(k)[j + 1] == rep[0]);
            }
        }
    }
}

proof fn lemma_replace_hides(s: Seq<char>, pat: Seq<char>, rep: Seq<char>)
    requires
        pat.len() > 0,
        rep.len() > 0,
        !pat.contains(rep[0]),
        !pat.contains(rep.last()),
        !contains(rep, pat),
    ensures
        !contains(replace_all(s, pat, rep), pat),
    decreases s.len(),
{
    let n = pat.len() as int;
    let t = replace_all(s, pat, rep);
    if s.len() < pat.len() {
    } else if s.take(n) == pat {
        let rest = replace_all(s.skip(n), pat, rep);
        lemma_replace_hides(s.skip(n), pat, rep);
        assert(t == rep + rest);
        if contains(t, pat) {
            let i = choose|i: int| 0 <= i && i + n <= t.len() && #[trigger] t.subrange(i, i + n) == pat;
            let r = rep.len() as int;
            if i + n <= r {
                assert(rep.subrange(i, i + n) =~= t.subrange(i, i + n));
            } else if i < r {
                assert(t.subrange(i, i + n)[r - 1 - i] == rep.last());
            } else {
                assert(rest.subrange(i - r, i - r + n) =~= t.subrange(i, i + n));
            }
        }
    } else {
        let rest = replace_all(s.drop_first(), pat, rep);
        lemma_replace_hides(s.drop_first(), pat, rep);
        assert(t == seq![s[0]] + rest);
        if contains(t, pat) {
            let i = choose|i: int| 0 <= i && i + n <= t.len() && #[trigger] t.subrange(i, i + n) == pat;
            if i >= 1 {
                assert(rest.subrange(i - 1, i - 1 + n) =~= t.subrange(i, i + n));
            } else {
                lemma_replace_prefix(s.drop_first(), pat, rep, n - 1);
                if n - 1 <= s.drop_first().len() && rest.take(n - 1) == s.drop_first().take(n - 1) {
                    assert forall|m: int| 0 <= m < n implies t.subrange(0, n)[m] == s.take(n)[m] by {
                        if m > 0 {
                            assert(t[m] == rest[m - 1]);
                            assert(rest.take(n - 1)[m - 1] == s.drop_first().take(n - 1)[m - 1]);
                        }
                    }
                    assert(t.subrange(0, n) =~= s.take(n));
                } else {
                    let j = choose|j: int| 0 <= j < rest.take(n - 1).len() && #[trigger] rest.take(n - 1)[j] == rep[0];
                    assert(t.subrange(0, n)[j + 1] == rep[0]);
                }
            }
        }
    }
}

/// Redaction leaves no trace of a key that holds no bracket and does not
/// occur inside the marker `[redacted]`: the redacted text never contains
/// the key.
pub proof fn lemma_redaction_hides_key(message: Seq<char>, key: Seq<char>)
    requires
        key.len() > 0,
        !key.contains('['),
        !key.contains(']'),
        !contains("[redacted]"@, key),
    ensures
        !contains(redacted(message, key), key),
{
    reveal_strlit("[redacted]");
    let rep = "[redacted]"@;
    assert(rep[0] == '[');
    assert(rep.last() == ']');
    if contains(message, key) {
        lemma_replace_hides(message, key, rep);
    }
}

/// An issue serializes field by field: id, identifier, source, status and
/// title under their own names, and each optional field (project name, tank,
/// URL) under its own name exactly when present.
pub proof fn lemma_issue_json_fields(i: IssueModel)
    ensures
        text_field(issue_json(i), "id"@) == Some(i.id),
        text_field(issue_json(i), "identifier"@) == Some(i.identifier),
        text_field(issue_json(i), "source"@) == Some(i.source),
        text_field(issue_json(i), "status"@) == Some(i.status),
        text_field(issue_json(i), "title"@) == Some(i.title),
        text_field(issue_json(i), "project_name"@) == i.project_name,
        text_field(issue_json(i), "tank_id"@) == i.tank_id,
        text_field(issue_json(i), "url"@) == i.url,
        field(issue_json(i), "project_name"@) is Some <==> i.project_name is Some,
        field(issue_json(i), "tank_id"@) is Some <==> i.tank_id is Some,
        field(issue_json(i), "url"@) is Some <==> i.url is Some,
{
    reveal_strlit("id");
    reveal_strlit("identifier");
    reveal_strlit("project_name");
    reveal_strlit("source");
    reveal_strlit("status");
    reveal_strlit("tank_id");
    reveal_strlit("title");
    reveal_strlit("url");
    assert("id"@.len() == 2 && "identifier"@.len() == 10 && "project_name"@.len() == 12 && "source"@.len() == 6 && "status"@.len() == 6 && "tank_id"@.len() == 7 && "title"@.len() == 5 && "url"@.len() == 3);
    assert("source"@[1] != "status"@[1]);
    let a = seq![("id"@, JsonModel::Str(i.id)), ("identifier"@, JsonModel::Str(i.identifier))];
    let b = opt_member("project_name"@, i.project_name);
    let c = seq![("source"@, JsonModel::Str(i.source)), ("status"@, JsonModel::Str(i.status))];
    let d = opt_member("tank_id"@, i.tank_id);
    let e = seq![("title"@, JsonModel::Str(i.title))];
    let f = opt_member("url"@, i.url);
    reveal_with_fuel(first_member, 3);
    lemma_first_member_concat(a, b, "id"@);
    lemma_first_member_concat(a + b, c, "id"@);
    lemma_first_member_concat(a + b + c, d, "id"@);
    lemma_first_member_concat(a + b + c + d, e, "id"@);
    lemma_first_member_concat(a + b + c + d + e, f, "id"@);
    lemma_first_member_concat(a, b, "identifier"@);
    lemma_first_member_concat(a + b, c, "identifier"@);
    lemma_first_member_concat(a + b + c, d, "identifier"@);
    lemma_first_member_concat(a + b + c + d, e, "identifier"@);
    lemma_first_member_concat(a + b + c + d + e, f, "identifier"@);
    lemma_first_member_concat(a, b, "project_name"@);
    lemma_first_member_concat(a + b, c, "project_name"@);
    lemma_first_member_concat(a + b + c, d, "project_name"@);
    lemma_first_member_concat(a + b + c + d, e, "project_name"@);
    lemma_first_member_concat(a + b + c + d + e, f, "project_name"@);
    lemma_first_member_concat(a, b, "source"@);
    lemma_first_member_concat(a + b, c, "source"@);
    lemma_first_member_concat(a + b + c, d, "source"@);
    lemma_first_member_concat(a + b + c + d, e, "source"@);
    lemma_first_member_concat(a + b + c + d + e, f, "source"@);
    lemma_first_member_concat(a, b, "status"@);
    lemma_first_member_concat(a + b, c, "status"@);
    lemma_first_member_concat(a + b + c, d, "status"@);
    lemma_first_member_concat(a + b + c + d, e, "status"@);
    lemma_first_member_concat(a + b + c + d + e, f, "status"@);
    lemma_first_member_concat(a, b, "tank_id"@);
    lemma_first_member_concat(a + b, c, "tank_id"@);
    lemma_first_member_concat(a + b + c, d, "tank_id"@);
    lemma_first_member_concat(a + b + c + d, e, "tank_id"@);
    lemma_first_member_concat(a + b + c + d + e, f, "tank_id"@);
    lemma_first_member_concat(a, b, "title"@);
    lemma_first_member_concat(a + b, c, "title"@);
    lemma_first_member_concat(a + b + c, d, "title"@);
    lemma_first_member_concat(a + b + c + d, e, "title"@);
    lemma_first_member_concat(a + b + c + d + e, f, "title"@);
    lemma_first_member_concat(a, b, "url"@);
    lemma_first_member_concat(a + b, c, "url"@);
    lemma_first_member_concat(a + b + c, d, "url"@);
    lemma_first_member_concat(a + b + c + d, e, "url"@);
    lemma_first_member_concat(a + b + c + d + e, f, "url"@);
}

/// A connection serializes field by field: connected, message and source
/// under their own names, the workspace name exactly when present.
pub proof fn lemma_connection_json_fields(c: ConnectionModel)
    ensures
        field(connection_json(c), "connected"@) == Some(JsonModel::Bool(c.connected)),
        text_field(connection_json(c), "message"@) == Some(c.message),
        text_field(connection_json(c), "source"@) == Some(c.source),
        text_field(connection_json(c), "workspace_name"@) == c.workspace_name,
        field(connection_json(c), "workspace_name"@) is Some <==> c.workspace_name is Some,
{
    reveal_strlit("connected");
    reveal_strlit("message");
    reveal_strlit("source");
    reveal_strlit("workspace_name");
    assert("connected"@.len() == 9 && "message"@.len() == 7 && "source"@.len() == 6 && "workspace_name"@.len() == 14);
    let a = seq![
        ("connected"@, JsonModel::Bool(c.connected)),
        ("message"@, JsonModel::Str(c.message)),
        ("source"@, JsonModel::Str(c.source)),
    ];
    let b = opt_member("workspace_name"@, c.workspace_name);
    reveal_with_fuel(first_member, 4);
    lemma_first_member_concat(a, b, "connected"@);
    lemma_first_member_concat(a, b, "message"@);
    lemma_first_member_concat(a, b, "source"@);
    lemma_first_member_concat(a, b, "workspace_name"@);
}

/// A viewer answer connects exactly when `data.viewer` is an object with a
/// string `id`; the connection is then the verified Linear one, named after
/// `data.organization.name` when there is one. Without `data` the answer is
/// the missing-data error.
pub proof fn lemma_viewer_connection(payload: JsonModel)
    ensures
        field(payload, "data"@) is None ==> viewer_connection(payload) == Err::<ConnectionModel, Seq<char>>("linear connect missing data"@),
        field(payload, "data"@) matches Some(data) ==> (
            viewer_connection(payload) is Ok <==> (field(data, "viewer"@) matches Some(v) && v is Object && text_field(v, "id"@) is Some)),
        viewer_connection(payload) matches Ok(c) ==> {
            &&& c.connected
            &&& c.source == "linear"@
            &&& c.message == "connected"@
            &&& field(payload, "data"@) matches Some(data) && (field(data, "organization"@) matches Some(o)
                    ==> c.workspace_name == text_field(o, "name"@))
        },
{
}

/// Issues are read from GraphQL nodes in order and never invented: every
/// issue found is the issue of one of the nodes, carries the given source,
/// and when every node describes an issue, each node gives exactly its own.
pub proof fn lemma_issues_come_from_nodes(nodes: Seq<JsonModel>, source: Seq<char>)
    ensures
        issues_of(nodes, source).len() <= nodes.len(),
        forall|i: int| 0 <= i < issues_of(nodes, source).len() ==> {
            &&& (#[trigger] issues_of(nodes, source)[i]).source == source
            &&& exists|k: int| 0 <= k < nodes.len() && graphql_issue(#[trigger] nodes[k], source) == Some(issues_of(nodes, source)[i])
        },
        (forall|k: int| 0 <= k < nodes.len() ==> (#[trigger] graphql_issue(nodes[k], source)) is Some) ==> {
            &&& issues_of(nodes, source).len() == nodes.len()
            &&& forall|k: int| 0 <= k < nodes.len() ==> Some(#[trigger] issues_of(nodes, source)[k]) == graphql_issue(nodes[k], source)
        },
    decreases nodes.len(),
{
    if nodes.len() > 0 {
        let init = nodes.drop_last();
        lemma_issues_come_from_nodes(init, source);
        let prev = issues_of(init, source);
        let all = issues_of(nodes, source);
        assert forall|i: int| 0 <= i < all.len() implies {
            &&& (#[trigger] all[i]).source == source
            &&& exists|k: int| 0 <= k < nodes.len() && graphql_issue(#[trigger] nodes[k], source) == Some(all[i])
        } by {
            if i < prev.len() {
                assert(all[i] == prev[i]);
                let k = choose|k: int| 0 <= k < init.len() && graphql_issue(#[trigger] init[k], source) == Some(prev[i]);
                assert(nodes[k] == init[k]);
            } else {
                assert(graphql_issue(nodes[nodes.len() - 1], source) == Some(all[i]));
            }
        }
        if forall|k: int| 0 <= k < nodes.len() ==> (#[trigger] graphql_issue(nodes[k], source)) is Some {
            assert forall|k: int| 0 <= k < init.len() implies (#[trigger] graphql_issue(init[k], source)) is Some by {
                assert(init[k] == nodes[k]);
                assert(graphql_issue(nodes[k], source) is Some);
            }
            assert(graphql_issue(nodes[nodes.len() - 1], source) is Some);
            assert forall|k: int| 0 <= k < nodes.len() implies Some(#[trigger] all[k]) == graphql_issue(nodes[k], source) by {
                if k < init.len() {
                    assert(init[k] == nodes[k]);
                    assert(Some(prev[k]) == graphql_issue(init[k], source));
                }
            }
        }
    }
}

/// A blank query lists `data.issues.nodes`; any other query reads
/// `data.searchIssues.nodes`; the issues come from the Linear source.
pub proof fn lemma_payload_issues_list(payload: JsonModel, query: Seq<char>)
    ensures
        trim(query).len() == 0 ==> (node_list(payload, "issues"@) matches Some(JsonModel::Array(nodes))
            ==> payload_issues(payload, query) == issues_of(nodes, "linear"@)),
        trim(query).len() > 0 ==> (node_list(payload, "searchIssues"@) matches Some(JsonModel::Array(nodes))
            ==> payload_issues(payload, query) == issues_of(nodes, "linear"@)),
        trim(query).len() == 0 ==> (!(node_list(payload, "issues"@) matches Some(JsonModel::Array(_)))
            ==> payload_issues(payload, query).len() == 0),
{
}

} // verus!
