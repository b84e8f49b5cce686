//! The local NIP-01 fan-out fixture's decisions: which subscription filters
//! an event matches, how each client frame is answered, and which frames a
//! published event fans out to. Sockets and channels are the host's.

use vstd::prelude::*;
use crate::json::{
    as_text, as_unsigned, field, items_model, json_model, lemma_items_model, lemma_members_model, members_model, Json,
    JsonModel,
};
use crate::adapter::text_or;
use crate::text::str_eq;

verus! {

/// The `i`-th item of an array value, as `serde_json::Value::get` with an
/// index finds it; `None` for a non-array or an index out of range.
pub open spec fn item(j: Option<JsonModel>, i: int) -> Option<JsonModel> {
    match j {
        Some(JsonModel::Array(s)) => if 0 <= i < s.len() { Some(s[i]) } else { None },
        _ => None,
    }
}

/// A `kinds` list, if present, holds the event's kind (compared as
/// optional unsigned integers).
pub open spec fn kinds_ok(event: JsonModel, filter: JsonModel) -> bool {
    match field(filter, "kinds"@) {
        Some(JsonModel::Array(kinds)) => exists|i: int|
            0 <= i < kinds.len() && as_unsigned(Some(#[trigger] kinds[i])) == as_unsigned(field(event, "kind"@)),
        _ => true,
    }
}

/// An `authors` list, if present, holds the event's pubkey (compared as
/// optional strings).
pub open spec fn authors_ok(event: JsonModel, filter: JsonModel) -> bool {
    match field(filter, "authors"@) {
        Some(JsonModel::Array(authors)) => exists|i: int|
            0 <= i < authors.len() && as_text(Some(#[trigger] authors[i])) == as_text(field(event, "pubkey"@)),
        _ => true,
    }
}

/// A tag is a `p` tag whose value is one of `ids`.
pub open spec fn p_tag_in(tag: JsonModel, ids: Seq<JsonModel>) -> bool {
    as_text(item(Some(tag), 0)) == Some("p"@)
        && exists|w: int| 0 <= w < ids.len() && as_text(item(Some(tag), 1)) == as_text(Some(#[trigger] ids[w]))
}

/// One of `tags` is a `p` tag whose value is one of `ids`.
pub open spec fn some_p_tag(tags: Seq<JsonModel>, ids: Seq<JsonModel>) -> bool {
    exists|t: int| 0 <= t < tags.len() && p_tag_in(#[trigger] tags[t], ids)
}

/// A `#p` list, if present, is met by one of the event's tags; an event
/// without a tag array never meets one.
pub open spec fn p_tags_ok(event: JsonModel, filter: JsonModel) -> bool {
    match field(filter, "#p"@) {
        Some(JsonModel::Array(ids)) => match field(event, "tags"@) {
            Some(JsonModel::Array(tags)) => some_p_tag(tags, ids),
            _ => false,
        },
        _ => true,
    }
}

/// The event meets every constraint the filter states.
pub open spec fn matches_filter(event: JsonModel, filter: JsonModel) -> bool {
    kinds_ok(event, filter) && authors_ok(event, filter) && p_tags_ok(event, filter)
}

fn get_item(j: &Json, i: usize) -> (r: Option<&Json>)
    ensures
        match r {
            Some(v) => item(Some(j@), i as int) == Some(v@),
            None => item(Some(j@), i as int) is None,
        },
{
    match j.as_array() {
        Some(items) => {
            proof { lemma_items_model(items@); }
            if i < items.len() {
                Some(&items[i])
            } else {
                None
            }
        },
        None => None,
    }
}

fn text_at(j: Option<&Json>) -> (r: Option<&String>)
    ensures
        match r {
            Some(t) => as_text(match j { Some(v) => Some(v@), None => None }) == Some(t@),
            None => as_text(match j { Some(v) => Some(v@), None => None }) is None,
        },
{
    match j {
        Some(v) => v.as_str(),
        None => None,
    }
}

fn opt_text_eq(a: Option<&String>, b: Option<&String>) -> (r: bool)
    ensures
        r == (match a { Some(x) => Some(x@), None => None::<Seq<char>> } == match b { Some(x) => Some(x@), None => None::<Seq<char>> }),
{
    match (a, b) {
        (Some(x), Some(y)) => str_eq(x.as_str(), y.as_str()),
        (None, None) => true,
        _ => false,
    }
}

fn check_kinds(event: &Json, filter: &Json) -> (r: bool)
    ensures
        r == kinds_ok(event@, filter@),
{
    let kinds = match filter.get("kinds") {
        Some(k) => match k.as_array() {
            Some(a) => a,
            None => return true,
        },
        None => return true,
    };
    proof { lemma_items_model(kinds@); }
    let kind = match event.get("kind") {
        Some(k) => k.as_u64(),
        None => None,
    };
    let ghost s = items_model(kinds@);
    let mut i: usize = 0;
    while i < kinds.len()
        invariant
            i <= kinds@.len(),
            s == items_model(kinds@),
            s.len() == kinds@.len(),
            forall|m: int| 0 <= m < kinds@.len() ==> #[trigger] s[m] == json_model(kinds@[m]),
            kind == as_unsigned(field(event@, "kind"@)),
            field(filter@, "kinds"@) == Some(JsonModel::Array(s)),
            forall|m: int| 0 <= m < i ==> as_unsigned(Some(#[trigger] s[m])) != kind,
        decreases kinds@.len() - i,
    {
        if kinds[i].as_u64() == kind {
            proof { assert(as_unsigned(Some(s[i as int])) == kind); }
            return true;
        }
        i += 1;
    }
    false
}

fn check_authors(event: &Json, filter: &Json) -> (r: bool)
    ensures
        r == authors_ok(event@, filter@),
{
    let authors = match filter.get("authors") {
        Some(k) => match k.as_array() {
            Some(a) => a,
            None => return true,
        },
        None => return true,
    };
    proof { lemma_items_model(authors@); }
    let pubkey = text_at(event.get("pubkey"));
    let ghost s = items_model(authors@);
    let mut i: usize = 0;
    while i < authors.len()
        invariant
            i <= authors@.len(),
            s == items_model(authors@),
            s.len() == authors@.len(),
            forall|m: int| 0 <= m < authors@.len() ==> #[trigger] s[m] == json_model(authors@[m]),
            (match pubkey { Some(x) => Some(x@), None => None::<Seq<char>> }) == as_text(field(event@, "pubkey"@)),
            field(filter@, "authors"@) == Some(JsonModel::Array(s)),
            forall|m: int| 0 <= m < i ==> as_text(Some(#[trigger] s[m])) != as_text(field(event@, "pubkey"@)),
        decreases authors@.len() - i,
    {
        if opt_text_eq(authors[i].as_str(), pubkey) {
            proof { assert(as_text(Some(s[i as int])) == as_text(field(event@, "pubkey"@))); }
            return true;
        }
        i += 1;
    }
    false
}

fn tag_matches(tag: &Json, ids: &Vec<Json>) -> (r: bool)
    ensures
        r == p_tag_in(tag@, items_model(ids@)),
{
    proof { lemma_items_model(ids@); }
    let name = text_at(get_item(tag, 0));
    let is_p = match name {
        Some(n) => str_eq(n.as_str(), "p"),
        None => false,
    };
    if !is_p {
        return false;
    }
    let value = text_at(get_item(tag, 1));
    let ghost s = items_model(ids@);
    let mut w: usize = 0;
    while w < ids.len()
        invariant
            w <= ids@.len(),
            s == items_model(ids@),
            s.len() == ids@.len(),
            forall|m: int| 0 <= m < ids@.len() ==> #[trigger] s[m] == json_model(ids@[m]),
            (match value { Some(x) => Some(x@), None => None::<Seq<char>> }) == as_text(item(Some(tag@), 1)),
            as_text(item(Some(tag@), 0)) == Some("p"@),
            forall|m: int| 0 <= m < w ==> as_text(item(Some(tag@), 1)) != as_text(Some(#[trigger] s[m])),
        decreases ids@.len() - w,
    {
        if opt_text_eq(value, ids[w].as_str()) {
            proof { assert(as_text(item(Some(tag@), 1)) == as_text(Some(s[w as int]))); }
            return true;
        }
        w += 1;
    }
    false
}

fn check_p_tags(event: &Json, filter: &Json) -> (r: bool)
    ensures
        r == p_tags_ok(event@, filter@),
{
    let ids = match filter.get("#p") {
        Some(k) => match k.as_array() {
            Some(a) => a,
            None => return true,
        },
        None => return true,
    };
    let tags = match event.get("tags") {
        Some(t) => match t.as_array() {
            Some(a) => a,
            None => return false,
        },
        None => return false,
    };
    proof { lemma_items_model(tags@); }
    let ghost s = items_model(tags@);
    let mut t: usize = 0;
    while t < tags.len()
        invariant
            t <= tags@.len(),
            s == items_model(tags@),
            s.len() == tags@.len(),
            forall|m: int| 0 <= m < tags@.len() ==> #[trigger] s[m] == json_model(tags@[m]),
            forall|m: int| 0 <= m < t ==> !p_tag_in(#[trigger] s[m], items_model(ids@)),
            field(filter@, "#p"@) == Some(JsonModel::Array(items_model(ids@))),
            field(event@, "tags"@) == Some(JsonModel::Array(s)),
        decreases tags@.len() - t,
    {
        if tag_matches(&tags[t], ids) {
            proof {
                assert(p_tag_in(s[t as int], items_model(ids@)));
                assert(some_p_tag(s, items_model(ids@)));
            }
            return true;
        }
        t += 1;
    }
    false
}

/// Whether `event` meets the subscription `filter` (kinds, authors, `#p`).
pub fn event_matches(event: &Json, filter: &Json) -> (r: bool)
    ensures
        r == matches_filter(event@, filter@),
{
    if !check_kinds(event, filter) {
        return false;
    }
    if !check_authors(event, filter) {
        return false;
    }
    check_p_tags(event, filter)
}

/// How the fixture answers one client frame.
#[derive(Debug)]
pub enum MuxStep {
    /// Send `reply` back to this client.
    Reply(Json),
    /// Fan `event` out to every connection, then send `reply` back.
    Publish {
        /// The published event.
        event: Json,
        /// The acknowledgement.
        reply: Json,
    },
    /// Record the subscription `sub` with `filter`, then send `reply` back.
    Subscribe {
        /// Subscription id.
        sub: String,
        /// Its filter.
        filter: Json,
        /// End of stored events.
        reply: Json,
    },
    /// Nothing to do.
    Ignore,
}

/// The mathematical value of a [`MuxStep`].
pub enum MuxStepModel {
    /// Reply only.
    Reply(JsonModel),
    /// Fan out, then reply.
    Publish(JsonModel, JsonModel),
    /// Subscribe, then reply.
    Subscribe(Seq<char>, JsonModel, JsonModel),
    /// Nothing.
    Ignore,
}

impl View for MuxStep {
    type V = MuxStepModel;

    open spec fn view(&self) -> MuxStepModel {
        match self {
            MuxStep::Reply(r) => MuxStepModel::Reply(r@),
            MuxStep::Publish { event, reply } => MuxStepModel::Publish(event@, reply@),
            MuxStep::Subscribe { sub, filter, reply } => MuxStepModel::Subscribe(sub@, filter@, reply@),
            MuxStep::Ignore => MuxStepModel::Ignore,
        }
    }
}

/// The acknowledgement `["OK", id, true, ""]`.
pub open spec fn ok_frame(id: Seq<char>) -> JsonModel {
    JsonModel::Array(seq![JsonModel::Str("OK"@), JsonModel::Str(id), JsonModel::Bool(true), JsonModel::Str(Seq::empty())])
}

/// The end-of-stored-events frame `["EOSE", sub]`.
pub open spec fn eose_frame(sub: Seq<char>) -> JsonModel {
    JsonModel::Array(seq![JsonModel::Str("EOSE"@), JsonModel::Str(sub)])
}

/// How a client frame (a JSON array) is answered: `AUTH` is acknowledged
/// with its event id, `EVENT` is fanned out and acknowledged, `REQ`
/// subscribes and ends stored events at once, anything else is ignored.
pub open spec fn client_step(frame: Seq<JsonModel>) -> MuxStepModel {
    let arr = Some(JsonModel::Array(frame));
    let kind = text_or(as_text(item(arr, 0)), Seq::empty());
    if kind == "AUTH"@ {
        let id = match item(arr, 1) {
            Some(e) => text_or(as_text(field(e, "id"@)), "auth"@),
            None => "auth"@,
        };
        MuxStepModel::Reply(ok_frame(id))
    } else if kind == "EVENT"@ {
        let event = match item(arr, 1) {
            Some(e) => e,
            None => JsonModel::Null,
        };
        MuxStepModel::Publish(event, ok_frame(text_or(as_text(field(event, "id"@)), Seq::empty())))
    } else if kind == "REQ"@ {
        let sub = text_or(as_text(item(arr, 1)), "sub"@);
        let filter = match item(arr, 2) {
            Some(f) => f,
            None => JsonModel::Object(Seq::empty()),
        };
        MuxStepModel::Subscribe(sub, filter, eose_frame(sub))
    } else {
        MuxStepModel::Ignore
    }
}

fn ok_json(id: String) -> (j: Json)
    ensures
        j@ == ok_frame(id@),
{
    let mut v: Vec<Json> = Vec::new();
    v.push(Json::Str("OK".to_string()));
    v.push(Json::Str(id));
    v.push(Json::Bool(true));
    v.push(Json::Str(String::new()));
    proof {
        lemma_items_model(v@);
        assert(items_model(v@) =~= ok_frame(v@[1]->Str_0@)->Array_0);
    }
    Json::Array(v)
}

/// The first frame a client receives: an `AUTH` challenge.
pub fn auth_challenge() -> (j: Json)
    ensures
        j@ == JsonModel::Array(seq![JsonModel::Str("AUTH"@), JsonModel::Str("aquarium-device-mux"@)]),
{
    let mut v: Vec<Json> = Vec::new();
    v.push(Json::Str("AUTH".to_string()));
    v.push(Json::Str("aquarium-device-mux".to_string()));
    proof {
        lemma_items_model(v@);
        assert(items_model(v@) =~= seq![JsonModel::Str("AUTH"@), JsonModel::Str("aquarium-device-mux"@)]);
    }
    Json::Array(v)
}

/// Decide how to answer one client frame.
pub fn answer_frame(frame: &Vec<Json>) -> (r: MuxStep)
    ensures
        r@ == client_step(items_model(frame@)),
{
    proof { lemma_items_model(frame@); }
    let whole = Ghost(JsonModel::Array(items_model(frame@)));
    let first: Option<&Json> = if frame.len() > 0 { Some(&frame[0]) } else { None };
    let second: Option<&Json> = if frame.len() > 1 { Some(&frame[1]) } else { None };
    let third: Option<&Json> = if frame.len() > 2 { Some(&frame[2]) } else { None };
    proof {
        assert(item(Some(whole@), 0) == match first { Some(v) => Some(v@), None => None::<JsonModel> });
        assert(item(Some(whole@), 1) == match second { Some(v) => Some(v@), None => None::<JsonModel> });
        assert(item(Some(whole@), 2) == match third { Some(v) => Some(v@), None => None::<JsonModel> });
    }
    let kind = match text_at(first) {
        Some(k) => k.clone(),
        None => String::new(),
    };
    if str_eq(kind.as_str(), "AUTH") {
        let id = match second {
            Some(e) => match text_at(e.get("id")) {
                Some(t) => t.clone(),
                None => "auth".to_string(),
            },
            None => "auth".to_string(),
        };
        MuxStep::Reply(ok_json(id))
    } else if str_eq(kind.as_str(), "EVENT") {
        let event = match second {
            Some(e) => e.deep_clone(),
            None => Json::Null,
        };
        let id = match text_at(event.get("id")) {
            Some(t) => t.clone(),
            None => String::new(),
        };
        MuxStep::Publish { event, reply: ok_json(id) }
    } else if str_eq(kind.as_str(), "REQ") {
        let sub = match text_at(second) {
            Some(t) => t.clone(),
            None => "sub".to_string(),
        };
        let filter = match third {
            Some(f) => f.deep_clone(),
            None => Json::Object(Vec::new()),
        };
        proof { lemma_members_model(Seq::<(String, Json)>::empty()); }
        let mut reply: Vec<Json> = Vec::new();
        reply.push(Json::Str("EOSE".to_string()));
        reply.push(Json::Str(sub.clone()));
        proof {
            lemma_items_model(reply@);
            assert(items_model(reply@) =~= eose_frame(sub@)->Array_0);
            assert(members_model(Seq::<(String, Json)>::empty()) =~= Seq::<(Seq<char>, JsonModel)>::empty());
        }
        MuxStep::Subscribe { sub, filter, reply: Json::Array(reply) }
    } else {
        MuxStep::Ignore
    }
}

/// The frames `["EVENT", sub, event]` a published event is delivered in, one
/// per matching subscription, in subscription order.
pub open spec fn fanout(event: JsonModel, subs: Seq<(Seq<char>, JsonModel)>) -> Seq<JsonModel>
    decreases subs.len(),
{
    if subs.len() == 0 {
        Seq::empty()
    } else {
        fanout(event, subs.drop_last()) + if matches_filter(event, subs.last().1) {
            seq![JsonModel::Array(seq![JsonModel::Str("EVENT"@), JsonModel::Str(subs.last().0), event])]
        } else {
            Seq::empty()
        }
    }
}

/// The frames that deliver `event` to the subscriptions `subs`.
pub fn fanout_frames(event: &Json, subs: &Vec<(String, Json)>) -> (v: Vec<Json>)
    ensures
        items_model(v@) == fanout(event@, members_model(subs@)),
{
    proof { lemma_members_model(subs@); }
    let ghost all = members_model(subs@);
    let mut v: Vec<Json> = Vec::new();
    let mut i: usize = 0;
    while i < subs.len()
        invariant
            i <= subs@.len(),
            all == members_model(subs@),
            all.len() == subs@.len(),
            forall|m: int| 0 <= m < subs@.len() ==> #[trigger] all[m] == (subs@[m].0@, json_model(subs@[m].1)),
            items_model(v@) == fanout(event@, all.take(i as int)),
        decreases subs@.len() - i,
    {
        proof {
            assert(all.take(i as int + 1).drop_last() =~= all.take(i as int));
            assert(all.take(i as int + 1).last() == all[i as int]);
            lemma_items_model(v@);
        }
        if event_matches(event, &subs[i].1) {
            let ghost before = v@;
            let mut frame: Vec<Json> = Vec::new();
            frame.push(Json::Str("EVENT".to_string()));
            frame.push(Json::Str(subs[i].0.clone()));
            frame.push(event.deep_clone());
            proof {
                lemma_items_model(frame@);
                assert(items_model(frame@) =~= seq![JsonModel::Str("EVENT"@), JsonModel::Str(subs@[i as int].0@), event@]);
            }
            v.push(Json::Array(frame));
            proof {
                lemma_items_model(v@);
                lemma_items_model(before);
                assert(items_model(v@) =~= items_model(before) + seq![json_model(v@.last())]);
            }
        }
        i += 1;
    }
    proof { assert(all.take(subs@.len() as int) =~= all); }
    v
}

/// Each client frame is answered as its kind says: an `EVENT` frame fans its
/// event out and acknowledges the event's id; a `REQ` frame subscribes under
/// its id with its filter and ends stored events for that id; an `AUTH`
/// frame is acknowledged with its event's id.
pub proof fn lemma_client_frames_answered(event: JsonModel, sub: Seq<char>, filter: JsonModel, id: Seq<char>)
    requires
        field(event, "id"@) == Some(JsonModel::Str(id)),
    ensures
        client_step(seq![JsonModel::Str("EVENT"@), event]) == MuxStepModel::Publish(event,
            JsonModel::Array(seq![JsonModel::Str("OK"@), JsonModel::Str(id), JsonModel::Bool(true), JsonModel::Str(Seq::empty())])),
        client_step(seq![JsonModel::Str("REQ"@), JsonModel::Str(sub), filter]) == MuxStepModel::Subscribe(sub, filter,
            JsonModel::Array(seq![JsonModel::Str("EOSE"@), JsonModel::Str(sub)])),
        client_step(seq![JsonModel::Str("AUTH"@), event]) == MuxStepModel::Reply(
            JsonModel::Array(seq![JsonModel::Str("OK"@), JsonModel::Str(id), JsonModel::Bool(true), JsonModel::Str(Seq::empty())])),
{
    reveal_strlit("EVENT");
    reveal_strlit("REQ");
    reveal_strlit("AUTH");
    assert("EVENT"@.len() == 5 && "REQ"@.len() == 3 && "AUTH"@.len() == 4);
}

} // verus!
