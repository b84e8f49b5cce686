//! A JSON document as the protocol logic reads it, with a mathematical model
//! of every value.

use vstd::prelude::*;

verus! {

/// A JSON number: non-negative integer, negative integer, or any other
/// number kept as its decimal text.
#[derive(Debug, Clone, PartialEq)]
pub enum JsonNumber {
    /// A non-negative integer.
    Unsigned(u64),
    /// A negative integer.
    Negative(i64),
    /// A number with a fraction or exponent, as its shortest decimal text.
    Float(String),
}

/// A JSON value. Object members keep their order.
#[derive(Debug, PartialEq)]
pub enum Json {
    /// `null`.
    Null,
    /// `true` or `false`.
    Bool(bool),
    /// A number.
    Number(JsonNumber),
    /// A string.
    Str(String),
    /// An array.
    Array(Vec<Json>),
    /// An object, members in order.
    Object(Vec<(String, Json)>),
}

/// The mathematical value of a [`Json`].
pub enum JsonModel {
    /// `null`.
    Null,
    /// A boolean.
    Bool(bool),
    /// A non-negative integer.
    Unsigned(u64),
    /// A negative integer.
    Negative(i64),
    /// Any other number, as its decimal text.
    Float(Seq<char>),
    /// A string.
    Str(Seq<char>),
    /// An array.
    Array(Seq<JsonModel>),
    /// An object, members in order.
    Object(Seq<(Seq<char>, JsonModel)>),
}

/// The model of one value.
pub open spec fn json_model(j: Json) -> JsonModel
    decreases j, 1int,
{
    match j {
        Json::Null => JsonModel::Null,
        Json::Bool(b) => JsonModel::Bool(b),
        Json::Number(JsonNumber::Unsigned(n)) => JsonModel::Unsigned(n),
        Json::Number(JsonNumber::Negative(n)) => JsonModel::Negative(n),
        Json::Number(JsonNumber::Float(t)) => JsonModel::Float(t@),
        Json::Str(s) => JsonModel::Str(s@),
        Json::Array(v) => JsonModel::Array(items_model(v@)),
        Json::Object(m) => JsonModel::Object(members_model(m@)),
    }
}

/// The models of a sequence of values.
pub open spec fn items_model(s: Seq<Json>) -> Seq<JsonModel>
    decreases s, 0int,
{
    if s.len() == 0 {
        Seq::empty()
    } else {
        seq![json_model(s[0])] + items_model(s.subrange(1, s.len() as int))
    }
}

/// The models of a sequence of object members.
pub open spec fn members_model(s: Seq<(String, Json)>) -> Seq<(Seq<char>, JsonModel)>
    decreases s, 0int,
{
    if s.len() == 0 {
        Seq::empty()
    } else {
        seq![(s[0].0@, json_model(s[0].1))] + members_model(s.subrange(1, s.len() as int))
    }
}

impl View for Json {
    type V = JsonModel;

    open spec fn view(&self) -> JsonModel {
        json_model(*self)
    }
}


/// The models of `s` are, index by index, the models of its values.
pub proof fn lemma_items_model(s: Seq<Json>)
    ensures
        items_model(s).len() == s.len(),
        forall|i: int| 0 <= i < s.len() ==> #[trigger] items_model(s)[i] == json_model(s[i]),
    decreases s.len(),
{
    if s.len() > 0 {
        let rest = s.subrange(1, s.len() as int);
        lemma_items_model(rest);
        assert forall|i: int| 0 <= i < s.len() implies #[trigger] items_model(s)[i] == json_model(s[i]) by {
            if i > 0 {
                assert(rest[i - 1] == s[i]);
            }
        }
    }
}

/// The models of the members `s` are, index by index, the members' models.
pub proof fn lemma_members_model(s: Seq<(String, Json)>)
    ensures
        members_model(s).len() == s.len(),
        forall|i: int| 0 <= i < s.len() ==> #[trigger] members_model(s)[i] == (s[i].0@, json_model(s[i].1)),
    decreases s.len(),
{
    if s.len() > 0 {
        let rest = s.subrange(1, s.len() as int);
        lemma_members_model(rest);
        assert forall|i: int| 0 <= i < s.len() implies #[trigger] members_model(s)[i] == (s[i].0@, json_model(s[i].1)) by {
            if i > 0 {
                assert(rest[i - 1] == s[i]);
            }
        }
    }
}

/// The first member of `m` named `key`, if any.
pub open spec fn first_member(m: Seq<(Seq<char>, JsonModel)>, key: Seq<char>) -> Option<JsonModel>
    decreases m.len(),
{
    if m.len() == 0 {
        None
    } else if m[0].0 == key {
        Some(m[0].1)
    } else {
        first_member(m.subrange(1, m.len() as int), key)
    }
}

/// The member `key` of an object, as `serde_json::Value::get` finds it;
/// `None` for a missing member and for a value that is not an object.
pub open spec fn field(j: JsonModel, key: Seq<char>) -> Option<JsonModel> {
    match j {
        JsonModel::Object(m) => first_member(m, key),
        _ => None,
    }
}

/// The text of a string value.
pub open spec fn as_text(j: Option<JsonModel>) -> Option<Seq<char>> {
    match j {
        Some(JsonModel::Str(s)) => Some(s),
        _ => None,
    }
}

/// The value of a non-negative integer.
pub open spec fn as_unsigned(j: Option<JsonModel>) -> Option<u64> {
    match j {
        Some(JsonModel::Unsigned(n)) => Some(n),
        _ => None,
    }
}

/// The value of a boolean.
pub open spec fn as_flag(j: Option<JsonModel>) -> Option<bool> {
    match j {
        Some(JsonModel::Bool(b)) => Some(b),
        _ => None,
    }
}

/// The value is a number of any kind.
pub open spec fn is_number(j: JsonModel) -> bool {
    j is Unsigned || j is Negative || j is Float
}

/// The text of the string member `key`.
pub open spec fn text_field(j: JsonModel, key: Seq<char>) -> Option<Seq<char>> {
    as_text(field(j, key))
}

proof fn lemma_first_member_skip(m: Seq<(Seq<char>, JsonModel)>, key: Seq<char>, i: int)
    requires
        0 <= i <= m.len(),
        forall|k: int| 0 <= k < i ==> (#[trigger] m[k]).0 != key,
    ensures
        first_member(m, key) == first_member(m.subrange(i, m.len() as int), key),
    decreases i,
{
    if i > 0 {
        let rest = m.subrange(1, m.len() as int);
        assert forall|k: int| 0 <= k < i - 1 implies (#[trigger] rest[k]).0 != key by {
            assert(rest[k] == m[k + 1]);
        }
        lemma_first_member_skip(rest, key, i - 1);
        assert(rest.subrange(i - 1, rest.len() as int) == m.subrange(i, m.len() as int));
    } else {
        assert(m.subrange(0, m.len() as int) == m);
    }
}

/// Looking a key up in two member lists joined finds it in the first list
/// when it is there, and in the second otherwise.
pub proof fn lemma_first_member_concat(a: Seq<(Seq<char>, JsonModel)>, b: Seq<(Seq<char>, JsonModel)>, key: Seq<char>)
    ensures
        first_member(a + b, key) == (match first_member(a, key) {
            Some(v) => Some(v),
            None => first_member(b, key),
        }),
    decreases a.len(),
{
    if a.len() == 0 {
        assert(a + b =~= b);
    } else {
        assert((a + b).subrange(1, (a + b).len() as int) =~= a.subrange(1, a.len() as int) + b);
        lemma_first_member_concat(a.subrange(1, a.len() as int), b, key);
    }
}

/// In an object whose keys are pairwise distinct, looking up a member's key
/// finds that member's value.
pub proof fn lemma_field_of_distinct(m: Seq<(Seq<char>, JsonModel)>)
    requires
        forall|i: int, j: int| 0 <= i < j < m.len() ==> (#[trigger] m[i]).0 != (#[trigger] m[j]).0,
    ensures
        forall|i: int| 0 <= i < m.len() ==> field(JsonModel::Object(m), (#[trigger] m[i]).0) == Some(m[i].1),
{
    assert forall|i: int| 0 <= i < m.len() implies field(JsonModel::Object(m), (#[trigger] m[i]).0) == Some(m[i].1) by {
        assert forall|k: int| 0 <= k < i implies (#[trigger] m[k]).0 != m[i].0 by {}
        lemma_first_member_skip(m, m[i].0, i);
        assert(m.subrange(i, m.len() as int)[0] == m[i]);
    }
}

impl Json {
    /// A copy of this value with the same model.
    #[verifier::loop_isolation(false)]
    pub fn deep_clone(&self) -> (r: Json)
        ensures
            r@ == self@,
        decreases self,
    {
        match self {
            Json::Null => Json::Null,
            Json::Bool(b) => Json::Bool(*b),
            Json::Number(JsonNumber::Unsigned(n)) => Json::Number(JsonNumber::Unsigned(*n)),
            Json::Number(JsonNumber::Negative(n)) => Json::Number(JsonNumber::Negative(*n)),
            Json::Number(JsonNumber::Float(t)) => Json::Number(JsonNumber::Float(t.clone())),
            Json::Str(s) => Json::Str(s.clone()),
            Json::Array(items) => {
                let mut out: Vec<Json> = Vec::new();
                let mut i: usize = 0;
                while i < items.len()
                    invariant
                        i <= items@.len(),
                        out@.len() == i,
                        forall|k: int| 0 <= k < i ==> json_model(#[trigger] out@[k]) == json_model(items@[k]),
                    decreases items@.len() - i,
                {
                    assert(decreases_to!(self => items@[i as int]));
                    let c = items[i].deep_clone();
                    out.push(c);
                    i += 1;
                }
                proof {
                    lemma_items_model(out@);
                    lemma_items_model(items@);
                    assert(items_model(out@) == items_model(items@));
                }
                Json::Array(out)
            },
            Json::Object(members) => {
                let mut out: Vec<(String, Json)> = Vec::new();
                let mut i: usize = 0;
                while i < members.len()
                    invariant
                        i <= members@.len(),
                        out@.len() == i,
                        forall|k: int| 0 <= k < i ==> (#[trigger] out@[k]).0@ == members@[k].0@
                            && json_model(out@[k].1) == json_model(members@[k].1),
                    decreases members@.len() - i,
                {
                    assert(decreases_to!(self => members@[i as int].1));
                    let c = members[i].1.deep_clone();
                    let k = members[i].0.clone();
                    out.push((k, c));
                    i += 1;
                }
                proof {
                    lemma_members_model(out@);
                    lemma_members_model(members@);
                    assert(members_model(out@) == members_model(members@));
                }
                Json::Object(out)
            },
        }
    }

    /// The member `key`, if this is an object that has one.
    #[verifier::loop_isolation(false)]
    pub fn get(&self, key: &str) -> (r: Option<&Json>)
        ensures
            r matches Some(v) ==> field(self@, key@) == Some(v@),
            r is None ==> field(self@, key@) is None,
    {
        match self {
            Json::Object(members) => {
                proof {
                    lemma_members_model(members@);
                }
                let ghost m = members_model(members@);
                let mut i: usize = 0;
                while i < members.len()
                    invariant
                        i <= members@.len(),
                        m == members_model(members@),
                        m.len() == members@.len(),
                        forall|k: int| 0 <= k < members@.len() ==> #[trigger] m[k] == (members@[k].0@, json_model(members@[k].1)),
                        forall|k: int| 0 <= k < i ==> (#[trigger] m[k]).0 != key@,
                    decreases members@.len() - i,
                {
                    if crate::text::str_eq(members[i].0.as_str(), key) {
                        proof {
                            lemma_first_member_skip(m, key@, i as int);
                            let rest = m.subrange(i as int, m.len() as int);
                            assert(rest[0] == m[i as int]);
                        }
                        return Some(&members[i].1);
                    }
                    i += 1;
                }
                proof {
                    lemma_first_member_skip(m, key@, m.len() as int);
                }
                None
            },
            _ => None,
        }
    }

    /// The text, if this is a string.
    pub fn as_str(&self) -> (r: Option<&String>)
        ensures
            r matches Some(s) ==> self@ == JsonModel::Str(s@),
            r is None ==> !(self@ is Str),
    {
        match self {
            Json::Str(s) => Some(s),
            _ => None,
        }
    }

    /// The value, if this is a non-negative integer.
    pub fn as_u64(&self) -> (r: Option<u64>)
        ensures
            r == as_unsigned(Some(self@)),
    {
        match self {
            Json::Number(JsonNumber::Unsigned(n)) => Some(*n),
            _ => None,
        }
    }

    /// The value, if this is a boolean.
    pub fn as_bool(&self) -> (r: Option<bool>)
        ensures
            r == as_flag(Some(self@)),
    {
        match self {
            Json::Bool(b) => Some(*b),
            _ => None,
        }
    }

    /// The items, if this is an array.
    pub fn as_array(&self) -> (r: Option<&Vec<Json>>)
        ensures
            r matches Some(v) ==> self@ == JsonModel::Array(items_model(v@)),
            r is None ==> !(self@ is Array),
    {
        match self {
            Json::Array(v) => Some(v),
            _ => None,
        }
    }

    /// Whether this is a number.
    pub fn is_number(&self) -> (r: bool)
        ensures
            r == is_number(self@),
    {
        match self {
            Json::Number(_) => true,
            _ => false,
        }
    }

    /// Whether this is an object.
    pub fn is_object(&self) -> (r: bool)
        ensures
            r == (self@ is Object),
    {
        match self {
            Json::Object(_) => true,
            _ => false,
        }
    }

    /// Whether this is `null`.
    pub fn is_null(&self) -> (r: bool)
        ensures
            r == (self@ is Null),
    {
        match self {
            Json::Null => true,
            _ => false,
        }
    }
}

} // verus!
