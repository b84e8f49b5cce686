//! Canonical JSON text: members sorted by key, no insignificant white space,
//! strings escaped as the protocol's fingerprints expect.

use vstd::prelude::*;
use crate::json::{items_model, json_model, lemma_items_model, lemma_members_model, members_model, Json, JsonModel, JsonNumber};

verus! {

/// The decimal digit for `d` (below ten).
pub open spec fn digit_char(d: nat) -> char {
    (('0' as u32) + d) as char
}

/// The lowercase hexadecimal digit for `d` (below sixteen).
pub open spec fn hex_char(d: nat) -> char {
    if d < 10 {
        (('0' as u32) + d) as char
    } else {
        (('a' as u32) + (d - 10)) as char
    }
}

/// Decimal text of `n`, without leading zeros.
pub open spec fn decimal_text(n: nat) -> Seq<char>
    decreases n,
{
    if n < 10 {
        seq![digit_char(n)]
    } else {
        decimal_text(n / 10).push(digit_char(n % 10))
    }
}

/// How one character of a string is written inside quotes.
pub open spec fn escape_char(c: char) -> Seq<char> {
    if c == '"' {
        seq!['\\', '"']
    } else if c == '\\' {
        seq!['\\', '\\']
    } else if (c as u32) == 0x08 {
        seq!['\\', 'b']
    } else if (c as u32) == 0x0c {
        seq!['\\', 'f']
    } else if c == '\n' {
        seq!['\\', 'n']
    } else if c == '\r' {
        seq!['\\', 'r']
    } else if c == '\t' {
        seq!['\\', 't']
    } else if (c as u32) < 0x20 {
        seq!['\\', 'u', '0', '0', hex_char((c as u32 / 16) as nat), hex_char((c as u32 % 16) as nat)]
    } else {
        seq![c]
    }
}

/// The escaped characters of `s`.
pub open spec fn escape_text(s: Seq<char>) -> Seq<char>
    decreases s.len(),
{
    if s.len() == 0 {
        Seq::empty()
    } else {
        escape_text(s.drop_last()) + escape_char(s.last())
    }
}

/// `s` as a quoted JSON string.
pub open spec fn quoted(s: Seq<char>) -> Seq<char> {
    seq!['"'] + escape_text(s) + seq!['"']
}

/// The text of a JSON value.
pub open spec fn json_text(j: JsonModel) -> Seq<char>
    decreases j, 1int,
{
    match j {
        JsonModel::Null => seq!['n', 'u', 'l', 'l'],
        JsonModel::Bool(b) => if b { seq!['t', 'r', 'u', 'e'] } else { seq!['f', 'a', 'l', 's', 'e'] },
        JsonModel::Unsigned(n) => decimal_text(n as nat),
        JsonModel::Negative(n) => if n < 0 { seq!['-'] + decimal_text((-n) as nat) } else { decimal_text(n as nat) },
        JsonModel::Float(t) => t,
        JsonModel::Str(s) => quoted(s),
        JsonModel::Array(items) => seq!['['] + items_text(items) + seq![']'],
        JsonModel::Object(members) => seq!['{'] + members_text(members) + seq!['}'],
    }
}

/// The texts of `items`, separated by commas.
pub open spec fn items_text(items: Seq<JsonModel>) -> Seq<char>
    decreases items, 0int,
{
    if items.len() == 0 {
        Seq::empty()
    } else if items.len() == 1 {
        json_text(items[0])
    } else {
        items_text(items.subrange(0, items.len() - 1)) + seq![','] + json_text(items[items.len() - 1])
    }
}

/// The texts of `members`, separated by commas.
pub open spec fn members_text(members: Seq<(Seq<char>, JsonModel)>) -> Seq<char>
    decreases members, 0int,
{
    if members.len() == 0 {
        Seq::empty()
    } else if members.len() == 1 {
        quoted(members[0].0) + seq![':'] + json_text(members[0].1)
    } else {
        members_text(members.subrange(0, members.len() - 1)) + seq![','] + quoted(members[members.len() - 1].0)
            + seq![':'] + json_text(members[members.len() - 1].1)
    }
}

fn push_digit(d: u64, out: &mut Vec<char>)
    requires
        d < 10,
    ensures
        final(out)@ == old(out)@.push(digit_char(d as nat)),
{
    let c: u8 = 48 + (d as u8);
    out.push(c as char);
}

fn push_hex_digit(d: u32, out: &mut Vec<char>)
    requires
        d < 16,
    ensures
        final(out)@ == old(out)@.push(hex_char(d as nat)),
{
    if d < 10 {
        let c: u8 = 48 + (d as u8);
        out.push(c as char);
    } else {
        let c: u8 = 97 + ((d - 10) as u8);
        out.push(c as char);
    }
}

/// Appends the decimal text of `n`.
pub fn push_decimal(n: u64, out: &mut Vec<char>)
    ensures
        final(out)@ == old(out)@ + decimal_text(n as nat),
    decreases n,
{
    if n >= 10 {
        push_decimal(n / 10, out);
    }
    push_digit(n % 10, out);
    proof {
        if n < 10 {
            assert(n % 10 == n);
        }
    }
}

fn push_pair(out: &mut Vec<char>, c0: char, c1: char)
    ensures
        final(out)@ == old(out)@ + seq![c0, c1],
{
    out.push(c0);
    out.push(c1);
    proof {
        assert(final(out)@ =~= old(out)@ + seq![c0, c1]);
    }
}

/// Appends the escaped form of `c`.
pub fn push_escaped(c: char, out: &mut Vec<char>)
    ensures
        final(out)@ == old(out)@ + escape_char(c),
{
    let u = c as u32;
    if c == '"' {
        push_pair(out, '\\', '"');
    } else if c == '\\' {
        push_pair(out, '\\', '\\');
    } else if u == 0x08 {
        push_pair(out, '\\', 'b');
    } else if u == 0x0c {
        push_pair(out, '\\', 'f');
    } else if c == '\n' {
        push_pair(out, '\\', 'n');
    } else if c == '\r' {
        push_pair(out, '\\', 'r');
    } else if c == '\t' {
        push_pair(out, '\\', 't');
    } else if u < 0x20 {
        out.push('\\');
        out.push('u');
        out.push('0');
        out.push('0');
        push_hex_digit(u / 16, out);
        push_hex_digit(u % 16, out);
        proof {
            assert(final(out)@ =~= old(out)@ + escape_char(c));
        }
    } else {
        out.push(c);
        proof {
            assert(final(out)@ =~= old(out)@ + escape_char(c));
        }
    }
}

/// Appends `s` as a quoted JSON string.
pub fn push_quoted(s: &str, out: &mut Vec<char>)
    ensures
        final(out)@ == old(out)@ + quoted(s@),
{
    let chars = crate::text::chars_of(s);
    let ghost start = out@;
    out.push('"');
    let mut i: usize = 0;
    while i < chars.len()
        invariant
            i <= chars@.len(),
            chars@ == s@,
            out@ == start + seq!['"'] + escape_text(chars@.take(i as int)),
        decreases chars@.len() - i,
    {
        proof {
            assert(chars@.take(i as int + 1).drop_last() == chars@.take(i as int));
        }
        push_escaped(chars[i], out);
        i += 1;
    }
    out.push('"');
    proof {
        assert(chars@.take(chars@.len() as int) == chars@);
        assert(out@ =~= start + quoted(s@));
    }
}

/// Appends the text of `j`.
#[verifier::loop_isolation(false)]
#[verifier::spinoff_prover]
#[verifier::rlimit(50)]
pub fn push_json(j: &Json, out: &mut Vec<char>)
    ensures
        final(out)@ == old(out)@ + json_text(j@),
    decreases j,
{
    let ghost start = out@;
    match j {
        Json::Null => {
            out.push('n');
            out.push('u');
            out.push('l');
            out.push('l');
            proof { assert(out@ =~= start + json_text(j@)); }
        },
        Json::Bool(b) => {
            if *b {
                out.push('t');
                out.push('r');
                out.push('u');
                out.push('e');
            } else {
                out.push('f');
                out.push('a');
                out.push('l');
                out.push('s');
                out.push('e');
            }
            proof { assert(out@ =~= start + json_text(j@)); }
        },
        Json::Number(JsonNumber::Unsigned(n)) => {
            push_decimal(*n, out);
        },
        Json::Number(JsonNumber::Negative(n)) => {
            if *n < 0 {
                out.push('-');
                let m: u64 = (0i128 - (*n as i128)) as u64;
                push_decimal(m, out);
                proof { assert(out@ =~= start + json_text(j@)); }
            } else {
                push_decimal(*n as u64, out);
            }
        },
        Json::Number(JsonNumber::Float(t)) => {
            let chars = crate::text::chars_of(t.as_str());
            let mut i: usize = 0;
            while i < chars.len()
                invariant
                    i <= chars@.len(),
                    out@ == start + chars@.take(i as int),
                decreases chars@.len() - i,
            {
                out.push(chars[i]);
                i += 1;
                proof { assert(out@ =~= start + chars@.take(i as int)); }
            }
            proof { assert(chars@.take(chars@.len() as int) == chars@); }
        },
        Json::Str(s) => {
            push_quoted(s.as_str(), out);
        },
        Json::Array(items) => {
            proof { lemma_items_model(items@); }
            let ghost m = items_model(items@);
            out.push('[');
            let mut i: usize = 0;
            while i < items.len()
                invariant
                    i <= items@.len(),
                    m.len() == items@.len(),
                    out@ == start + seq!['['] + items_text(m.take(i as int)),
                decreases items@.len() - i,
            {
                if i > 0 {
                    out.push(',');
                }
                assert(decreases_to!(j => items@[i as int]));
                push_json(&items[i], out);
                proof {
                    let t = m.take(i as int + 1);
                    assert(t.subrange(0, t.len() - 1) == m.take(i as int));
                    assert(t[t.len() - 1] == json_model(items@[i as int]));
                    if i == 0 {
                        assert(m.take(0) == Seq::<JsonModel>::empty());
                    }
                    assert(out@ =~= start + seq!['['] + items_text(t));
                }
                i += 1;
            }
            out.push(']');
            proof {
                assert(m.take(m.len() as int) == m);
                assert(out@ =~= start + json_text(j@));
            }
        },
        Json::Object(members) => {
            proof { lemma_members_model(members@); }
            let ghost m = members_model(members@);
            out.push('{');
            let mut i: usize = 0;
            while i < members.len()
                invariant
                    i <= members@.len(),
                    m.len() == members@.len(),
                    out@ == start + seq!['{'] + members_text(m.take(i as int)),
                decreases members@.len() - i,
            {
                if i > 0 {
                    out.push(',');
                }
                push_quoted(members[i].0.as_str(), out);
                out.push(':');
                assert(decreases_to!(j => members@[i as int].1));
                push_json(&members[i].1, out);
                proof {
                    let t = m.take(i as int + 1);
                    assert(t.subrange(0, t.len() - 1) == m.take(i as int));
                    assert(t[t.len() - 1] == (members@[i as int].0@, json_model(members@[i as int].1)));
                    if i == 0 {
                        assert(m.take(0) == Seq::<(Seq<char>, JsonModel)>::empty());
                    }
                    assert(out@ =~= start + seq!['{'] + members_text(t));
                }
                i += 1;
            }
            out.push('}');
            proof {
                assert(m.take(m.len() as int) == m);
                assert(out@ =~= start + json_text(j@));
            }
        },
    }
}


/// `a` sorts strictly before `b`, comparing characters by code point, as
/// `String`'s ordering does.
pub open spec fn key_lt(a: Seq<char>, b: Seq<char>) -> bool
    decreases a.len(),
{
    if a.len() == 0 {
        b.len() > 0
    } else if b.len() == 0 {
        false
    } else if a[0] != b[0] {
        (a[0] as int) < (b[0] as int)
    } else {
        key_lt(a.drop_first(), b.drop_first())
    }
}

/// `x` inserted into `sorted` after every member whose key does not sort after it.
pub open spec fn insert_member(sorted: Seq<(Seq<char>, JsonModel)>, x: (Seq<char>, JsonModel)) -> Seq<(Seq<char>, JsonModel)>
    decreases sorted.len(),
{
    if sorted.len() == 0 {
        seq![x]
    } else if key_lt(x.0, sorted[0].0) {
        seq![x] + sorted
    } else {
        seq![sorted[0]] + insert_member(sorted.drop_first(), x)
    }
}

/// `m` sorted by key (stable insertion sort).
pub open spec fn sort_members(m: Seq<(Seq<char>, JsonModel)>) -> Seq<(Seq<char>, JsonModel)>
    decreases m.len(),
{
    if m.len() == 0 {
        Seq::empty()
    } else {
        insert_member(sort_members(m.drop_last()), m.last())
    }
}

/// The canonical form of a value: every object's members sorted by key.
pub open spec fn canonical(j: JsonModel) -> JsonModel
    decreases j, 1int,
{
    match j {
        JsonModel::Array(items) => JsonModel::Array(canonical_items(items)),
        JsonModel::Object(members) => JsonModel::Object(sort_members(canonical_members(members))),
        _ => j,
    }
}

/// The canonical forms of `items`.
pub open spec fn canonical_items(items: Seq<JsonModel>) -> Seq<JsonModel>
    decreases items, 0int,
{
    if items.len() == 0 {
        Seq::empty()
    } else {
        canonical_items(items.subrange(0, items.len() - 1)).push(canonical(items[items.len() - 1]))
    }
}

/// `members` with every value in canonical form, keys and order unchanged.
pub open spec fn canonical_members(members: Seq<(Seq<char>, JsonModel)>) -> Seq<(Seq<char>, JsonModel)>
    decreases members, 0int,
{
    if members.len() == 0 {
        Seq::empty()
    } else {
        canonical_members(members.subrange(0, members.len() - 1)).push(
            (members[members.len() - 1].0, canonical(members[members.len() - 1].1)),
        )
    }
}

proof fn lemma_key_lt_skip(a: Seq<char>, b: Seq<char>, i: int)
    requires
        0 <= i <= a.len(),
        i <= b.len(),
        a.take(i) == b.take(i),
    ensures
        key_lt(a, b) == key_lt(a.skip(i), b.skip(i)),
    decreases i,
{
    if i > 0 {
        assert(a[0] == a.take(i)[0]);
        assert(b[0] == b.take(i)[0]);
        assert(a.drop_first().take(i - 1) == a.take(i).drop_first());
        assert(b.drop_first().take(i - 1) == b.take(i).drop_first());
        lemma_key_lt_skip(a.drop_first(), b.drop_first(), i - 1);
        assert(a.drop_first().skip(i - 1) == a.skip(i));
        assert(b.drop_first().skip(i - 1) == b.skip(i));
    } else {
        assert(a.skip(0) == a);
        assert(b.skip(0) == b);
    }
}

/// Whether `a` sorts strictly before `b`.
pub fn key_less(a: &Vec<char>, b: &Vec<char>) -> (r: bool)
    ensures
        r == key_lt(a@, b@),
{
    let la = a.len();
    let lb = b.len();
    let mut i: usize = 0;
    while i < la && i < lb && a[i] == b[i]
        invariant
            i <= la,
            i <= lb,
            la == a@.len(),
            lb == b@.len(),
            a@.take(i as int) == b@.take(i as int),
        decreases la - i,
    {
        proof {
            assert(a@.take(i as int + 1) == a@.take(i as int).push(a@[i as int]));
            assert(b@.take(i as int + 1) == b@.take(i as int).push(b@[i as int]));
        }
        i += 1;
    }
    proof {
        lemma_key_lt_skip(a@, b@, i as int);
        if i < la && i < lb {
            assert(a@.skip(i as int)[0] == a@[i as int]);
            assert(b@.skip(i as int)[0] == b@[i as int]);
        }
    }
    if i == la {
        i < lb
    } else if i == lb {
        false
    } else {
        a[i] < b[i]
    }
}

proof fn lemma_insert_member_at(sorted: Seq<(Seq<char>, JsonModel)>, x: (Seq<char>, JsonModel), p: int)
    requires
        0 <= p <= sorted.len(),
        forall|q: int| 0 <= q < p ==> !key_lt(x.0, (#[trigger] sorted[q]).0),
        p == sorted.len() || key_lt(x.0, sorted[p].0),
    ensures
        insert_member(sorted, x) == sorted.take(p) + seq![x] + sorted.skip(p),
    decreases p,
{
    if p == 0 {
        if sorted.len() == 0 {
            assert(sorted.take(0) + seq![x] + sorted.skip(0) == seq![x]);
        } else {
            assert(sorted.take(0) + seq![x] + sorted.skip(0) == seq![x] + sorted);
        }
    } else {
        let rest = sorted.drop_first();
        assert forall|q: int| 0 <= q < p - 1 implies !key_lt(x.0, (#[trigger] rest[q]).0) by {
            assert(rest[q] == sorted[q + 1]);
        }
        if p - 1 < rest.len() {
            assert(rest[p - 1] == sorted[p]);
        }
        lemma_insert_member_at(rest, x, p - 1);
        assert(!key_lt(x.0, sorted[0].0));
        assert(seq![sorted[0]] + (rest.take(p - 1) + seq![x] + rest.skip(p - 1)) == sorted.take(p) + seq![x] + sorted.skip(p));
    }
}

fn key_chars(k: &String) -> (v: Vec<char>)
    ensures
        v@ == k@,
{
    crate::text::chars_of(k.as_str())
}

/// The canonical form of `j`: every object's members sorted by key.
#[verifier::loop_isolation(false)]
#[verifier::spinoff_prover]
#[verifier::rlimit(50)]
pub fn canonicalize(j: &Json) -> (r: Json)
    ensures
        r@ == canonical(j@),
    decreases j,
{
    match j {
        Json::Array(items) => {
            proof { lemma_items_model(items@); }
            let ghost m = items_model(items@);
            let mut out: Vec<Json> = Vec::new();
            let mut i: usize = 0;
            while i < items.len()
                invariant
                    i <= items@.len(),
                    m.len() == items@.len(),
                    items_model(out@) == canonical_items(m.take(i as int)),
                decreases items@.len() - i,
            {
                assert(decreases_to!(j => items@[i as int]));
                let c = canonicalize(&items[i]);
                proof {
                    lemma_items_model(out@);
                    lemma_items_model(out@.push(c));
                    let t = m.take(i as int + 1);
                    assert(t.subrange(0, t.len() - 1) == m.take(i as int));
                    assert(items_model(out@.push(c)) =~= items_model(out@).push(json_model(c)));
                }
                out.push(c);
                i += 1;
            }
            proof { assert(m.take(m.len() as int) == m); }
            Json::Array(out)
        },
        Json::Object(members) => {
            proof { lemma_members_model(members@); }
            let ghost m = members_model(members@);
            let mut out: Vec<(String, Json)> = Vec::new();
            let mut i: usize = 0;
            while i < members.len()
                invariant
                    i <= members@.len(),
                    m.len() == members@.len(),
                    sort_members(canonical_members(m.take(i as int))) == members_model(out@),
                decreases members@.len() - i,
            {
                assert(decreases_to!(j => members@[i as int].1));
                let c = canonicalize(&members[i].1);
                let key = members[i].0.clone();
                let kc = key_chars(&key);
                proof { lemma_members_model(out@); }
                let mut p: usize = 0;
                while p < out.len() && !key_less(&kc, &key_chars(&out[p].0))
                    invariant
                        p <= out@.len(),
                        members_model(out@).len() == out@.len(),
                        forall|q: int| 0 <= q < out@.len() ==> #[trigger] members_model(out@)[q] == (out@[q].0@, json_model(out@[q].1)),
                        forall|q: int| 0 <= q < p ==> !key_lt(kc@, (#[trigger] members_model(out@)[q]).0),
                    decreases out@.len() - p,
                {
                    p += 1;
                }
                let ghost before = members_model(out@);
                let ghost x = (key@, json_model(c));
                proof {
                    lemma_insert_member_at(before, x, p as int);
                    let t = m.take(i as int + 1);
                    assert(t.drop_last() == m.take(i as int));
                    assert(canonical_members(t).drop_last() =~= canonical_members(m.take(i as int)));
                    assert(canonical_members(t).last() == x);
                }
                out.insert(p, (key, c));
                proof {
                    lemma_members_model(out@);
                    assert(members_model(out@) =~= before.take(p as int) + seq![x] + before.skip(p as int));
                }
                i += 1;
            }
            proof { assert(m.take(m.len() as int) == m); }
            Json::Object(out)
        },
        Json::Null => Json::Null,
        Json::Bool(b) => Json::Bool(*b),
        Json::Number(JsonNumber::Unsigned(n)) => Json::Number(JsonNumber::Unsigned(*n)),
        Json::Number(JsonNumber::Negative(n)) => Json::Number(JsonNumber::Negative(*n)),
        Json::Number(JsonNumber::Float(t)) => Json::Number(JsonNumber::Float(t.clone())),
        Json::Str(s) => Json::Str(s.clone()),
    }
}


proof fn lemma_key_lt_order(a: Seq<char>, b: Seq<char>, c: Seq<char>)
    ensures
        !key_lt(a, a),
        key_lt(a, b) ==> !key_lt(b, a),
        a != b ==> key_lt(a, b) || key_lt(b, a),
        key_lt(a, b) && key_lt(b, c) ==> key_lt(a, c),
    decreases a.len(),
{
    if a.len() > 0 && b.len() > 0 {
        if c.len() > 0 {
            lemma_key_lt_order(a.drop_first(), b.drop_first(), c.drop_first());
        } else {
            lemma_key_lt_order(a.drop_first(), b.drop_first(), c);
        }
        if a[0] != b[0] {
            assert((a[0] as int) != (b[0] as int));
        }
        if a[0] == b[0] && a.drop_first() == b.drop_first() {
            assert forall|i: int| 0 <= i < a.len() implies a[i] == b[i] by {
                if i > 0 {
                    assert(a[i] == a.drop_first()[i - 1]);
                    assert(b[i] == b.drop_first()[i - 1]);
                }
            }
            assert(a =~= b);
        }
    } else if a.len() > 0 {
        lemma_key_lt_order(a.drop_first(), a.drop_first(), a.drop_first());
    }
    if a.len() == 0 && b.len() == 0 {
        assert(a =~= b);
    }
}

/// Inserting two members with different keys gives the same sequence in
/// either order.
proof fn lemma_insert_head(h: (Seq<char>, JsonModel), t: Seq<(Seq<char>, JsonModel)>, x: (Seq<char>, JsonModel))
    ensures
        insert_member(seq![h] + t, x) == if key_lt(x.0, h.0) { seq![x] + (seq![h] + t) } else { seq![h] + insert_member(t, x) },
{
    let s = seq![h] + t;
    assert(s[0] == h);
    assert(s.drop_first() =~= t);
}

proof fn lemma_insert_commutes(s: Seq<(Seq<char>, JsonModel)>, x: (Seq<char>, JsonModel), y: (Seq<char>, JsonModel))
    requires
        x.0 != y.0,
    ensures
        insert_member(insert_member(s, x), y) == insert_member(insert_member(s, y), x),
    decreases s.len(),
{
    let e = Seq::<(Seq<char>, JsonModel)>::empty();
    lemma_key_lt_order(x.0, y.0, x.0);
    if s.len() == 0 {
        assert(insert_member(s, x) == seq![x]);
        assert(insert_member(s, y) == seq![y]);
        assert(seq![x] =~= seq![x] + e);
        assert(seq![y] =~= seq![y] + e);
        lemma_insert_head(x, e, y);
        lemma_insert_head(y, e, x);
        assert(insert_member(e, x) == seq![x]);
        assert(insert_member(e, y) == seq![y]);
        assert(seq![x] + seq![y] =~= seq![x] + (seq![y] + e));
        assert(seq![y] + seq![x] =~= seq![y] + (seq![x] + e));
    } else {
        let h = s[0];
        let t = s.drop_first();
        assert(s =~= seq![h] + t);
        lemma_key_lt_order(x.0, h.0, y.0);
        lemma_key_lt_order(y.0, h.0, x.0);
        lemma_key_lt_order(y.0, x.0, h.0);
        lemma_key_lt_order(x.0, y.0, h.0);
        lemma_insert_head(h, t, x);
        lemma_insert_head(h, t, y);
        if key_lt(x.0, h.0) && key_lt(y.0, h.0) {
            lemma_insert_head(x, s, y);
            lemma_insert_head(y, s, x);
            lemma_insert_head(h, t, y);
            lemma_insert_head(h, t, x);
            assert(insert_member(s, y) == seq![y] + s);
            assert(insert_member(s, x) == seq![x] + s);
        } else if key_lt(x.0, h.0) {
            lemma_insert_head(x, s, y);
            lemma_insert_head(h, insert_member(t, y), x);
        } else if key_lt(y.0, h.0) {
            lemma_insert_head(y, s, x);
            lemma_insert_head(h, insert_member(t, x), y);
        } else {
            lemma_insert_commutes(t, x, y);
            lemma_insert_head(h, insert_member(t, x), y);
            lemma_insert_head(h, insert_member(t, y), x);
        }
    }
}

/// No two members share a key.
pub open spec fn keys_distinct(m: Seq<(Seq<char>, JsonModel)>) -> bool {
    forall|i: int, j: int| 0 <= i < j < m.len() ==> (#[trigger] m[i]).0 != (#[trigger] m[j]).0
}

/// Sorting `q` is inserting any one of its members into the sorted rest.
proof fn lemma_sort_remove(q: Seq<(Seq<char>, JsonModel)>, j: int)
    requires
        keys_distinct(q),
        0 <= j < q.len(),
    ensures
        sort_members(q) == insert_member(sort_members(q.remove(j)), q[j]),
    decreases q.len(),
{
    if j < q.len() - 1 {
        let d = q.drop_last();
        assert(keys_distinct(d)) by {
            assert forall|a: int, b: int| 0 <= a < b < d.len() implies (#[trigger] d[a]).0 != (#[trigger] d[b]).0 by {
                assert(d[a] == q[a] && d[b] == q[b]);
            }
        }
        assert(d[j] == q[j]);
        lemma_sort_remove(d, j);
        lemma_insert_commutes(sort_members(d.remove(j)), q[j], q.last());
        assert(q.remove(j).drop_last() =~= d.remove(j));
        assert(q.remove(j).last() == q.last());
    } else {
        assert(q.remove(j) =~= q.drop_last());
    }
}

/// The members of `m` with every value in canonical form.
proof fn lemma_canonical_members(m: Seq<(Seq<char>, JsonModel)>)
    ensures
        canonical_members(m).len() == m.len(),
        forall|i: int| 0 <= i < m.len() ==> #[trigger] canonical_members(m)[i] == (m[i].0, canonical(m[i].1)),
    decreases m.len(),
{
    if m.len() > 0 {
        let d = m.subrange(0, m.len() - 1);
        lemma_canonical_members(d);
        assert forall|i: int| 0 <= i < m.len() implies #[trigger] canonical_members(m)[i] == (m[i].0, canonical(m[i].1)) by {
            if i < m.len() - 1 {
                assert(d[i] == m[i]);
            }
        }
    }
}

/// Key order does not matter: two objects with distinct keys and the same
/// members, in whatever order, have the same canonical form.
pub proof fn lemma_canonical_ignores_member_order(m1: Seq<(Seq<char>, JsonModel)>, m2: Seq<(Seq<char>, JsonModel)>)
    requires
        keys_distinct(m1),
        keys_distinct(m2),
        m1.to_multiset() == m2.to_multiset(),
    ensures
        canonical(JsonModel::Object(m1)) == canonical(JsonModel::Object(m2)),
    decreases m1.len(),
{
    broadcast use vstd::seq_lib::group_to_multiset_ensures;
    broadcast use vstd::multiset::group_multiset_axioms;
    if m1.len() == 0 {
        assert(m1.to_multiset().len() == m1.len());
        assert(m2.to_multiset().len() == m2.len());
        assert(m2.len() == 0);
        assert(m1 =~= m2);
    } else {
        let x = m1.last();
        let d1 = m1.drop_last();
        assert(m1 =~= d1.push(x));
        assert(m1.to_multiset().count(x) > 0);
        assert(m2.contains(x));
        let j = choose|j: int| 0 <= j < m2.len() && m2[j] == x;
        let r2 = m2.remove(j);
        assert(r2.to_multiset() =~= m2.to_multiset().remove(x));
        assert(d1.to_multiset() =~= m1.to_multiset().remove(x));
        assert(keys_distinct(d1)) by {
            assert forall|a: int, b: int| 0 <= a < b < d1.len() implies (#[trigger] d1[a]).0 != (#[trigger] d1[b]).0 by {
                assert(d1[a] == m1[a] && d1[b] == m1[b]);
            }
        }
        assert(keys_distinct(r2)) by {
            assert forall|a: int, b: int| 0 <= a < b < r2.len() implies (#[trigger] r2[a]).0 != (#[trigger] r2[b]).0 by {
                let a2 = if a < j { a } else { a + 1 };
                let b2 = if b < j { b } else { b + 1 };
                assert(r2[a] == m2[a2] && r2[b] == m2[b2]);
            }
        }
        lemma_canonical_ignores_member_order(d1, r2);
        lemma_canonical_members(m1);
        lemma_canonical_members(m2);
        lemma_canonical_members(d1);
        lemma_canonical_members(r2);
        let c1 = canonical_members(m1);
        let c2 = canonical_members(m2);
        assert(m1.subrange(0, m1.len() - 1) =~= d1);
        assert(c1.drop_last() =~= canonical_members(d1));
        assert(c2.remove(j) =~= canonical_members(r2));
        assert(keys_distinct(c2)) by {
            assert forall|a: int, b: int| 0 <= a < b < c2.len() implies (#[trigger] c2[a]).0 != (#[trigger] c2[b]).0 by {
                assert(c2[a].0 == m2[a].0 && c2[b].0 == m2[b].0);
            }
        }
        lemma_sort_remove(c2, j);
        assert(c2[j] == c1.last());
    }
}

} // verus!
