//! Character-level string helpers: whitespace trimming, ASCII case folding
//! and the hex-key comparison that every peer check in this crate uses.

use vstd::prelude::*;

verus! {

/// `c` is Unicode white space, exactly the set that `char::is_whitespace` accepts.
pub open spec fn is_ws(c: char) -> bool {
    let u = c as u32;
    (0x09 <= u && u <= 0x0d) || u == 0x20 || u == 0x85 || u == 0xa0 || u == 0x1680
        || (0x2000 <= u && u <= 0x200a) || u == 0x2028 || u == 0x2029 || u == 0x202f
        || u == 0x205f || u == 0x3000
}

/// `s` with leading white space removed.
pub open spec fn trim_start(s: Seq<char>) -> Seq<char>
    decreases s.len(),
{
    if s.len() > 0 && is_ws(s[0]) {
        trim_start(s.drop_first())
    } else {
        s
    }
}

/// `s` with trailing white space removed.
pub open spec fn trim_end(s: Seq<char>) -> Seq<char>
    decreases s.len(),
{
    if s.len() > 0 && is_ws(s.last()) {
        trim_end(s.drop_last())
    } else {
        s
    }
}

/// `s` with white space removed at both ends, as `str::trim` does.
pub open spec fn trim(s: Seq<char>) -> Seq<char> {
    trim_end(trim_start(s))
}

/// ASCII upper-case letters mapped to lower case; every other char unchanged.
pub open spec fn lower_char(c: char) -> char {
    if 'A' <= c && c <= 'Z' {
        ((c as u32) + 32) as char
    } else {
        c
    }
}

/// `s` with ASCII letters lowered, as `str::to_ascii_lowercase` does.
pub open spec fn lower(s: Seq<char>) -> Seq<char> {
    s.map_values(|c: char| lower_char(c))
}

/// Equality up to ASCII case, as `str::eq_ignore_ascii_case` decides it.
pub open spec fn eq_ignore_case(a: Seq<char>, b: Seq<char>) -> bool {
    lower(a) == lower(b)
}

/// Two hex keys name the same key: equal after trimming, up to ASCII case.
pub open spec fn same_key(a: Seq<char>, b: Seq<char>) -> bool {
    eq_ignore_case(trim(a), trim(b))
}

/// The characters of `s`, in order.
pub fn chars_of(s: &str) -> (v: Vec<char>)
    ensures
        v@ == s@,
{
    let mut v: Vec<char> = Vec::new();
    for c in it: s.chars()
        invariant
            it.seq() == s@,
            v@ == it.seq().take(it.index() as int),
    {
        v.push(c);
    }
    v
}


/// `needle` occurs in `hay` as a contiguous run.
pub open spec fn contains(hay: Seq<char>, needle: Seq<char>) -> bool {
    exists|i: int| 0 <= i && i + needle.len() <= hay.len() && #[trigger] hay.subrange(i, i + needle.len()) == needle
}

proof fn lemma_trim_start(s: Seq<char>, k: int)
    requires
        0 <= k <= s.len(),
        forall|m: int| 0 <= m < k ==> is_ws(#[trigger] s[m]),
        k == s.len() || !is_ws(s[k]),
    ensures
        trim_start(s) == s.subrange(k, s.len() as int),
    decreases k,
{
    if k > 0 {
        lemma_trim_start(s.drop_first(), k - 1);
        assert(s.drop_first().subrange(k - 1, s.drop_first().len() as int) == s.subrange(k, s.len() as int));
    } else {
        assert(s.subrange(0, s.len() as int) == s);
    }
}

proof fn lemma_trim_end(s: Seq<char>, j: int)
    requires
        0 <= j <= s.len(),
        forall|m: int| j <= m < s.len() ==> is_ws(#[trigger] s[m]),
        j == 0 || !is_ws(s[j - 1]),
    ensures
        trim_end(s) == s.subrange(0, j),
    decreases s.len() - j,
{
    if j < s.len() {
        lemma_trim_end(s.drop_last(), j);
        assert(s.drop_last().subrange(0, j) == s.subrange(0, j));
    } else {
        assert(s.subrange(0, j) == s);
    }
}

proof fn lemma_trim_start_suffix(s: Seq<char>)
    ensures
        trim_start(s).len() <= s.len(),
        trim_start(s) == s.subrange(s.len() - trim_start(s).len(), s.len() as int),
        s.len() > 0 && is_ws(s[0]) ==> trim_start(s).len() < s.len(),
    decreases s.len(),
{
    if s.len() > 0 && is_ws(s[0]) {
        lemma_trim_start_suffix(s.drop_first());
        assert(s.drop_first().subrange(s.len() - 1 - trim_start(s).len(), s.len() - 1)
            == s.subrange(s.len() - trim_start(s).len(), s.len() as int));
    } else {
        assert(s.subrange(0, s.len() as int) == s);
    }
}

proof fn lemma_trim_end_shrinks(s: Seq<char>)
    ensures
        trim_end(s).len() <= s.len(),
        s.len() > 0 && is_ws(s.last()) ==> trim_end(s).len() < s.len(),
    decreases s.len(),
{
    if s.len() > 0 && is_ws(s.last()) {
        lemma_trim_end_shrinks(s.drop_last());
    }
}

/// Text that trimming leaves unchanged keeps it unchanged after a newline
/// is appended and trimmed away again.
pub proof fn lemma_trim_drops_newline(s: Seq<char>)
    requires
        trim(s) == s,
    ensures
        trim(s + seq!['\n']) == s,
{
    lemma_trim_start_suffix(s);
    let t = trim_start(s);
    lemma_trim_end_shrinks(t);
    if s.len() > 0 {
        assert(!is_ws(s[0]));
        if t.len() > 0 {
            assert(t.last() == s.last());
        }
        assert(!is_ws(s.last()));
    }
    let u = s + seq!['\n'];
    assert(is_ws('\n'));
    if s.len() > 0 {
        lemma_trim_start(u, 0);
        assert(u.subrange(0, u.len() as int) == u);
        lemma_trim_end(u, s.len() as int);
        assert(u.subrange(0, s.len() as int) == s);
    } else {
        lemma_trim_start(u, 1);
        assert(u.subrange(1, 1) == s);
    }
}

/// `all` with white space trimmed at both ends.
pub fn trim_chars(all: &Vec<char>) -> (v: Vec<char>)
    ensures
        v@ == trim(all@),
{
    let n = all.len();
    let mut k: usize = 0;
    while k < n && is_ws_exec(all[k])
        invariant
            k <= n,
            n == all@.len(),
            forall|m: int| 0 <= m < k ==> is_ws(#[trigger] all@[m]),
        decreases n - k,
    {
        k += 1;
    }
    let mut j: usize = n;
    while j > k && is_ws_exec(all[j - 1])
        invariant
            k <= j <= n,
            n == all@.len(),
            forall|m: int| j <= m < n ==> is_ws(#[trigger] all@[m]),
        decreases j,
    {
        j -= 1;
    }
    let mut v: Vec<char> = Vec::new();
    let mut i: usize = k;
    while i < j
        invariant
            k <= i <= j <= n,
            n == all@.len(),
            v@ == all@.subrange(k as int, i as int),
        decreases j - i,
    {
        v.push(all[i]);
        i += 1;
    }
    proof {
        lemma_trim_start(all@, k as int);
        let rest = all@.subrange(k as int, n as int);
        assert forall|m: int| (j - k) <= m < rest.len() implies is_ws(#[trigger] rest[m]) by {
            assert(rest[m] == all@[m + k]);
        }
        if j > k {
            assert(rest[j - k - 1] == all@[j - 1]);
        }
        lemma_trim_end(rest, j - k);
        assert(rest.subrange(0, j - k) == all@.subrange(k as int, j as int));
    }
    v
}

/// The characters of `s` with white space trimmed at both ends.
pub fn trimmed(s: &str) -> (v: Vec<char>)
    ensures
        v@ == trim(s@),
{
    let all = chars_of(s);
    trim_chars(&all)
}

/// Exec form of [`is_ws`].
pub fn is_ws_exec(c: char) -> (b: bool)
    ensures
        b == is_ws(c),
{
    let u = c as u32;
    (0x09 <= u && u <= 0x0d) || u == 0x20 || u == 0x85 || u == 0xa0 || u == 0x1680
        || (0x2000 <= u && u <= 0x200a) || u == 0x2028 || u == 0x2029 || u == 0x202f
        || u == 0x205f || u == 0x3000
}

/// Exec form of [`lower_char`].
pub fn lower_char_exec(c: char) -> (r: char)
    ensures
        r == lower_char(c),
{
    if 'A' <= c && c <= 'Z' {
        let b: u8 = (c as u8) + 32;
        b as char
    } else {
        c
    }
}

/// `v` with ASCII letters lowered.
pub fn lowered(v: &Vec<char>) -> (r: Vec<char>)
    ensures
        r@ == lower(v@),
{
    let mut r: Vec<char> = Vec::new();
    let mut i: usize = 0;
    while i < v.len()
        invariant
            i <= v@.len(),
            r@ == lower(v@.take(i as int)),
        decreases v@.len() - i,
    {
        let c = lower_char_exec(v[i]);
        proof {
            assert(v@.take(i as int + 1) == v@.take(i as int).push(v@[i as int]));
        }
        r.push(c);
        i += 1;
    }
    proof {
        assert(v@.take(v@.len() as int) == v@);
    }
    r
}

/// Equality of two character vectors.
pub fn chars_eq(a: &Vec<char>, b: &Vec<char>) -> (r: bool)
    ensures
        r == (a@ == b@),
{
    if a.len() != b.len() {
        return false;
    }
    let mut i: usize = 0;
    while i < a.len()
        invariant
            i <= a@.len(),
            a@.len() == b@.len(),
            forall|m: int| 0 <= m < i ==> a@[m] == b@[m],
        decreases a@.len() - i,
    {
        if a[i] != b[i] {
            return false;
        }
        i += 1;
    }
    proof {
        assert(a@ == b@);
    }
    true
}

/// Equality up to ASCII case of two character vectors.
pub fn chars_eq_ignore_case(a: &Vec<char>, b: &Vec<char>) -> (r: bool)
    ensures
        r == eq_ignore_case(a@, b@),
{
    let la = lowered(a);
    let lb = lowered(b);
    chars_eq(&la, &lb)
}

/// `a` and `b` name the same hex key (trimmed, ASCII case ignored).
pub fn same_key_exec(a: &str, b: &str) -> (r: bool)
    ensures
        r == same_key(a@, b@),
{
    let ta = trimmed(a);
    let tb = trimmed(b);
    chars_eq_ignore_case(&ta, &tb)
}

/// `a` and `b` name the same hex key (trimmed, ASCII case ignored).
pub fn same_key_chars(a: &Vec<char>, b: &Vec<char>) -> (r: bool)
    ensures
        r == same_key(a@, b@),
{
    let ta = trim_chars(a);
    let tb = trim_chars(b);
    chars_eq_ignore_case(&ta, &tb)
}

/// Equality of two string slices.
pub fn str_eq(a: &str, b: &str) -> (r: bool)
    ensures
        r == (a@ == b@),
{
    let va = chars_of(a);
    let vb = chars_of(b);
    chars_eq(&va, &vb)
}

/// Whether `needle` occurs in `hay`.
pub fn chars_contains(hay: &Vec<char>, needle: &Vec<char>) -> (r: bool)
    ensures
        r == contains(hay@, needle@),
{
    let n = needle.len();
    if n > hay.len() {
        proof {
            assert forall|i: int| 0 <= i && i + needle@.len() <= hay@.len() implies
                #[trigger] hay@.subrange(i, i + needle@.len()) != needle@ by {}
        }
        return false;
    }
    let hl = hay.len();
    let mut i: usize = 0;
    while i <= hl - n
        invariant
            hl == hay@.len(),
            n == needle@.len(),
            n <= hay@.len(),
            i <= hay@.len() - n + 1,
            forall|p: int| 0 <= p < i ==> #[trigger] hay@.subrange(p, p + n) != needle@,
        decreases hay@.len() - i,
    {
        let mut j: usize = 0;
        let mut matching = true;
        while j < n && matching
            invariant
                j <= n,
                hl == hay@.len(),
                i + n <= hay@.len(),
                n == needle@.len(),
                forall|m: int| 0 <= m < j ==> hay@[i + m] == needle@[m],
                !matching ==> j < n && hay@[i + j] != needle@[j as int],
            decreases n - j + (if matching { 1int } else { 0int }),
        {
            if hay[i + j] == needle[j] {
                j += 1;
            } else {
                matching = false;
            }
        }
        if j == n {
            proof {
                assert(hay@.subrange(i as int, i + n) == needle@);
            }
            return true;
        }
        proof {
            assert(hay@.subrange(i as int, i + n)[j as int] != needle@[j as int]);
        }
        i += 1;
    }
    false
}

/// A `String` holding exactly `chars`.
#[verifier::external_body]
pub(crate) fn string_from_chars(chars: &[char]) -> (s: String)
    ensures
        s@ == chars@,
{
    String::from_iter(chars)
}

} // verus!
