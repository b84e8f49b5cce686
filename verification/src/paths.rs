//! Splitting text into pieces, whitespace-separated words, and the
//! component-wise path prefix test behind the host's path fence (a resolved
//! path must stay under the allowed root). Resolving symlinks is the host's.

use vstd::prelude::*;
use crate::host::DeviceError;
use crate::text::{chars_eq, chars_of, is_ws, is_ws_exec};

verus! {

/// The pieces of `s` between separators (as `str::split` yields them):
/// one more piece than there are separators, empty pieces included.
pub open spec fn pieces(s: Seq<char>, sep: spec_fn(char) -> bool) -> Seq<Seq<char>>
    decreases s.len(),
{
    if s.len() == 0 {
        seq![Seq::empty()]
    } else {
        let r = pieces(s.drop_last(), sep);
        if sep(s.last()) {
            r.push(Seq::empty())
        } else {
            r.update(r.len() - 1, r.last().push(s.last()))
        }
    }
}

/// A path separator.
pub open spec fn is_slash(c: char) -> bool {
    c == '/'
}

proof fn lemma_pieces_len(s: Seq<char>, sep: spec_fn(char) -> bool)
    ensures
        pieces(s, sep).len() >= 1,
    decreases s.len(),
{
    if s.len() > 0 {
        lemma_pieces_len(s.drop_last(), sep);
    }
}

/// The pieces of `v` between whitespace (`ws`) or between slashes.
fn split_chars(v: &Vec<char>, ws: bool) -> (r: Vec<Vec<char>>)
    ensures
        r@.map_values(|p: Vec<char>| p@) == pieces(v@, if ws { |c: char| is_ws(c) } else { |c: char| is_slash(c) }),
{
    let ghost sep = if ws { |c: char| is_ws(c) } else { |c: char| is_slash(c) };
    let mut out: Vec<Vec<char>> = Vec::new();
    let mut cur: Vec<char> = Vec::new();
    let mut i: usize = 0;
    proof {
        assert(v@.take(0) =~= Seq::<char>::empty());
    }
    while i < v.len()
        invariant
            i <= v@.len(),
            sep == (if ws { |c: char| is_ws(c) } else { |c: char| is_slash(c) }),
            out@.map_values(|p: Vec<char>| p@).push(cur@) == pieces(v@.take(i as int), sep),
        decreases v@.len() - i,
    {
        let c = v[i];
        let ghost prev = out@.map_values(|p: Vec<char>| p@).push(cur@);
        proof {
            lemma_pieces_len(v@.take(i as int), sep);
            assert(v@.take(i as int + 1).drop_last() =~= v@.take(i as int));
            assert(v@.take(i as int + 1).last() == c);
        }
        let is_sep = if ws { is_ws_exec(c) } else { c == '/' };
        if is_sep {
            let done = cur;
            out.push(done);
            cur = Vec::new();
            proof {
                assert(out@.map_values(|p: Vec<char>| p@).push(cur@) =~= prev.push(Seq::<char>::empty()));
            }
        } else {
            cur.push(c);
            proof {
                assert(out@.map_values(|p: Vec<char>| p@).push(cur@) =~= prev.update(prev.len() - 1, prev.last().push(c)));
            }
        }
        i += 1;
    }
    out.push(cur);
    proof {
        assert(v@.take(v@.len() as int) =~= v@);
    }
    out
}

/// The non-empty pieces of `ps`, in order.
pub open spec fn nonempty(ps: Seq<Seq<char>>) -> Seq<Seq<char>>
    decreases ps.len(),
{
    if ps.len() == 0 {
        Seq::empty()
    } else {
        nonempty(ps.drop_last()) + if ps.last().len() > 0 { seq![ps.last()] } else { Seq::empty() }
    }
}

/// The whitespace-separated words of `s`, as `str::split_whitespace` yields them.
pub open spec fn words(s: Seq<char>) -> Seq<Seq<char>> {
    nonempty(pieces(s, |c: char| is_ws(c)))
}

fn string_of(v: &Vec<char>) -> (s: String)
    ensures
        s@ == v@,
{
    crate::text::string_from_chars(v.as_slice())
}

/// The whitespace-separated words of `s`.
pub fn split_words(s: &str) -> (r: Vec<String>)
    ensures
        r@.map_values(|w: String| w@) == words(s@),
{
    let ps = split_chars(&chars_of(s), true);
    let ghost all = ps@.map_values(|p: Vec<char>| p@);
    let mut r: Vec<String> = Vec::new();
    let mut i: usize = 0;
    while i < ps.len()
        invariant
            i <= ps@.len(),
            all == ps@.map_values(|p: Vec<char>| p@),
            all == pieces(s@, |c: char| is_ws(c)),
            r@.map_values(|w: String| w@) == nonempty(all.take(i as int)),
        decreases ps@.len() - i,
    {
        let ghost before = r@.map_values(|w: String| w@);
        proof {
            assert(all.take(i as int + 1).drop_last() =~= all.take(i as int));
            assert(all.take(i as int + 1).last() == ps@[i as int]@);
        }
        if ps[i].len() > 0 {
            r.push(string_of(&ps[i]));
            proof { assert(r@.map_values(|w: String| w@) =~= before + seq![ps@[i as int]@]); }
        } else {
            proof { assert(r@.map_values(|w: String| w@) =~= before + Seq::<Seq<char>>::empty()); }
        }
        i += 1;
    }
    proof { assert(all.take(ps@.len() as int) =~= all); }
    r
}

/// The pieces that are path components: neither empty nor `.`.
pub open spec fn normal_parts(ps: Seq<Seq<char>>) -> Seq<Seq<char>>
    decreases ps.len(),
{
    if ps.len() == 0 {
        Seq::empty()
    } else {
        normal_parts(ps.drop_last()) + if ps.last().len() > 0 && ps.last() != "."@ { seq![ps.last()] } else { Seq::empty() }
    }
}

/// The components of a Unix path, as `Path::components` yields them: the
/// root `/` of an absolute path, or a leading `.` of a relative one, then
/// every piece between slashes that is neither empty nor `.`.
pub open spec fn path_components(p: Seq<char>) -> Seq<Seq<char>> {
    let raw = pieces(p, |c: char| is_slash(c));
    let head: Seq<Seq<char>> = if p.len() > 0 && p[0] == '/' {
        seq!["/"@]
    } else if raw[0] == "."@ {
        seq!["."@]
    } else {
        Seq::empty()
    };
    head + normal_parts(raw)
}

/// `path` starts with `base` component by component, as `Path::starts_with`
/// decides it.
pub open spec fn path_starts_with(path: Seq<char>, base: Seq<char>) -> bool {
    let b = path_components(base);
    let p = path_components(path);
    b.len() <= p.len() && p.take(b.len() as int) == b
}

fn components_of(p: &str) -> (r: Vec<Vec<char>>)
    ensures
        r@.map_values(|c: Vec<char>| c@) == path_components(p@),
{
    let chars = chars_of(p);
    let raw = split_chars(&chars, false);
    let ghost all = raw@.map_values(|c: Vec<char>| c@);
    proof { lemma_pieces_len(p@, |c: char| is_slash(c)); }
    let mut r: Vec<Vec<char>> = Vec::new();
    let dot = chars_of(".");
    proof { reveal_strlit("."); reveal_strlit("/"); }
    if chars.len() > 0 && chars[0] == '/' {
        r.push(chars_of("/"));
    } else if chars_eq(&raw[0], &dot) {
        r.push(chars_of("."));
    }
    let ghost head = r@.map_values(|c: Vec<char>| c@);
    proof {
        assert(all[0] == raw@[0]@);
        assert(head.len() == 0 ==> head =~= Seq::<Seq<char>>::empty());
    }
    let mut i: usize = 0;
    while i < raw.len()
        invariant
            i <= raw@.len(),
            all == raw@.map_values(|c: Vec<char>| c@),
            all == pieces(p@, |c: char| is_slash(c)),
            dot@ == "."@,
            r@.map_values(|c: Vec<char>| c@) == head + normal_parts(all.take(i as int)),
        decreases raw@.len() - i,
    {
        let ghost before = r@.map_values(|c: Vec<char>| c@);
        proof {
            assert(all.take(i as int + 1).drop_last() =~= all.take(i as int));
            assert(all.take(i as int + 1).last() == raw@[i as int]@);
        }
        if raw[i].len() > 0 && !chars_eq(&raw[i], &dot) {
            let piece = raw[i].clone();
            proof { assert(piece@ == raw@[i as int]@); }
            r.push(piece);
            proof {
                assert(r@.map_values(|c: Vec<char>| c@) =~= before + seq![raw@[i as int]@]);
                assert(head + normal_parts(all.take(i as int + 1)) =~= before + seq![raw@[i as int]@]);
            }
        } else {
            proof {
                assert(head + normal_parts(all.take(i as int + 1)) =~= before);
            }
        }
        i += 1;
    }
    proof { assert(all.take(raw@.len() as int) =~= all); }
    r
}

/// Whether `path` lies under `root`, component by component.
pub fn path_within(root: &str, path: &str) -> (r: bool)
    ensures
        r == path_starts_with(path@, root@),
{
    let b = components_of(root);
    let p = components_of(path);
    let ghost bm = b@.map_values(|c: Vec<char>| c@);
    let ghost pm = p@.map_values(|c: Vec<char>| c@);
    if b.len() > p.len() {
        return false;
    }
    let mut i: usize = 0;
    while i < b.len()
        invariant
            i <= b@.len(),
            b@.len() <= p@.len(),
            bm == b@.map_values(|c: Vec<char>| c@),
            pm == p@.map_values(|c: Vec<char>| c@),
            bm == path_components(root@),
            pm == path_components(path@),
            forall|m: int| 0 <= m < i ==> pm[m] == bm[m],
        decreases b@.len() - i,
    {
        if !chars_eq(&b[i], &p[i]) {
            proof {
                assert(bm[i as int] == b@[i as int]@);
                assert(pm[i as int] == p@[i as int]@);
                assert(pm.take(bm.len() as int)[i as int] != bm[i as int]);
            }
            return false;
        }
        i += 1;
    }
    proof { assert(pm.take(bm.len() as int) =~= bm); }
    true
}

/// Refuses a resolved path that left the allowed root, with `message`.
pub fn check_inside(root: &str, resolved: &str, message: &str) -> (r: Result<(), DeviceError>)
    ensures
        path_starts_with(resolved@, root@) <==> r is Ok,
        r matches Err(e) ==> e matches DeviceError::Path(m) && m@ == message@,
{
    if path_within(root, resolved) {
        Ok(())
    } else {
        Err(DeviceError::Path(message.to_string()))
    }
}

} // verus!
