//! Workspace member paths: normalization to `/`-joined relative paths and
//! sanitized hints for rejected entries.

use vstd::prelude::*;
use vstd::string::StringExecFns;

use crate::text::{chars_contain, chars_eq, chars_of, string_of};

verus! {

/// `s` split at every `c`, keeping empty pieces.
pub open spec fn split_on(s: Seq<char>, c: char) -> Seq<Seq<char>>
    decreases s.len(),
{
    if s.len() == 0 {
        seq![seq![]]
    } else {
        let prev = split_on(s.drop_last(), c);
        if s.last() == c {
            prev.push(seq![])
        } else {
            prev.update(prev.len() - 1, prev.last().push(s.last()))
        }
    }
}

proof fn lemma_split_on_nonempty(s: Seq<char>, c: char)
    ensures
        split_on(s, c).len() >= 1,
    decreases s.len(),
{
    if s.len() > 0 {
        lemma_split_on_nonempty(s.drop_last(), c);
    }
}

/// The pieces of a member path that name directories: not empty and not `.`.
pub open spec fn normal_pieces(p: Seq<Seq<char>>) -> Seq<Seq<char>>
    decreases p.len(),
{
    if p.len() == 0 {
        seq![]
    } else {
        normal_pieces(p.drop_last()) + if p.last().len() > 0 && p.last() != "."@ {
            seq![p.last()]
        } else {
            seq![]
        }
    }
}

/// `p` joined with `/`.
pub open spec fn join_slash(p: Seq<Seq<char>>) -> Seq<char>
    decreases p.len(),
{
    if p.len() == 0 {
        seq![]
    } else if p.len() == 1 {
        p[0]
    } else {
        join_slash(p.drop_last()) + seq!['/'] + p.last()
    }
}

/// Whether a member path is a glob, absolute, or starts with `.` as a
/// component, or has a `..` component.
pub open spec fn member_rejected(m: Seq<char>) -> bool {
    let pieces = split_on(m, '/');
    ||| m.len() == 0
    ||| m.contains('*')
    ||| m.contains('?')
    ||| m[0] == '/'
    ||| pieces[0] == "."@
    ||| pieces.contains(".."@)
}

/// The normalized `/`-joined relative path of a workspace member entry, or
/// `None` for an empty, glob, absolute, `.`-leading, or `..`-containing
/// entry (interior `.` components and repeated separators are dropped).
pub open spec fn spec_normalize_member_path(m: Seq<char>) -> Option<Seq<char>> {
    if member_rejected(m) {
        None
    } else {
        let parts = normal_pieces(split_on(m, '/'));
        if parts.len() == 0 {
            None
        } else {
            Some(join_slash(parts))
        }
    }
}

/// The pieces of `s` split at `/`.
fn split_slash(s: &[char]) -> (r: Vec<Vec<char>>)
    ensures
        r@.map_values(|v: Vec<char>| v@) == split_on(s@, '/'),
{
    let mut done: Vec<Vec<char>> = Vec::new();
    let mut cur: Vec<char> = Vec::new();
    let mut i: usize = 0;
    while i < s.len()
        invariant
            i <= s@.len(),
            done@.map_values(|v: Vec<char>| v@).push(cur@) == split_on(s@.take(i as int), '/'),
        decreases s@.len() - i,
    {
        assert(s@.take(i + 1).drop_last() =~= s@.take(i as int));
        let ghost dv = done@.map_values(|v: Vec<char>| v@);
        if s[i] == '/' {
            let finished = cur;
            done.push(finished);
            cur = Vec::new();
            assert(done@.map_values(|v: Vec<char>| v@) =~= dv.push(finished@));
            assert(done@.map_values(|v: Vec<char>| v@).push(cur@) =~= dv.push(finished@).push(seq![]));
        } else {
            let ghost before = cur@;
            cur.push(s[i]);
            assert(dv.push(cur@) =~= dv.push(before).update(dv.len() as int, before.push(s@[i as int])));
        }
        i += 1;
    }
    assert(s@.take(s@.len() as int) =~= s@);
    let ghost dv = done@.map_values(|v: Vec<char>| v@);
    let last = cur;
    done.push(last);
    assert(done@.map_values(|v: Vec<char>| v@) =~= dv.push(last@));
    done
}

/// Whether `p` is `.`.
fn is_dot(p: &[char]) -> (r: bool)
    ensures
        r == (p@ == "."@),
{
    let d = chars_of(".");
    chars_eq(p, d.as_slice())
}

/// Whether `p` is `..`.
fn is_dot_dot(p: &[char]) -> (r: bool)
    ensures
        r == (p@ == ".."@),
{
    let d = chars_of("..");
    chars_eq(p, d.as_slice())
}

/// Whether a member path is rejected outright.
fn rejected(m: &[char], pieces: &Vec<Vec<char>>) -> (r: bool)
    requires
        pieces@.map_values(|v: Vec<char>| v@) == split_on(m@, '/'),
    ensures
        r == member_rejected(m@),
{
    proof {
        lemma_split_on_nonempty(m@, '/');
    }
    let ghost pv = pieces@.map_values(|v: Vec<char>| v@);
    if m.len() == 0 || chars_contain(m, '*') || chars_contain(m, '?') || m[0] == '/' {
        return true;
    }
    assert(pv[0] == pieces@[0]@);
    if is_dot(pieces[0].as_slice()) {
        return true;
    }
    let mut k: usize = 0;
    while k < pieces.len()
        invariant
            k <= pieces@.len(),
            pv == pieces@.map_values(|v: Vec<char>| v@),
            pv == split_on(m@, '/'),
            forall|q: int| 0 <= q < k ==> pv[q] != ".."@,
        decreases pieces@.len() - k,
    {
        assert(pv[k as int] == pieces@[k as int]@);
        if is_dot_dot(pieces[k].as_slice()) {
            assert(pv.contains(".."@));
            return true;
        }
        k += 1;
    }
    false
}

/// Normalizes a workspace member entry.
pub fn normalize_member_path(member: &str) -> (r: Option<String>)
    ensures
        match (r, spec_normalize_member_path(member@)) {
            (Some(a), Some(b)) => a@ == b,
            (None, None) => true,
            _ => false,
        },
{
    let m = chars_of(member);
    let pieces = split_slash(m.as_slice());
    if rejected(m.as_slice(), &pieces) {
        return None;
    }
    let ghost pv = pieces@.map_values(|v: Vec<char>| v@);
    let mut out: Vec<char> = Vec::new();
    let mut count: usize = 0;
    let mut k: usize = 0;
    while k < pieces.len()
        invariant
            k <= pieces@.len(),
            pv == pieces@.map_values(|v: Vec<char>| v@),
            count == normal_pieces(pv.take(k as int)).len(),
            out@ == join_slash(normal_pieces(pv.take(k as int))),
            count <= k,
        decreases pieces@.len() - k,
    {
        assert(pv.take(k + 1).drop_last() =~= pv.take(k as int));
        assert(pv.take(k + 1).last() == pieces@[k as int]@);
        let p = pieces[k].as_slice();
        if p.len() > 0 && !is_dot(p) {
            let ghost before = out@;
            if count > 0 {
                out.push('/');
            }
            let mut j: usize = 0;
            let ghost base = out@;
            while j < p.len()
                invariant
                    j <= p@.len(),
                    out@ == base + p@.take(j as int),
                decreases p@.len() - j,
            {
                out.push(p[j]);
                assert(p@.take(j + 1) =~= p@.take(j as int).push(p@[j as int]));
                j += 1;
            }
            assert(p@.take(p@.len() as int) =~= p@);
            proof {
                let np = normal_pieces(pv.take(k + 1));
                assert(np =~= normal_pieces(pv.take(k as int)).push(p@));
                assert(np.drop_last() =~= normal_pieces(pv.take(k as int)));
                assert(np.last() == p@);
                if count == 0 {
                    assert(before =~= seq![]) by {
                        assert(normal_pieces(pv.take(k as int)).len() == 0);
                    }
                    assert(out@ =~= p@);
                } else {
                    assert(out@ =~= before + seq!['/'] + p@);
                }
            }
            count += 1;
        } else {
            assert(normal_pieces(pv.take(k + 1)) =~= normal_pieces(pv.take(k as int)));
        }
        k += 1;
    }
    assert(pv.take(pieces@.len() as int) =~= pv);
    if count == 0 {
        None
    } else {
        Some(string_of(out.as_slice()))
    }
}

/// The sanitized hint naming why a member entry was rejected.
pub open spec fn spec_member_hint(m: Seq<char>) -> Seq<char> {
    let pieces = split_on(m, '/');
    if m.len() == 0 {
        "<empty>"@
    } else if m.contains('*') || m.contains('?') {
        "<glob>"@
    } else if m[0] == '/' {
        "<absolute>"@
    } else if pieces[0] == "."@ || pieces.contains(".."@) {
        "<parent-or-current>"@
    } else {
        "<invalid>"@
    }
}

/// The sanitized hint for a rejected member entry (never the entry itself).
pub fn invalid_member_hint(member: &str) -> (r: String)
    ensures
        r@ == spec_member_hint(member@),
{
    let m = chars_of(member);
    if m.len() == 0 {
        return String::from_str("<empty>");
    }
    if chars_contain(m.as_slice(), '*') || chars_contain(m.as_slice(), '?') {
        return String::from_str("<glob>");
    }
    if m[0] == '/' {
        return String::from_str("<absolute>");
    }
    let pieces = split_slash(m.as_slice());
    if rejected(m.as_slice(), &pieces) {
        String::from_str("<parent-or-current>")
    } else {
        String::from_str("<invalid>")
    }
}

} // verus!
