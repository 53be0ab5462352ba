//! Project file system sandbox.
//!
//! Every agent file access is resolved against the registered project folder
//! and refused when it lands outside of it. Paths are `/`-separated text; the
//! lexical part (`.` and `..` segments) is computed here, the file system part
//! (following symlinks of the deepest existing ancestor) is handed in as the
//! resolved path.

use vstd::prelude::*;
use crate::error::{IdeError, Result};
use crate::paths::{join, spec_join};
use crate::storage::projects::{is_absolute, spec_is_absolute};
use crate::text::{str_eq, push_char, concat3};

verus! {

/// The pieces of `p` between `/` separators, empty pieces included, read
/// from the left.
pub open spec fn split_on_slash(p: Seq<char>) -> Seq<Seq<char>>
    decreases p.len(),
{
    if p.len() == 0 {
        seq![Seq::<char>::empty()]
    } else {
        let before = split_on_slash(p.drop_last());
        if p.last() == '/' {
            before.push(Seq::<char>::empty())
        } else {
            before.update(before.len() - 1, before.last().push(p.last()))
        }
    }
}

/// `.` as a path segment.
pub open spec fn current_dir() -> Seq<char> {
    seq!['.']
}

/// `..` as a path segment.
pub open spec fn parent_dir() -> Seq<char> {
    seq!['.', '.']
}

/// Whether a piece names something: empty pieces and `.` do not.
pub open spec fn keeps(s: Seq<char>) -> bool {
    s.len() > 0 && s != current_dir()
}

/// The pieces that name something, in order.
pub open spec fn meaningful(pieces: Seq<Seq<char>>) -> Seq<Seq<char>>
    decreases pieces.len(),
{
    if pieces.len() == 0 {
        Seq::empty()
    } else if keeps(pieces.last()) {
        meaningful(pieces.drop_last()).push(pieces.last())
    } else {
        meaningful(pieces.drop_last())
    }
}

/// The segments of a path, as `Path::components` yields its normal and
/// parent-directory components.
pub open spec fn path_segments(p: Seq<char>) -> Seq<Seq<char>> {
    meaningful(split_on_slash(p))
}

/// Segments with every `..` applied: a `..` removes the segment before it,
/// and is kept when there is none, as `PathBuf::pop` and `PathBuf::push` do.
pub open spec fn resolve_dots(segs: Seq<Seq<char>>) -> Seq<Seq<char>>
    decreases segs.len(),
{
    if segs.len() == 0 {
        Seq::empty()
    } else {
        let stack = resolve_dots(segs.drop_last());
        if segs.last() == parent_dir() {
            if stack.len() > 0 {
                stack.drop_last()
            } else {
                stack.push(parent_dir())
            }
        } else {
            stack.push(segs.last())
        }
    }
}

/// Segments written out with `/` between them.
pub open spec fn join_segments(segs: Seq<Seq<char>>) -> Seq<char>
    decreases segs.len(),
{
    if segs.len() == 0 {
        Seq::empty()
    } else if segs.len() == 1 {
        segs[0]
    } else {
        join_segments(segs.drop_last()) + seq!['/'] + segs.last()
    }
}

/// `p` with `.` removed and `..` resolved, without touching the file system.
pub open spec fn spec_normalize(p: Seq<char>) -> Seq<char> {
    (if spec_is_absolute(p) { seq!['/'] } else { Seq::empty() }) + join_segments(resolve_dots(path_segments(p)))
}

/// Whether `p` lies inside `root`, segment by segment, as `Path::starts_with`
/// compares them.
pub open spec fn within(root: Seq<char>, p: Seq<char>) -> bool {
    &&& spec_is_absolute(root) == spec_is_absolute(p)
    &&& path_segments(root).len() <= path_segments(p).len()
    &&& path_segments(p).subrange(0, path_segments(root).len() as int) == path_segments(root)
}

/// The text of each string.
pub open spec fn texts(v: Seq<String>) -> Seq<Seq<char>> {
    v.map_values(|s: String| s@)
}

/// Whether a piece names something.
fn keeps_text(s: &str) -> (b: bool)
    ensures
        b == keeps(s@),
{
    proof {
        reveal_strlit(".");
        assert("."@ =~= current_dir());
    }
    s.unicode_len() > 0 && !str_eq(s, ".")
}

proof fn lemma_split_nonempty(p: Seq<char>)
    ensures
        split_on_slash(p).len() >= 1,
    decreases p.len(),
{
    if p.len() > 0 {
        lemma_split_nonempty(p.drop_last());
    }
}

/// The segments of `p`.
pub fn segments(p: &str) -> (r: Vec<String>)
    ensures
        texts(r@) == path_segments(p@),
{
    let n = p.unicode_len();
    let mut out: Vec<String> = Vec::new();
    let mut cur = String::new();
    let mut i: usize = 0;
    proof {
        assert(p@.take(0) =~= Seq::<char>::empty());
        assert(texts(out@) =~= Seq::<Seq<char>>::empty());
        assert(split_on_slash(p@.take(0)).drop_last() =~= Seq::<Seq<char>>::empty());
    }
    while i < n
        invariant
            n == p@.len(),
            i <= n,
            split_on_slash(p@.take(i as int)).len() >= 1,
            texts(out@) == meaningful(split_on_slash(p@.take(i as int)).drop_last()),
            cur@ == split_on_slash(p@.take(i as int)).last(),
        decreases n - i,
    {
        let c = p.get_char(i);
        let ghost before = split_on_slash(p@.take(i as int));
        proof {
            assert(p@.take(i + 1).drop_last() =~= p@.take(i as int));
            assert(p@.take(i + 1).last() == c);
        }
        if c == '/' {
            proof {
                assert(split_on_slash(p@.take(i + 1)) == before.push(Seq::<char>::empty()));
                assert(before.push(Seq::<char>::empty()).drop_last() =~= before);
                assert(before =~= before.drop_last().push(before.last()));
            }
            if keeps_text(cur.as_str()) {
                let ghost old_out = out@;
                out.push(cur);
                proof {
                    assert(texts(out@) =~= texts(old_out).push(before.last()));
                }
            }
            cur = String::new();
        } else {
            proof {
                let after = before.update(before.len() - 1, before.last().push(c));
                assert(split_on_slash(p@.take(i + 1)) == after);
                assert(after.drop_last() =~= before.drop_last());
            }
            push_char(&mut cur, c);
        }
        i = i + 1;
    }
    proof {
        assert(p@.take(n as int) =~= p@);
        let pieces = split_on_slash(p@);
        assert(pieces =~= pieces.drop_last().push(pieces.last()));
    }
    if keeps_text(cur.as_str()) {
        let ghost old_out = out@;
        out.push(cur);
        proof {
            assert(texts(out@) =~= texts(old_out).push(split_on_slash(p@).last()));
        }
    }
    out
}


/// Whether a segment is `..`.
fn is_parent_text(s: &str) -> (b: bool)
    ensures
        b == (s@ == parent_dir()),
{
    proof {
        reveal_strlit("..");
        assert(".."@ =~= parent_dir());
    }
    str_eq(s, "..")
}

/// Copies a string.
fn copy_text(s: &String) -> (r: String)
    ensures
        r@ == s@,
{
    s.as_str().to_string()
}

/// The segments with every `..` applied.
pub fn apply_parent_segments(segs: &Vec<String>) -> (r: Vec<String>)
    ensures
        texts(r@) == resolve_dots(texts(segs@)),
{
    let mut stack: Vec<String> = Vec::new();
    let mut k: usize = 0;
    proof {
        assert(texts(segs@).take(0) =~= Seq::<Seq<char>>::empty());
        assert(texts(stack@) =~= Seq::<Seq<char>>::empty());
    }
    while k < segs.len()
        invariant
            k <= segs.len(),
            texts(stack@) == resolve_dots(texts(segs@).take(k as int)),
        decreases segs.len() - k,
    {
        let ghost prefix = texts(segs@).take(k + 1);
        proof {
            assert(prefix.drop_last() =~= texts(segs@).take(k as int));
            assert(prefix.last() == segs@[k as int]@);
        }
        let ghost old_stack = stack@;
        if is_parent_text(segs[k].as_str()) {
            if stack.len() > 0 {
                stack.pop();
                proof { assert(texts(stack@) =~= texts(old_stack).drop_last()); }
            } else {
                proof { reveal_strlit(".."); }
                stack.push("..".to_string());
                proof {
                    assert(".."@ =~= parent_dir());
                    assert(texts(stack@) =~= texts(old_stack).push(parent_dir()));
                }
            }
        } else {
            stack.push(copy_text(&segs[k]));
            proof { assert(texts(stack@) =~= texts(old_stack).push(segs@[k as int]@)); }
        }
        k = k + 1;
    }
    proof { assert(texts(segs@).take(segs.len() as int) =~= texts(segs@)); }
    stack
}

/// The segments written out with `/` between them, after `lead`.
fn write_segments(lead: String, segs: &Vec<String>) -> (r: String)
    ensures
        r@ == lead@ + join_segments(texts(segs@)),
{
    let mut out = lead;
    let mut k: usize = 0;
    proof {
        assert(texts(segs@).take(0) =~= Seq::<Seq<char>>::empty());
        assert(out@ =~= lead@ + join_segments(texts(segs@).take(0)));
    }
    while k < segs.len()
        invariant
            k <= segs.len(),
            out@ == lead@ + join_segments(texts(segs@).take(k as int)),
        decreases segs.len() - k,
    {
        let ghost prefix = texts(segs@).take(k + 1);
        proof {
            assert(prefix.drop_last() =~= texts(segs@).take(k as int));
            assert(prefix.last() == segs@[k as int]@);
        }
        if k > 0 {
            proof { reveal_strlit("/"); }
            let t = concat3(out.as_str(), "/", segs[k].as_str());
            proof { assert(t@ =~= lead@ + join_segments(prefix)); }
            out = t;
        } else {
            let t = crate::text::concat2(out.as_str(), segs[k].as_str());
            proof {
                assert(prefix =~= seq![segs@[0]@]);
                assert(t@ =~= lead@ + join_segments(prefix));
            }
            out = t;
        }
        k = k + 1;
    }
    proof { assert(texts(segs@).take(segs.len() as int) =~= texts(segs@)); }
    out
}

/// `path` with `.` removed and `..` resolved, without touching the file
/// system.
pub fn normalize(path: &str) -> (r: String)
    ensures
        r@ == spec_normalize(path@),
{
    let segs = segments(path);
    let resolved = apply_parent_segments(&segs);
    let lead = if is_absolute(path) {
        proof { reveal_strlit("/"); }
        "/".to_string()
    } else {
        String::new()
    };
    proof {
        reveal_strlit("/");
        assert(lead@ == (if spec_is_absolute(path@) { seq!['/'] } else { Seq::<char>::empty() }));
    }
    write_segments(lead, &resolved)
}

/// Whether `p` lies inside `root`, segment by segment.
pub fn is_within(root: &str, p: &str) -> (b: bool)
    ensures
        b == within(root@, p@),
{
    if is_absolute(root) != is_absolute(p) {
        return false;
    }
    let rs = segments(root);
    let ps = segments(p);
    if rs.len() > ps.len() {
        return false;
    }
    let mut k: usize = 0;
    while k < rs.len()
        invariant
            k <= rs.len() <= ps.len(),
            texts(rs@) == path_segments(root@),
            texts(ps@) == path_segments(p@),
            forall|j: int| 0 <= j < k ==> ps@[j]@ == rs@[j]@,
        decreases rs.len() - k,
    {
        if !str_eq(ps[k].as_str(), rs[k].as_str()) {
            proof {
                assert(texts(ps@)[k as int] == ps@[k as int]@);
                assert(texts(ps@).subrange(0, rs.len() as int)[k as int] != texts(rs@)[k as int]);
            }
            return false;
        }
        k = k + 1;
    }
    proof {
        assert(texts(ps@).subrange(0, rs.len() as int) =~= texts(rs@));
    }
    true
}


/// Whether a segment list names something in every place: no empty
/// segments, no `.`, and no separator inside a segment.
pub open spec fn clean_segments(segs: Seq<Seq<char>>) -> bool {
    forall|i: int| 0 <= i < segs.len() ==> #[trigger] keeps(segs[i]) && !segs[i].contains('/')
}

/// Whether no segment is `..`.
pub open spec fn no_parent_segments(segs: Seq<Seq<char>>) -> bool {
    forall|i: int| 0 <= i < segs.len() ==> #[trigger] segs[i] != parent_dir()
}

/// Whether a relative path never climbs above where it starts: every `..`
/// has a segment before it to remove.
pub open spec fn never_climbs(segs: Seq<Seq<char>>) -> bool {
    forall|k: int| 0 <= k < segs.len() && #[trigger] segs[k] == parent_dir() ==> resolve_dots(segs.take(k)).len() > 0
}

proof fn lemma_split_concat(a: Seq<char>, b: Seq<char>)
    ensures
        split_on_slash(a + seq!['/'] + b) == split_on_slash(a) + split_on_slash(b),
    decreases b.len(),
{
    let whole = a + seq!['/'] + b;
    if b.len() == 0 {
        assert(whole.drop_last() =~= a);
        assert(split_on_slash(b) =~= seq![Seq::<char>::empty()]);
        assert(split_on_slash(a).push(Seq::<char>::empty()) =~= split_on_slash(a) + split_on_slash(b));
    } else {
        let b1 = b.drop_last();
        let c = b.last();
        lemma_split_concat(a, b1);
        lemma_split_nonempty(b1);
        lemma_split_nonempty(a);
        assert(whole.drop_last() =~= a + seq!['/'] + b1);
        assert(whole.last() == c);
        let x = split_on_slash(a);
        let y = split_on_slash(b1);
        if c == '/' {
            assert((x + y).push(Seq::<char>::empty()) =~= x + y.push(Seq::<char>::empty()));
        } else {
            assert((x + y).update((x + y).len() - 1, (x + y).last().push(c)) =~= x + y.update(y.len() - 1, y.last().push(c)));
        }
    }
}

proof fn lemma_meaningful_concat(x: Seq<Seq<char>>, y: Seq<Seq<char>>)
    ensures
        meaningful(x + y) == meaningful(x) + meaningful(y),
    decreases y.len(),
{
    if y.len() == 0 {
        assert(x + y =~= x);
        assert(meaningful(x) + meaningful(y) =~= meaningful(x));
    } else {
        lemma_meaningful_concat(x, y.drop_last());
        assert((x + y).drop_last() =~= x + y.drop_last());
        assert((x + y).last() == y.last());
        if keeps(y.last()) {
            assert((meaningful(x) + meaningful(y.drop_last())).push(y.last()) =~= meaningful(x) + meaningful(y.drop_last()).push(y.last()));
        }
    }
}

/// The segments of `a/b` are those of `a` followed by those of `b`.
proof fn lemma_segments_concat(a: Seq<char>, b: Seq<char>)
    ensures
        path_segments(a + seq!['/'] + b) == path_segments(a) + path_segments(b),
{
    lemma_split_concat(a, b);
    lemma_meaningful_concat(split_on_slash(a), split_on_slash(b));
}

proof fn lemma_resolve_dots_concat(a: Seq<Seq<char>>, b: Seq<Seq<char>>)
    requires
        never_climbs(b),
    ensures
        resolve_dots(a + b) == resolve_dots(a) + resolve_dots(b),
    decreases b.len(),
{
    if b.len() == 0 {
        assert(a + b =~= a);
        assert(resolve_dots(a) + resolve_dots(b) =~= resolve_dots(a));
    } else {
        let b1 = b.drop_last();
        assert forall|k: int| 0 <= k < b1.len() && #[trigger] b1[k] == parent_dir() implies resolve_dots(b1.take(k)).len() > 0 by {
            assert(b1.take(k) =~= b.take(k));
            assert(b[k] == b1[k]);
        }
        lemma_resolve_dots_concat(a, b1);
        assert((a + b).drop_last() =~= a + b1);
        assert((a + b).last() == b.last());
        let ra = resolve_dots(a);
        let rb = resolve_dots(b1);
        if b.last() == parent_dir() {
            assert(b.take(b.len() - 1) =~= b1);
            assert(b[b.len() - 1] == parent_dir());
            assert(rb.len() > 0);
            assert((ra + rb).drop_last() =~= ra + rb.drop_last());
        } else {
            assert((ra + rb).push(b.last()) =~= ra + rb.push(b.last()));
        }
    }
}

proof fn lemma_resolve_dots_identity(a: Seq<Seq<char>>)
    requires
        no_parent_segments(a),
    ensures
        resolve_dots(a) == a,
    decreases a.len(),
{
    if a.len() > 0 {
        assert(a[a.len() - 1] != parent_dir());
        lemma_resolve_dots_identity(a.drop_last());
        assert(a.drop_last().push(a.last()) =~= a);
    }
}

/// Every segment `resolve_dots` keeps is one of its input or `..`.
proof fn lemma_resolve_dots_members(segs: Seq<Seq<char>>)
    ensures
        forall|i: int| 0 <= i < resolve_dots(segs).len() ==> #[trigger] resolve_dots(segs)[i] == parent_dir()
            || segs.contains(resolve_dots(segs)[i]),
    decreases segs.len(),
{
    if segs.len() > 0 {
        let rest = segs.drop_last();
        lemma_resolve_dots_members(rest);
        let r = resolve_dots(segs);
        assert forall|i: int| 0 <= i < r.len() implies #[trigger] r[i] == parent_dir() || segs.contains(r[i]) by {
            let prev = resolve_dots(rest);
            if i < prev.len() && r[i] == prev[i] {
                if prev[i] != parent_dir() {
                    let j = choose|j: int| 0 <= j < rest.len() && rest[j] == prev[i];
                    assert(segs[j] == rest[j]);
                }
            } else {
                assert(r[i] == segs.last() || r[i] == parent_dir());
                assert(segs[segs.len() - 1] == segs.last());
            }
        }
    }
}

proof fn lemma_split_pieces_have_no_slash(p: Seq<char>)
    ensures
        forall|i: int| 0 <= i < split_on_slash(p).len() ==> !(#[trigger] split_on_slash(p)[i]).contains('/'),
    decreases p.len(),
{
    lemma_split_nonempty(p);
    if p.len() > 0 {
        let before = split_on_slash(p.drop_last());
        lemma_split_pieces_have_no_slash(p.drop_last());
        lemma_split_nonempty(p.drop_last());
        if p.last() != '/' {
            let grown = before.last().push(p.last());
            assert forall|j: int| 0 <= j < grown.len() implies grown[j] != '/' by {
                if j < before.last().len() {
                    assert(grown[j] == before.last()[j]);
                    assert(before[before.len() - 1] == before.last());
                }
            }
            assert(!grown.contains('/'));
        }
    }
}

proof fn lemma_meaningful_clean(pieces: Seq<Seq<char>>)
    requires
        forall|i: int| 0 <= i < pieces.len() ==> !(#[trigger] pieces[i]).contains('/'),
    ensures
        clean_segments(meaningful(pieces)),
        forall|i: int| 0 <= i < meaningful(pieces).len() ==> pieces.contains(#[trigger] meaningful(pieces)[i]),
    decreases pieces.len(),
{
    if pieces.len() > 0 {
        let rest = pieces.drop_last();
        assert forall|i: int| 0 <= i < rest.len() implies !(#[trigger] rest[i]).contains('/') by {
            assert(rest[i] == pieces[i]);
        }
        lemma_meaningful_clean(rest);
        let m = meaningful(pieces);
        assert forall|i: int| 0 <= i < m.len() implies pieces.contains(#[trigger] m[i]) by {
            let mr = meaningful(rest);
            if i < mr.len() {
                assert(m[i] == mr[i]);
                let j = choose|j: int| 0 <= j < rest.len() && rest[j] == mr[i];
                assert(pieces[j] == rest[j]);
            } else {
                assert(pieces[pieces.len() - 1] == pieces.last());
            }
        }
        assert(pieces[pieces.len() - 1] == pieces.last());
    }
}

/// The segments of a path are clean.
proof fn lemma_segments_clean(p: Seq<char>)
    ensures
        clean_segments(path_segments(p)),
{
    lemma_split_pieces_have_no_slash(p);
    lemma_meaningful_clean(split_on_slash(p));
}

proof fn lemma_split_single(s: Seq<char>)
    requires
        !s.contains('/'),
    ensures
        split_on_slash(s) == seq![s],
    decreases s.len(),
{
    if s.len() == 0 {
        assert(s =~= Seq::<char>::empty());
        assert(split_on_slash(s) =~= seq![s]);
    } else {
        let s1 = s.drop_last();
        assert forall|j: int| 0 <= j < s1.len() implies s1[j] != '/' by {
            assert(s1[j] == s[j]);
        }
        assert(!s1.contains('/'));
        lemma_split_single(s1);
        assert(s[s.len() - 1] == s.last());
        assert(s.last() != '/');
        assert(s1.push(s.last()) =~= s);
        assert(seq![s1].update(0, s1.push(s.last())) =~= seq![s]);
    }
}

proof fn lemma_split_join(segs: Seq<Seq<char>>)
    requires
        segs.len() > 0,
        clean_segments(segs),
    ensures
        split_on_slash(join_segments(segs)) == segs,
    decreases segs.len(),
{
    if segs.len() == 1 {
        assert(keeps(segs[0]) && !segs[0].contains('/'));
        lemma_split_single(segs[0]);
        assert(seq![segs[0]] =~= segs);
    } else {
        let rest = segs.drop_last();
        assert forall|i: int| 0 <= i < rest.len() implies #[trigger] keeps(rest[i]) && !rest[i].contains('/') by {
            assert(rest[i] == segs[i]);
            assert(keeps(segs[i]) && !segs[i].contains('/'));
        }
        lemma_split_join(rest);
        assert(keeps(segs[segs.len() - 1]) && !segs[segs.len() - 1].contains('/'));
        assert(segs[segs.len() - 1] == segs.last());
        lemma_split_single(segs.last());
        lemma_split_concat(join_segments(rest), segs.last());
        assert(rest + seq![segs.last()] =~= segs);
    }
}

proof fn lemma_meaningful_identity(segs: Seq<Seq<char>>)
    requires
        clean_segments(segs),
    ensures
        meaningful(segs) == segs,
    decreases segs.len(),
{
    if segs.len() > 0 {
        let rest = segs.drop_last();
        assert forall|i: int| 0 <= i < rest.len() implies #[trigger] keeps(rest[i]) && !rest[i].contains('/') by {
            assert(rest[i] == segs[i]);
            assert(keeps(segs[i]) && !segs[i].contains('/'));
        }
        lemma_meaningful_identity(rest);
        assert(keeps(segs[segs.len() - 1]));
        assert(segs[segs.len() - 1] == segs.last());
        assert(rest.push(segs.last()) =~= segs);
    }
}

proof fn lemma_segments_empty()
    ensures
        path_segments(Seq::<char>::empty()) == Seq::<Seq<char>>::empty(),
{
    let e = Seq::<char>::empty();
    assert(split_on_slash(e) =~= seq![e]);
    assert(!keeps(e));
    assert(seq![e].drop_last() =~= Seq::<Seq<char>>::empty());
    assert(seq![e].last() == e);
    assert(meaningful(Seq::<Seq<char>>::empty()) =~= Seq::<Seq<char>>::empty());
    assert(meaningful(seq![e]) == meaningful(seq![e].drop_last()));
}

/// Writing clean segments out after a `/` and reading them back gives them
/// again.
proof fn lemma_segments_of_rendered(segs: Seq<Seq<char>>)
    requires
        clean_segments(segs),
    ensures
        path_segments(seq!['/'] + join_segments(segs)) == segs,
{
    let e = Seq::<char>::empty();
    assert(e + seq!['/'] + join_segments(segs) =~= seq!['/'] + join_segments(segs));
    lemma_segments_concat(e, join_segments(segs));
    lemma_segments_empty();
    if segs.len() == 0 {
        assert(join_segments(segs) =~= e);
        assert(Seq::<Seq<char>>::empty() + Seq::<Seq<char>>::empty() =~= segs);
    } else {
        lemma_split_join(segs);
        lemma_meaningful_identity(segs);
        assert(Seq::<Seq<char>>::empty() + segs =~= segs);
    }
}

/// A relative request that never climbs above its start lands inside the
/// project root: `.` and `..` inside it cannot take it out, lexically.
pub proof fn lemma_relative_requests_stay_inside(root: Seq<char>, requested: Seq<char>)
    requires
        spec_is_absolute(root),
        no_parent_segments(path_segments(root)),
        !spec_is_absolute(requested),
        never_climbs(path_segments(requested)),
    ensures
        within(root, spec_candidate(root, requested)),
{
    let joined = spec_join(root, requested);
    let pr = path_segments(root);
    let pq = path_segments(requested);
    if root.last() == '/' {
        let base = root.drop_last();
        assert(root =~= base + seq!['/'] + Seq::<char>::empty());
        lemma_segments_concat(base, Seq::<char>::empty());
        lemma_segments_empty();
        assert(pr =~= path_segments(base));
        assert(joined =~= base + seq!['/'] + requested);
        lemma_segments_concat(base, requested);
    } else {
        assert(joined =~= root + seq!['/'] + requested);
        lemma_segments_concat(root, requested);
    }
    assert(path_segments(joined) == pr + pq);
    assert(spec_is_absolute(joined)) by {
        assert(joined[0] == root[0]);
    }
    lemma_resolve_dots_concat(pr, pq);
    lemma_resolve_dots_identity(pr);
    let resolved = resolve_dots(pr + pq);
    assert(resolved == pr + resolve_dots(pq));
    // Every resolved segment is clean.
    lemma_segments_clean(joined);
    lemma_resolve_dots_members(pr + pq);
    assert(clean_segments(pr + pq));
    assert forall|i: int| 0 <= i < resolved.len() implies #[trigger] keeps(resolved[i]) && !resolved[i].contains('/') by {
        if resolved[i] == parent_dir() {
            assert(parent_dir().len() == 2);
            assert(!parent_dir().contains('/')) by {
                assert forall|j: int| 0 <= j < parent_dir().len() implies parent_dir()[j] != '/' by {}
            }
            assert(parent_dir() != current_dir()) by {
                assert(parent_dir().len() != current_dir().len());
            }
        } else {
            assert(resolved[i] == parent_dir() || (pr + pq).contains(resolved[i]));
            assert((pr + pq).contains(resolved[i]));
            let j = choose|j: int| 0 <= j < (pr + pq).len() && (pr + pq)[j] == resolved[i];
            let whole = pr + pq;
            assert(clean_segments(whole));
            assert(0 <= j < whole.len());
            assert(keeps(whole[j]));
            assert(!whole[j].contains('/'));
            assert(whole[j] == resolved[i]);
        }
    }
    let candidate = spec_candidate(root, requested);
    assert(candidate == seq!['/'] + join_segments(resolved));
    lemma_segments_of_rendered(resolved);
    assert(path_segments(candidate) == resolved);
    assert(resolved.subrange(0, pr.len() as int) =~= pr);
    assert(spec_is_absolute(candidate)) by {
        assert(candidate[0] == '/');
    }
}


/// `..` survives resolution only as the first segment.
proof fn lemma_resolve_dots_shape(segs: Seq<Seq<char>>)
    ensures
        forall|i: int| 0 <= i < resolve_dots(segs).len() && #[trigger] resolve_dots(segs)[i] == parent_dir() ==> i == 0,
    decreases segs.len(),
{
    if segs.len() > 0 {
        lemma_resolve_dots_shape(segs.drop_last());
        let prev = resolve_dots(segs.drop_last());
        let r = resolve_dots(segs);
        assert forall|i: int| 0 <= i < r.len() && #[trigger] r[i] == parent_dir() implies i == 0 by {
            if segs.last() == parent_dir() {
                if prev.len() > 0 {
                    assert(r[i] == prev[i]);
                } else {
                    assert(r.len() == 1);
                }
            } else if i < prev.len() {
                assert(r[i] == prev[i]);
            } else {
                assert(r[i] == segs.last());
            }
        }
    }
}

proof fn lemma_resolve_dots_settled(r: Seq<Seq<char>>)
    requires
        forall|i: int| 0 <= i < r.len() && #[trigger] r[i] == parent_dir() ==> i == 0,
    ensures
        resolve_dots(r) == r,
    decreases r.len(),
{
    if r.len() > 0 {
        let rest = r.drop_last();
        assert forall|i: int| 0 <= i < rest.len() && #[trigger] rest[i] == parent_dir() implies i == 0 by {
            assert(r[i] == rest[i]);
        }
        lemma_resolve_dots_settled(rest);
        assert(r[r.len() - 1] == r.last());
        if r.last() == parent_dir() {
            assert(rest.len() == 0);
            assert(rest.push(parent_dir()) =~= r);
        } else {
            assert(rest.push(r.last()) =~= r);
        }
    }
}

/// Normalizing twice changes nothing: a normalized path has no `.`
/// segments and no `..` left to resolve.
pub proof fn lemma_normalize_idempotent(p: Seq<char>)
    ensures
        spec_normalize(spec_normalize(p)) == spec_normalize(p),
{
    let segs = path_segments(p);
    let r = resolve_dots(segs);
    let n = spec_normalize(p);
    lemma_segments_clean(p);
    lemma_resolve_dots_members(segs);
    lemma_resolve_dots_shape(segs);
    assert forall|i: int| 0 <= i < r.len() implies #[trigger] keeps(r[i]) && !r[i].contains('/') by {
        if r[i] == parent_dir() {
            assert(parent_dir() != current_dir()) by {
                assert(parent_dir().len() != current_dir().len());
            }
            assert forall|j: int| 0 <= j < parent_dir().len() implies parent_dir()[j] != '/' by {}
        } else {
            assert(r[i] == parent_dir() || segs.contains(r[i]));
            assert(segs.contains(r[i]));
            let j = choose|j: int| 0 <= j < segs.len() && segs[j] == r[i];
            assert(keeps(segs[j]));
            assert(!segs[j].contains('/'));
        }
    }
    lemma_resolve_dots_settled(r);
    if spec_is_absolute(p) {
        lemma_segments_of_rendered(r);
        assert(n == seq!['/'] + join_segments(r));
        assert(spec_is_absolute(n)) by {
            assert(n[0] == '/');
        }
    } else {
        assert(n =~= join_segments(r));
        if r.len() == 0 {
            assert(n =~= Seq::<char>::empty());
            lemma_segments_empty();
        } else {
            lemma_split_join(r);
            lemma_meaningful_identity(r);
            assert(keeps(r[0]) && !r[0].contains('/'));
            lemma_join_starts_with_first(r);
            assert(r[0][0] != '/') by {
                assert(r[0].len() > 0);
                if r[0][0] == '/' {
                    assert(r[0].contains('/'));
                }
            }
            assert(!spec_is_absolute(n));
        }
        assert(path_segments(n) == r);
    }
}

proof fn lemma_join_starts_with_first(segs: Seq<Seq<char>>)
    requires
        segs.len() > 0,
        segs[0].len() > 0,
    ensures
        join_segments(segs).len() > 0,
        join_segments(segs)[0] == segs[0][0],
    decreases segs.len(),
{
    if segs.len() > 1 {
        let rest = segs.drop_last();
        assert(rest[0] == segs[0]);
        lemma_join_starts_with_first(rest);
    }
}

/// Bounds all agent file access to a single project folder.
#[derive(Debug)]
pub struct Sandbox {
    root: String,
}

impl View for Sandbox {
    type V = Seq<char>;

    /// The canonical project root.
    closed spec fn view(&self) -> Seq<char> {
        self.root@
    }
}

/// The path a request names before the file system is consulted: relative
/// requests start at `root`.
pub open spec fn spec_candidate(root: Seq<char>, requested: Seq<char>) -> Seq<char> {
    spec_normalize(if spec_is_absolute(requested) { requested } else { spec_join(root, requested) })
}

impl Clone for Sandbox {
    fn clone(&self) -> (r: Sandbox)
        ensures
            r@ == self@,
    {
        proof { use_type_invariant(self); }
        Sandbox { root: self.root.clone() }
    }
}

impl Sandbox {
    /// The root is an absolute path.
    #[verifier::type_invariant]
    spec fn root_is_absolute(self) -> bool {
        spec_is_absolute(self.root@)
    }

    /// A sandbox rooted at a project directory. `is_directory` tells whether
    /// `root` names an existing directory and `canonical_root` is its
    /// canonical form.
    pub fn new(root: &str, is_directory: bool, canonical_root: &str) -> (r: Result<Sandbox>)
        requires
            is_directory ==> spec_is_absolute(canonical_root@),
        ensures
            is_directory ==> r is Ok && r->Ok_0@ == canonical_root@,
            !is_directory ==> r is Err && r->Err_0 is Validation
                && r->Err_0->Validation_0@ == "project path "@ + root@ + " is not a directory"@,
    {
        if !is_directory {
            return Err(IdeError::Validation(concat3("project path ", root, " is not a directory")));
        }
        Ok(Sandbox { root: canonical_root.to_string() })
    }

    /// The canonical project root.
    pub fn root(&self) -> (r: &str)
        ensures
            r@ == self@,
            spec_is_absolute(r@),
    {
        proof { use_type_invariant(self); }
        self.root.as_str()
    }

    /// The lexical form of `requested`, absolute or relative to the root,
    /// which the file system then resolves.
    pub fn candidate(&self, requested: &str) -> (r: String)
        ensures
            r@ == spec_candidate(self@, requested@),
    {
        if is_absolute(requested) {
            normalize(requested)
        } else {
            let joined = join(self.root.as_str(), requested);
            normalize(joined.as_str())
        }
    }

    /// Accept `resolved`, the file system's resolution of `requested`, when
    /// it lies inside the project folder.
    ///
    /// Returns `SandboxViolation` naming `requested` for anything outside,
    /// whether it got there through symlinks or `..` segments.
    pub fn resolve(&self, requested: &str, resolved: &str) -> (r: Result<String>)
        ensures
            within(self@, resolved@) ==> r is Ok && r->Ok_0@ == resolved@,
            !within(self@, resolved@) ==> r is Err && r->Err_0 is SandboxViolation
                && r->Err_0->path@ == requested@,
            r is Ok ==> spec_is_absolute(r->Ok_0@),
    {
        proof { use_type_invariant(self); }
        if is_within(self.root.as_str(), resolved) {
            Ok(resolved.to_string())
        } else {
            Err(IdeError::SandboxViolation { path: requested.to_string() })
        }
    }

    /// Whether `requested`, resolved to `resolved`, is inside the sandbox:
    /// exactly when `resolve` accepts it.
    pub fn contains(&self, requested: &str, resolved: &str) -> (b: bool)
        ensures
            b == within(self@, resolved@),
    {
        is_within(self.root.as_str(), resolved)
    }
}

} // verus!
