//! Orderings of stored records and a verified sort, so that listings come
//! back in the order the queries promise.

use vstd::prelude::*;
use vstd::multiset::Multiset;

verus! {

broadcast use vstd::seq_lib::group_to_multiset_ensures;

/// A total preorder on a record type.
pub trait Ordered: Sized {
    /// Whether `self` may come before `other`.
    spec fn precedes(&self, other: &Self) -> bool;

    proof fn lemma_total(a: &Self, b: &Self)
        ensures
            a.precedes(b) || b.precedes(a),
    ;

    proof fn lemma_transitive(a: &Self, b: &Self, c: &Self)
        requires
            a.precedes(b),
            b.precedes(c),
        ensures
            a.precedes(c),
    ;

    fn in_order(&self, other: &Self) -> (r: bool)
        ensures
            r == self.precedes(other),
    ;
}

/// Each element may come before every later one.
pub open spec fn sorted<T: Ordered>(s: Seq<T>) -> bool {
    forall|i: int, j: int| #![trigger s[i], s[j]] 0 <= i < j < s.len() ==> s[i].precedes(&s[j])
}

/// The elements of `v`, sorted.
pub fn sort<T: Ordered>(v: Vec<T>) -> (r: Vec<T>)
    ensures
        r@.to_multiset() == v@.to_multiset(),
        sorted(r@),
{
    let mut rest = v;
    let mut out: Vec<T> = Vec::new();
    let ghost initial = rest@;
    assert(out@.to_multiset() =~= Multiset::<T>::empty());
    assert(initial.subrange(0, rest@.len() as int) =~= rest@);
    while rest.len() > 0
        invariant
            sorted(out@),
            rest@ == initial.subrange(0, rest@.len() as int),
            rest@.len() <= initial.len(),
            out@.to_multiset().add(rest@.to_multiset()) == initial.to_multiset(),
        decreases rest.len(),
    {
        let ghost before_rest = rest@;
        let x = rest.pop().unwrap();
        assert(before_rest =~= rest@.push(x));
        assert(rest@ == initial.subrange(0, rest@.len() as int));
        let mut j: usize = 0;
        while j < out.len() && out[j].in_order(&x)
            invariant
                j <= out.len(),
                forall|k: int| 0 <= k < j ==> (#[trigger] out@[k]).precedes(&x),
            decreases out.len() - j,
        {
            j = j + 1;
        }
        let ghost before = out@;
        proof {
            if j < out.len() {
                T::lemma_total(&out@[j as int], &x);
            }
        }
        out.insert(j, x);
        proof {
            assert(out@ == before.insert(j as int, x));
            assert forall|a: int, b: int| #![trigger out@[a], out@[b]] 0 <= a < b < out@.len() implies out@[a].precedes(
                &out@[b],
            ) by {
                if b < j {
                    assert(out@[a] == before[a] && out@[b] == before[b]);
                } else if b == j {
                    assert(out@[a] == before[a]);
                } else if a == j {
                    assert(out@[b] == before[b - 1]);
                    if b - 1 > j {
                        assert(before[j as int].precedes(&before[b - 1]));
                        T::lemma_transitive(&x, &before[j as int], &before[b - 1]);
                    }
                } else if a < j {
                    assert(out@[a] == before[a] && out@[b] == before[b - 1]);
                    if a < b - 1 {
                    } else {
                        assert(false);
                    }
                } else {
                    assert(out@[a] == before[a - 1] && out@[b] == before[b - 1]);
                }
            }
            assert(out@.to_multiset() == before.to_multiset().insert(x));
            assert(before_rest.to_multiset() == rest@.to_multiset().insert(x));
            assert(out@.to_multiset().add(rest@.to_multiset()) =~= before.to_multiset().add(
                before_rest.to_multiset(),
            ));
        }
    }
    assert(rest@.to_multiset() =~= Multiset::<T>::empty());
    assert(out@.to_multiset().add(rest@.to_multiset()) =~= out@.to_multiset());
    out
}

/// A reordering of a sequence whose keys are distinct keeps them distinct
/// and keeps the same elements.
pub proof fn lemma_reorder_keeps_keys<T>(v: Seq<T>, r: Seq<T>, key: spec_fn(T) -> i64)
    requires
        r.to_multiset() == v.to_multiset(),
        forall|i: int, j: int| 0 <= i < j < v.len() ==> key(#[trigger] v[i]) != key(#[trigger] v[j]),
    ensures
        r.len() == v.len(),
        forall|i: int| 0 <= i < r.len() ==> v.contains(#[trigger] r[i]),
        forall|i: int| 0 <= i < v.len() ==> r.contains(#[trigger] v[i]),
        forall|i: int, j: int| 0 <= i < j < r.len() ==> key(#[trigger] r[i]) != key(#[trigger] r[j]),
{
    broadcast use vstd::seq_lib::to_multiset_contains, vstd::seq_lib::to_multiset_len;

    assert(r.len() == r.to_multiset().len());
    assert(v.len() == v.to_multiset().len());
    assert forall|i: int| 0 <= i < r.len() implies v.contains(#[trigger] r[i]) by {
        assert(r.contains(r[i]));
        assert(r.to_multiset().count(r[i]) > 0);
        assert(v.to_multiset().count(r[i]) > 0);
    }
    assert forall|i: int| 0 <= i < v.len() implies r.contains(#[trigger] v[i]) by {
        assert(v.contains(v[i]));
        assert(v.to_multiset().count(v[i]) > 0);
    }
    assert(v.no_duplicates()) by {
        assert forall|i: int, j: int| 0 <= i < v.len() && 0 <= j < v.len() && i != j implies v[i] != v[j] by {
            if i < j {
                assert(key(v[i]) != key(v[j]));
            } else {
                assert(key(v[j]) != key(v[i]));
            }
        }
    }
    v.lemma_multiset_has_no_duplicates();
    r.lemma_multiset_has_no_duplicates_conv();
    assert forall|i: int, j: int| 0 <= i < j < r.len() implies key(#[trigger] r[i]) != key(#[trigger] r[j]) by {
        assert(v.contains(r[i]));
        assert(v.contains(r[j]));
        let a = choose|a: int| 0 <= a < v.len() && v[a] == r[i];
        let b = choose|b: int| 0 <= b < v.len() && v[b] == r[j];
        assert(r[i] != r[j]);
        assert(a != b);
        if a < b {
            assert(key(v[a]) != key(v[b]));
        } else {
            assert(key(v[b]) != key(v[a]));
        }
    }
}

/// Lexicographic order on character sequences: the order in which SQLite's
/// default collation sorts text.
pub open spec fn text_le(a: Seq<char>, b: Seq<char>) -> bool
    decreases a.len(),
{
    if a.len() == 0 {
        true
    } else if b.len() == 0 {
        false
    } else if a[0] != b[0] {
        (a[0] as int) < (b[0] as int)
    } else {
        text_le(a.drop_first(), b.drop_first())
    }
}

pub proof fn lemma_text_le_total(a: Seq<char>, b: Seq<char>)
    ensures
        text_le(a, b) || text_le(b, a),
    decreases a.len(),
{
    if a.len() > 0 && b.len() > 0 && a[0] == b[0] {
        lemma_text_le_total(a.drop_first(), b.drop_first());
    }
}

pub proof fn lemma_text_le_transitive(a: Seq<char>, b: Seq<char>, c: Seq<char>)
    requires
        text_le(a, b),
        text_le(b, c),
    ensures
        text_le(a, c),
    decreases a.len(),
{
    if a.len() > 0 && b.len() > 0 && c.len() > 0 && a[0] == b[0] && b[0] == c[0] {
        lemma_text_le_transitive(a.drop_first(), b.drop_first(), c.drop_first());
    }
}

/// Whether `a` sorts no later than `b`.
pub fn text_in_order(a: &str, b: &str) -> (r: bool)
    ensures
        r == text_le(a@, b@),
{
    let n = a.unicode_len();
    let m = b.unicode_len();
    let mut i: usize = 0;
    assert(a@.skip(0) =~= a@ && b@.skip(0) =~= b@);
    loop
        invariant
            n == a@.len(),
            m == b@.len(),
            i <= n,
            i <= m,
            text_le(a@, b@) == text_le(a@.skip(i as int), b@.skip(i as int)),
        decreases n - i,
    {
        if i == n {
            return true;
        }
        if i == m {
            return false;
        }
        let x = a.get_char(i);
        let y = b.get_char(i);
        assert(a@.skip(i as int)[0] == x && b@.skip(i as int)[0] == y);
        if x != y {
            return (x as u32) < (y as u32);
        }
        assert(a@.skip(i as int).drop_first() =~= a@.skip(i + 1));
        assert(b@.skip(i as int).drop_first() =~= b@.skip(i + 1));
        i = i + 1;
    }
}

} // verus!
