//! Lexical path arithmetic on `/`-separated text.

use vstd::prelude::*;
use crate::text::{concat2, concat3};

verus! {

/// `rel` appended to `base` as `PathBuf::push` does it: an absolute `rel`
/// replaces `base`, and a separator goes in between unless `base` is empty or
/// already ends with one.
pub open spec fn spec_join(base: Seq<char>, rel: Seq<char>) -> Seq<char> {
    if rel.len() > 0 && rel[0] == '/' {
        rel
    } else if base.len() == 0 || base.last() == '/' {
        base + rel
    } else {
        base + seq!['/'] + rel
    }
}

/// `base` joined with `rel`.
pub fn join(base: &str, rel: &str) -> (r: String)
    ensures
        r@ == spec_join(base@, rel@),
{
    let n = base.unicode_len();
    let m = rel.unicode_len();
    if m > 0 && rel.get_char(0) == '/' {
        return rel.to_string();
    }
    if n == 0 || base.get_char(n - 1) == '/' {
        concat2(base, rel)
    } else {
        proof { reveal_strlit("/"); }
        let r = concat3(base, "/", rel);
        assert(r@ == spec_join(base@, rel@));
        r
    }
}

/// `base` with each of `names` appended in turn, as repeated
/// `PathBuf::push` does it.
pub open spec fn spec_join_all(base: Seq<char>, names: Seq<Seq<char>>) -> Seq<char>
    decreases names.len(),
{
    if names.len() == 0 {
        base
    } else {
        spec_join(spec_join_all(base, names.drop_last()), names.last())
    }
}

/// The texts of `names`.
pub open spec fn texts(names: Seq<String>) -> Seq<Seq<char>> {
    names.map_values(|n: String| n@)
}

/// `base` with each of `names` appended in turn.
pub fn join_all(base: &str, names: &Vec<String>) -> (r: String)
    ensures
        r@ == spec_join_all(base@, texts(names@)),
{
    let mut acc = base.to_string();
    let mut i: usize = 0;
    while i < names.len()
        invariant
            i <= names.len(),
            acc@ == spec_join_all(base@, texts(names@.take(i as int))),
        decreases names.len() - i,
    {
        let next = join(acc.as_str(), names[i].as_str());
        proof {
            let done = texts(names@.take(i as int + 1));
            assert(done.drop_last() =~= texts(names@.take(i as int)));
            assert(done.last() == names@[i as int]@);
        }
        acc = next;
        i = i + 1;
    }
    assert(names@.take(names.len() as int) =~= names@);
    acc
}

} // verus!
