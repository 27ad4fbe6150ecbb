//! Stable ordering of a sequence by a strict "comes before" relation, as insertion does it:
//! each element in turn goes after every element that it does not come before.
use vstd::prelude::*;

verus! {

/// Where `x` goes among `s`: scanning from the back, past every element that `x` comes before.
pub open spec fn insert_point<T>(s: Seq<T>, x: T, before: spec_fn(T, T) -> bool) -> int
    decreases s.len(),
{
    if s.len() > 0 && before(x, s.last()) {
        insert_point(s.drop_last(), x, before)
    } else {
        s.len() as int
    }
}

/// `s` with `x` placed at its insertion point.
pub open spec fn insert_by<T>(s: Seq<T>, x: T, before: spec_fn(T, T) -> bool) -> Seq<T> {
    s.insert(insert_point(s, x, before), x)
}

/// The elements of `s` ordered by `before`; elements that neither comes before the other keep
/// their order in `s`.
pub open spec fn sort_by<T>(s: Seq<T>, before: spec_fn(T, T) -> bool) -> Seq<T>
    decreases s.len(),
{
    if s.len() == 0 {
        Seq::empty()
    } else {
        insert_by(sort_by(s.drop_last(), before), s.last(), before)
    }
}

pub proof fn lemma_insert_point_bounds<T>(s: Seq<T>, x: T, before: spec_fn(T, T) -> bool)
    ensures
        0 <= insert_point(s, x, before) <= s.len(),
    decreases s.len(),
{
    if s.len() > 0 && before(x, s.last()) {
        lemma_insert_point_bounds(s.drop_last(), x, before);
    }
}

/// Scanning a prefix: the insertion point in `s` is that in its first `j` elements, as long
/// as `x` comes before every element after them.
pub proof fn lemma_insert_point_prefix<T>(s: Seq<T>, x: T, before: spec_fn(T, T) -> bool, j: int)
    requires
        0 <= j <= s.len(),
        forall|k: int| j <= k < s.len() ==> before(x, #[trigger] s[k]),
    ensures
        insert_point(s, x, before) == insert_point(s.take(j), x, before),
    decreases s.len() - j,
{
    if j < s.len() {
        assert(s.drop_last() =~= s.take(s.len() - 1));
        lemma_insert_point_prefix(s.drop_last(), x, before, j);
        assert(s.drop_last().take(j) =~= s.take(j));
    } else {
        assert(s.take(j) =~= s);
    }
}

pub proof fn lemma_sort_len<T>(s: Seq<T>, before: spec_fn(T, T) -> bool)
    ensures
        sort_by(s, before).len() == s.len(),
    decreases s.len(),
{
    if s.len() > 0 {
        lemma_sort_len(s.drop_last(), before);
        lemma_insert_point_bounds(sort_by(s.drop_last(), before), s.last(), before);
    }
}

} // verus!
