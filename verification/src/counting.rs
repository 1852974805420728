//! Counting the elements of a sequence that satisfy a predicate, and why the
//! count does not depend on the order of the elements.

use vstd::prelude::*;
use vstd::seq_lib::{to_multiset_build, to_multiset_remove};

verus! {

/// How many elements of `s` satisfy `p`.
pub open spec fn count_where<A>(s: Seq<A>, p: spec_fn(A) -> bool) -> nat
    decreases s.len(),
{
    if s.len() == 0 {
        0
    } else {
        count_where(s.drop_last(), p) + if p(s.last()) {
            1nat
        } else {
            0nat
        }
    }
}

/// Whether some element of `s` satisfies `p`.
pub open spec fn some_where<A>(s: Seq<A>, p: spec_fn(A) -> bool) -> bool {
    exists|i: int| 0 <= i < s.len() && p(#[trigger] s[i])
}

/// One more element adds one to the count if it satisfies the predicate.
pub proof fn lemma_count_push<A>(s: Seq<A>, x: A, p: spec_fn(A) -> bool)
    ensures
        count_where(s.push(x), p) == count_where(s, p) + if p(x) {
            1nat
        } else {
            0nat
        },
{
    assert(s.push(x).drop_last() =~= s);
}

/// The count of a concatenation is the sum of the counts.
pub proof fn lemma_count_concat<A>(a: Seq<A>, b: Seq<A>, p: spec_fn(A) -> bool)
    ensures
        count_where(a + b, p) == count_where(a, p) + count_where(b, p),
    decreases b.len(),
{
    if b.len() == 0 {
        assert(a + b =~= a);
    } else {
        assert((a + b).drop_last() =~= a + b.drop_last());
        lemma_count_concat(a, b.drop_last(), p);
    }
}

/// Nothing is counted unless some element satisfies the predicate.
pub proof fn lemma_count_some<A>(s: Seq<A>, p: spec_fn(A) -> bool)
    ensures
        count_where(s, p) > 0 <==> some_where(s, p),
    decreases s.len(),
{
    if s.len() > 0 {
        let t = s.drop_last();
        lemma_count_some(t, p);
        if some_where(t, p) {
            let i = choose|i: int| 0 <= i < t.len() && p(#[trigger] t[i]);
            assert(p(s[i]));
        }
        if p(s.last()) {
            assert(p(s[s.len() - 1]));
        }
        if some_where(s, p) {
            let i = choose|i: int| 0 <= i < s.len() && p(#[trigger] s[i]);
            if i < t.len() {
                assert(p(t[i]));
            }
        }
    }
}

/// Two sequences that hold the same elements, each as often as the other,
/// have the same count.
pub proof fn lemma_count_permutation<A>(a: Seq<A>, b: Seq<A>, p: spec_fn(A) -> bool)
    requires
        a.to_multiset() == b.to_multiset(),
    ensures
        count_where(a, p) == count_where(b, p),
    decreases a.len(),
{
    broadcast use vstd::seq_lib::group_to_multiset_ensures;

    a.to_multiset_ensures();
    b.to_multiset_ensures();
    if a.len() == 0 {
        assert(b.len() == 0);
    } else {
        let x = a.last();
        let a1 = a.drop_last();
        assert(a1.push(x) =~= a);
        to_multiset_build(a1, x);
        assert(a.to_multiset().count(x) > 0);
        let j = choose|j: int| 0 <= j < b.len() && b[j] == x;
        let b1 = b.remove(j);
        to_multiset_remove(b, j);
        assert(a1.to_multiset() =~= a.to_multiset().remove(x));
        lemma_count_permutation(a1, b1, p);
        let front = b.subrange(0, j);
        let back = b.subrange(j + 1, b.len() as int);
        assert(b =~= front.push(x) + back);
        lemma_count_concat(front, back, p);
        lemma_count_concat(front.push(x), back, p);
        lemma_count_push(front, x, p);
    }
}

/// Whether some element satisfies a predicate does not depend on the order
/// of the elements either.
pub proof fn lemma_some_permutation<A>(a: Seq<A>, b: Seq<A>, p: spec_fn(A) -> bool)
    requires
        a.to_multiset() == b.to_multiset(),
    ensures
        some_where(a, p) == some_where(b, p),
{
    lemma_count_permutation(a, b, p);
    lemma_count_some(a, p);
    lemma_count_some(b, p);
}

/// Some element of a concatenation satisfies a predicate exactly when some
/// element of one of the parts does.
pub proof fn lemma_some_concat<A>(a: Seq<A>, b: Seq<A>, p: spec_fn(A) -> bool)
    ensures
        some_where(a + b, p) == (some_where(a, p) || some_where(b, p)),
{
    lemma_count_concat(a, b, p);
    lemma_count_some(a, p);
    lemma_count_some(b, p);
    lemma_count_some(a + b, p);
}

} // verus!
