//! What a collection of matches amounts to for each term, stated without
//! regard to the order in which the matches are folded.

use vstd::prelude::*;
use crate::counting::{
    count_where, lemma_count_concat, lemma_count_permutation, lemma_some_concat,
    lemma_some_permutation, some_where,
};
use crate::results::{KeywordHit, KeywordTally, LabelHit, LabelTally};
use crate::vendor::Vendor;

verus! {

/// The soft matches of keyword `k`.
pub open spec fn soft_of(k: Seq<char>) -> spec_fn(KeywordHit) -> bool {
    |h: KeywordHit| h.keyword == k && !h.is_hard
}

/// The hard matches of keyword `k`.
pub open spec fn hard_of(k: Seq<char>) -> spec_fn(KeywordHit) -> bool {
    |h: KeywordHit| h.keyword == k && h.is_hard
}

/// The matches of keyword `k`.
pub open spec fn keyword_is(k: Seq<char>) -> spec_fn(KeywordHit) -> bool {
    |h: KeywordHit| h.keyword == k
}

/// The matches of keyword `k` in packages of vendor `v`.
pub open spec fn keyword_from(k: Seq<char>, v: Vendor) -> spec_fn(KeywordHit) -> bool {
    |h: KeywordHit| h.keyword == k && h.vendor == v
}

/// The matches of label `k`.
pub open spec fn label_is(k: Seq<char>) -> spec_fn(LabelHit) -> bool {
    |h: LabelHit| h.label == k
}

/// The matches of label `k` in packages of vendor `v`.
pub open spec fn label_from(k: Seq<char>, v: Vendor) -> spec_fn(LabelHit) -> bool {
    |h: LabelHit| h.label == k && h.vendor == v
}

/// What `hits` amount to for keyword `k`: the number of its soft matches, the
/// number of its hard matches, and the well-known vendors it was seen in.
pub open spec fn keyword_tally(hits: Seq<KeywordHit>, k: Seq<char>) -> KeywordTally {
    KeywordTally {
        soft: count_where(hits, soft_of(k)),
        hard: count_where(hits, hard_of(k)),
        vendors: Set::new(|v: Vendor| v.well_known() && some_where(hits, keyword_from(k, v))),
    }
}

/// What `hits` amount to for label `k`: the number of its matches and the
/// well-known vendors it was seen in.
pub open spec fn label_tally(hits: Seq<LabelHit>, k: Seq<char>) -> LabelTally {
    LabelTally {
        count: count_where(hits, label_is(k)),
        vendors: Set::new(|v: Vendor| v.well_known() && some_where(hits, label_from(k, v))),
    }
}

/// The keyword map after `hits` were folded into `base`: a keyword has a
/// record if it had one or if a match names it, and its record is what it had
/// plus what the matches amount to.
pub open spec fn tallied_keywords(
    base: Map<Seq<char>, KeywordTally>,
    hits: Seq<KeywordHit>,
) -> Map<Seq<char>, KeywordTally> {
    Map::new(
        |k: Seq<char>| base.contains_key(k) || some_where(hits, keyword_is(k)),
        |k: Seq<char>|
            (if base.contains_key(k) {
                base[k]
            } else {
                KeywordTally::zero()
            }).plus(keyword_tally(hits, k)),
    )
}

/// The label map after `hits` were folded into `base`.
pub open spec fn tallied_labels(
    base: Map<Seq<char>, LabelTally>,
    hits: Seq<LabelHit>,
) -> Map<Seq<char>, LabelTally> {
    Map::new(
        |k: Seq<char>| base.contains_key(k) || some_where(hits, label_is(k)),
        |k: Seq<char>|
            (if base.contains_key(k) {
                base[k]
            } else {
                LabelTally::zero()
            }).plus(label_tally(hits, k)),
    )
}

/// The keyword map with a zero record for each of `terms` that had none.
pub open spec fn with_terms(
    base: Map<Seq<char>, KeywordTally>,
    terms: Seq<Seq<char>>,
) -> Map<Seq<char>, KeywordTally> {
    Map::new(
        |k: Seq<char>| base.contains_key(k) || terms.contains(k),
        |k: Seq<char>|
            if base.contains_key(k) {
                base[k]
            } else {
                KeywordTally::zero()
            },
    )
}

/// Taking tallies together is commutative and associative, and the zero tally
/// changes nothing.
pub proof fn lemma_keyword_plus_laws(a: KeywordTally, b: KeywordTally, c: KeywordTally)
    ensures
        a.plus(b) == b.plus(a),
        a.plus(b).plus(c) == a.plus(b.plus(c)),
        a.plus(KeywordTally::zero()) == a,
{
    assert(a.plus(b) =~= b.plus(a));
}

/// Taking label tallies together is commutative and associative, and the zero
/// tally changes nothing.
pub proof fn lemma_label_plus_laws(a: LabelTally, b: LabelTally, c: LabelTally)
    ensures
        a.plus(b) == b.plus(a),
        a.plus(b).plus(c) == a.plus(b.plus(c)),
        a.plus(LabelTally::zero()) == a,
{
    assert(a.plus(b) =~= b.plus(a));
}

/// The tally of two batches is the tallies of the batches taken together.
pub proof fn lemma_keyword_tally_concat(a: Seq<KeywordHit>, b: Seq<KeywordHit>, k: Seq<char>)
    ensures
        keyword_tally(a + b, k) == keyword_tally(a, k).plus(keyword_tally(b, k)),
{
    lemma_count_concat(a, b, soft_of(k));
    lemma_count_concat(a, b, hard_of(k));
    assert forall|v: Vendor|
        some_where(a + b, keyword_from(k, v)) == (some_where(a, keyword_from(k, v)) || some_where(
            b,
            keyword_from(k, v),
        )) by {
        lemma_some_concat(a, b, keyword_from(k, v));
    }
}

/// The tally of two batches of label matches is the tallies of the batches
/// taken together.
pub proof fn lemma_label_tally_concat(a: Seq<LabelHit>, b: Seq<LabelHit>, k: Seq<char>)
    ensures
        label_tally(a + b, k) == label_tally(a, k).plus(label_tally(b, k)),
{
    lemma_count_concat(a, b, label_is(k));
    assert forall|v: Vendor|
        some_where(a + b, label_from(k, v)) == (some_where(a, label_from(k, v)) || some_where(
            b,
            label_from(k, v),
        )) by {
        lemma_some_concat(a, b, label_from(k, v));
    }
}

/// One more match changes the tally of its own keyword by `with_hit`, and no
/// other tally.
pub proof fn lemma_keyword_tally_push(hits: Seq<KeywordHit>, hit: KeywordHit, k: Seq<char>)
    ensures
        keyword_tally(hits.push(hit), k) == if hit.keyword == k {
            keyword_tally(hits, k).with_hit(hit)
        } else {
            keyword_tally(hits, k)
        },
        some_where(hits.push(hit), keyword_is(k)) == (hit.keyword == k || some_where(
            hits,
            keyword_is(k),
        )),
{
    let one = seq![hit];
    assert(hits.push(hit) =~= hits + one);
    lemma_keyword_tally_concat(hits, one, k);
    lemma_some_concat(hits, one, keyword_is(k));
    assert(count_where(one.drop_last(), soft_of(k)) == 0);
    assert(count_where(one.drop_last(), hard_of(k)) == 0);
    let t = keyword_tally(one, k);
    if hit.keyword == k {
        if hit.vendor.well_known() {
            assert(keyword_from(k, hit.vendor)(one[0]));
        }
    } else {
        assert(t.vendors =~= Set::empty());
    }
}

/// One more label match changes the tally of its own label by `with_hit`,
/// and no other tally.
pub proof fn lemma_label_tally_push(hits: Seq<LabelHit>, hit: LabelHit, k: Seq<char>)
    ensures
        label_tally(hits.push(hit), k) == if hit.label == k {
            label_tally(hits, k).with_hit(hit)
        } else {
            label_tally(hits, k)
        },
        some_where(hits.push(hit), label_is(k)) == (hit.label == k || some_where(
            hits,
            label_is(k),
        )),
{
    let one = seq![hit];
    assert(hits.push(hit) =~= hits + one);
    lemma_label_tally_concat(hits, one, k);
    lemma_some_concat(hits, one, label_is(k));
    assert(count_where(one.drop_last(), label_is(k)) == 0);
    let t = label_tally(one, k);
    if hit.label == k {
        if hit.vendor.well_known() {
            assert(label_from(k, hit.vendor)(one[0]));
        }
    } else {
        assert(t.vendors =~= Set::empty());
    }
}

/// No keyword is counted more often than there are matches.
pub proof fn lemma_keyword_tally_bound(hits: Seq<KeywordHit>, k: Seq<char>)
    ensures
        keyword_tally(hits, k).total() <= hits.len(),
    decreases hits.len(),
{
    if hits.len() > 0 {
        let rest = hits.drop_last();
        assert(hits =~= rest.push(hits.last()));
        lemma_keyword_tally_bound(rest, k);
        lemma_keyword_tally_push(rest, hits.last(), k);
    }
}

/// No label is counted more often than there are matches.
pub proof fn lemma_label_tally_bound(hits: Seq<LabelHit>, k: Seq<char>)
    ensures
        label_tally(hits, k).count <= hits.len(),
    decreases hits.len(),
{
    if hits.len() > 0 {
        let rest = hits.drop_last();
        assert(hits =~= rest.push(hits.last()));
        lemma_label_tally_bound(rest, k);
        lemma_label_tally_push(rest, hits.last(), k);
    }
}

/// The tally of a keyword does not depend on the order of the matches.
pub proof fn lemma_keyword_tally_permutation(a: Seq<KeywordHit>, b: Seq<KeywordHit>, k: Seq<char>)
    requires
        a.to_multiset() == b.to_multiset(),
    ensures
        keyword_tally(a, k) == keyword_tally(b, k),
        some_where(a, keyword_is(k)) == some_where(b, keyword_is(k)),
{
    lemma_count_permutation(a, b, soft_of(k));
    lemma_count_permutation(a, b, hard_of(k));
    lemma_some_permutation(a, b, keyword_is(k));
    assert forall|v: Vendor|
        some_where(a, keyword_from(k, v)) == some_where(b, keyword_from(k, v)) by {
        lemma_some_permutation(a, b, keyword_from(k, v));
    }
}

/// The tally of a label does not depend on the order of the matches.
pub proof fn lemma_label_tally_permutation(a: Seq<LabelHit>, b: Seq<LabelHit>, k: Seq<char>)
    requires
        a.to_multiset() == b.to_multiset(),
    ensures
        label_tally(a, k) == label_tally(b, k),
        some_where(a, label_is(k)) == some_where(b, label_is(k)),
{
    lemma_count_permutation(a, b, label_is(k));
    lemma_some_permutation(a, b, label_is(k));
    assert forall|v: Vendor| some_where(a, label_from(k, v)) == some_where(b, label_from(k, v)) by {
        lemma_some_permutation(a, b, label_from(k, v));
    }
}

/// Folding matches into a keyword map gives the same map in whatever order
/// the matches come.
pub proof fn lemma_keyword_fold_order(
    base: Map<Seq<char>, KeywordTally>,
    a: Seq<KeywordHit>,
    b: Seq<KeywordHit>,
)
    requires
        a.to_multiset() == b.to_multiset(),
    ensures
        tallied_keywords(base, a) == tallied_keywords(base, b),
{
    let left = tallied_keywords(base, a);
    let right = tallied_keywords(base, b);
    assert forall|k: Seq<char>| left.contains_key(k) == right.contains_key(k) by {
        lemma_keyword_tally_permutation(a, b, k);
    }
    assert forall|k: Seq<char>| left.contains_key(k) implies left[k] == right[k] by {
        lemma_keyword_tally_permutation(a, b, k);
    }
}

/// Folding label matches into a label map gives the same map in whatever
/// order the matches come.
pub proof fn lemma_label_fold_order(
    base: Map<Seq<char>, LabelTally>,
    a: Seq<LabelHit>,
    b: Seq<LabelHit>,
)
    requires
        a.to_multiset() == b.to_multiset(),
    ensures
        tallied_labels(base, a) == tallied_labels(base, b),
{
    let left = tallied_labels(base, a);
    let right = tallied_labels(base, b);
    assert forall|k: Seq<char>| left.contains_key(k) == right.contains_key(k) by {
        lemma_label_tally_permutation(a, b, k);
    }
    assert forall|k: Seq<char>| left.contains_key(k) implies left[k] == right[k] by {
        lemma_label_tally_permutation(a, b, k);
    }
}

/// Folding one batch and then another gives what folding the two batches at
/// once gives: matches may be split between workers at will.
pub proof fn lemma_keyword_fold_split(
    base: Map<Seq<char>, KeywordTally>,
    a: Seq<KeywordHit>,
    b: Seq<KeywordHit>,
)
    ensures
        tallied_keywords(tallied_keywords(base, a), b) == tallied_keywords(base, a + b),
{
    let left = tallied_keywords(tallied_keywords(base, a), b);
    let right = tallied_keywords(base, a + b);
    assert forall|k: Seq<char>| left.contains_key(k) == right.contains_key(k) by {
        lemma_some_concat(a, b, keyword_is(k));
    }
    assert forall|k: Seq<char>| left.contains_key(k) implies left[k] == right[k] by {
        lemma_keyword_tally_concat(a, b, k);
        let start = if base.contains_key(k) {
            base[k]
        } else {
            KeywordTally::zero()
        };
        lemma_keyword_plus_laws(start, keyword_tally(a, k), keyword_tally(b, k));
        lemma_keyword_plus_laws(KeywordTally::zero(), keyword_tally(a, k), keyword_tally(b, k));
        lemma_keyword_plus_laws(keyword_tally(a, k), KeywordTally::zero(), keyword_tally(b, k));
        if !tallied_keywords(base, a).contains_key(k) {
            lemma_unseen_keyword(a, k);
        }
    }
}

/// Folding one batch of label matches and then another gives what folding
/// the two batches at once gives.
pub proof fn lemma_label_fold_split(
    base: Map<Seq<char>, LabelTally>,
    a: Seq<LabelHit>,
    b: Seq<LabelHit>,
)
    ensures
        tallied_labels(tallied_labels(base, a), b) == tallied_labels(base, a + b),
{
    let left = tallied_labels(tallied_labels(base, a), b);
    let right = tallied_labels(base, a + b);
    assert forall|k: Seq<char>| left.contains_key(k) == right.contains_key(k) by {
        lemma_some_concat(a, b, label_is(k));
    }
    assert forall|k: Seq<char>| left.contains_key(k) implies left[k] == right[k] by {
        lemma_label_tally_concat(a, b, k);
        let start = if base.contains_key(k) {
            base[k]
        } else {
            LabelTally::zero()
        };
        lemma_label_plus_laws(start, label_tally(a, k), label_tally(b, k));
        lemma_label_plus_laws(LabelTally::zero(), label_tally(a, k), label_tally(b, k));
        lemma_label_plus_laws(label_tally(a, k), LabelTally::zero(), label_tally(b, k));
        if !tallied_labels(base, a).contains_key(k) {
            lemma_unseen_label(a, k);
        }
    }
}

/// Folding no match changes nothing.
pub proof fn lemma_keyword_fold_nothing(base: Map<Seq<char>, KeywordTally>)
    ensures
        tallied_keywords(base, Seq::empty()) == base,
{
    let hits = Seq::<KeywordHit>::empty();
    assert forall|k: Seq<char>| base.contains_key(k) implies #[trigger] tallied_keywords(
        base,
        hits,
    )[k] == base[k] by {
        lemma_unseen_keyword(hits, k);
        lemma_keyword_plus_laws(base[k], KeywordTally::zero(), KeywordTally::zero());
    }
}

/// Folding no label match changes nothing.
pub proof fn lemma_label_fold_nothing(base: Map<Seq<char>, LabelTally>)
    ensures
        tallied_labels(base, Seq::empty()) == base,
{
    let hits = Seq::<LabelHit>::empty();
    assert forall|k: Seq<char>| base.contains_key(k) implies #[trigger] tallied_labels(
        base,
        hits,
    )[k] == base[k] by {
        lemma_unseen_label(hits, k);
        lemma_label_plus_laws(base[k], LabelTally::zero(), LabelTally::zero());
    }
}

/// A keyword that no match names has the zero tally.
pub proof fn lemma_unseen_keyword(hits: Seq<KeywordHit>, k: Seq<char>)
    requires
        !some_where(hits, keyword_is(k)),
    ensures
        keyword_tally(hits, k) == KeywordTally::zero(),
{
    crate::counting::lemma_count_some(hits, soft_of(k));
    crate::counting::lemma_count_some(hits, hard_of(k));
    if some_where(hits, soft_of(k)) {
        let i = choose|i: int| 0 <= i < hits.len() && soft_of(k)(#[trigger] hits[i]);
        assert(keyword_is(k)(hits[i]));
    }
    if some_where(hits, hard_of(k)) {
        let i = choose|i: int| 0 <= i < hits.len() && hard_of(k)(#[trigger] hits[i]);
        assert(keyword_is(k)(hits[i]));
    }
}

/// A label that no match names has the zero tally.
pub proof fn lemma_unseen_label(hits: Seq<LabelHit>, k: Seq<char>)
    requires
        !some_where(hits, label_is(k)),
    ensures
        label_tally(hits, k) == LabelTally::zero(),
{
    crate::counting::lemma_count_some(hits, label_is(k));
}

} // verus!
