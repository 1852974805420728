//! Comparing the names found in source text with the requested terms.

use vstd::prelude::*;
use vstd::utf8::encode_utf8;
use crate::results::{KeywordHit, KeywordMatch, LabelHit, LabelMatch};
use crate::text::{
    ascii_lower, bytes_eq_ignore_ascii_case, eq_ignore_ascii_case, last_index, last_segment,
    lemma_last_index,
};
use crate::vendor::Vendor;

verus! {

/// The byte that separates the segments of a namespaced name.
pub const NAMESPACE_SEPARATOR: u8 = 0x5c;

/// `name` is the term, up to the case of ASCII letters.
pub open spec fn names_term(name: Seq<u8>, term: Seq<char>) -> bool {
    eq_ignore_ascii_case(name, encode_utf8(term))
}

/// The position of the first of `terms` that `name` is, if it is any.
pub open spec fn first_match(name: Seq<u8>, terms: Seq<Seq<char>>) -> Option<int>
    decreases terms.len(),
{
    if terms.len() == 0 {
        None
    } else if names_term(name, terms[0]) {
        Some(0)
    } else {
        match first_match(name, terms.drop_first()) {
            Some(i) => Some(i + 1),
            None => None,
        }
    }
}

/// The keyword match that a name gives: one match, of the first keyword that
/// the name is, or none.
pub open spec fn keyword_hit(
    name: Seq<u8>,
    keywords: Seq<Seq<char>>,
    vendor: Vendor,
    is_hard: bool,
) -> Seq<KeywordHit> {
    match first_match(name, keywords) {
        Some(i) => seq![KeywordHit { keyword: keywords[i], vendor, is_hard }],
        None => Seq::empty(),
    }
}

/// The label matches that a name gives: one for each label that the name
/// is, in the order of the labels.
pub open spec fn label_hits_of(name: Seq<u8>, labels: Seq<Seq<char>>, vendor: Vendor) -> Seq<
    LabelHit,
>
    decreases labels.len(),
{
    if labels.len() == 0 {
        Seq::empty()
    } else {
        let rest = label_hits_of(name, labels.drop_last(), vendor);
        if names_term(name, labels.last()) {
            rest.push(LabelHit { label: labels.last(), vendor })
        } else {
            rest
        }
    }
}

/// `first_match` finds the least position whose term the name is.
pub proof fn lemma_first_match(name: Seq<u8>, terms: Seq<Seq<char>>)
    ensures
        match first_match(name, terms) {
            Some(i) => 0 <= i < terms.len() && names_term(name, terms[i]) && forall|j: int|
                0 <= j < i ==> !names_term(name, #[trigger] terms[j]),
            None => forall|j: int| 0 <= j < terms.len() ==> !names_term(name, #[trigger] terms[j]),
        },
    decreases terms.len(),
{
    if terms.len() > 0 && !names_term(name, terms[0]) {
        let rest = terms.drop_first();
        lemma_first_match(name, rest);
        match first_match(name, rest) {
            Some(i) => {
                assert forall|j: int| 0 <= j < i + 1 implies !names_term(
                    name,
                    #[trigger] terms[j],
                ) by {
                    if j > 0 {
                        assert(rest[j - 1] == terms[j]);
                    }
                }
            },
            None => {
                assert forall|j: int| 0 <= j < terms.len() implies !names_term(
                    name,
                    #[trigger] terms[j],
                ) by {
                    if j > 0 {
                        assert(rest[j - 1] == terms[j]);
                    }
                }
            },
        }
    }
}

/// Equality up to ASCII case is an equivalence.
pub proof fn lemma_eq_ignore_ascii_case(a: Seq<u8>, b: Seq<u8>, c: Seq<u8>)
    ensures
        eq_ignore_ascii_case(a, a),
        eq_ignore_ascii_case(a, b) ==> eq_ignore_ascii_case(b, a),
        eq_ignore_ascii_case(a, b) && eq_ignore_ascii_case(b, c) ==> eq_ignore_ascii_case(a, c),
{
    if eq_ignore_ascii_case(a, b) {
        if eq_ignore_ascii_case(b, c) {
            assert forall|i: int| 0 <= i < a.len() implies ascii_lower(#[trigger] a[i])
                == ascii_lower(c[i]) by {
                assert(ascii_lower(b[i]) == ascii_lower(c[i]));
            }
        }
    }
}

/// Matching does not look at the case of ASCII letters: two names that
/// differ in case only match the same term.
pub proof fn lemma_match_ignores_case(a: Seq<u8>, b: Seq<u8>, terms: Seq<Seq<char>>)
    requires
        eq_ignore_ascii_case(a, b),
    ensures
        first_match(a, terms) == first_match(b, terms),
    decreases terms.len(),
{
    if terms.len() > 0 {
        lemma_eq_ignore_ascii_case(a, b, encode_utf8(terms[0]));
        lemma_eq_ignore_ascii_case(b, a, encode_utf8(terms[0]));
        lemma_match_ignores_case(a, b, terms.drop_first());
    }
}

/// Label matching does not look at the case of ASCII letters either.
pub proof fn lemma_labels_ignore_case(
    a: Seq<u8>,
    b: Seq<u8>,
    labels: Seq<Seq<char>>,
    vendor: Vendor,
)
    requires
        eq_ignore_ascii_case(a, b),
    ensures
        label_hits_of(a, labels, vendor) == label_hits_of(b, labels, vendor),
    decreases labels.len(),
{
    if labels.len() > 0 {
        lemma_eq_ignore_ascii_case(a, b, encode_utf8(labels.last()));
        lemma_eq_ignore_ascii_case(b, a, encode_utf8(labels.last()));
        lemma_labels_ignore_case(a, b, labels.drop_last(), vendor);
    }
}

/// Two names that differ in case only have last segments that differ in case
/// only.
pub proof fn lemma_last_segment_ignores_case(a: Seq<u8>, b: Seq<u8>)
    requires
        eq_ignore_ascii_case(a, b),
    ensures
        eq_ignore_ascii_case(
            last_segment(a, NAMESPACE_SEPARATOR),
            last_segment(b, NAMESPACE_SEPARATOR),
        ),
{
    let sep = NAMESPACE_SEPARATOR;
    lemma_last_index(a, sep);
    lemma_last_index(b, sep);
    let s = last_index(a, sep) + 1;
    let t = last_index(b, sep) + 1;
    assert forall|i: int| 0 <= i < a.len() implies (a[i] == sep <==> b[i] == sep) by {
        assert(ascii_lower(a[i]) == ascii_lower(b[i]));
    }
    if s < t {
        assert(b[t - 1] == sep);
    }
    if t < s {
        assert(a[s - 1] == sep);
    }
    let x = last_segment(a, sep);
    let y = last_segment(b, sep);
    assert forall|i: int| 0 <= i < x.len() implies ascii_lower(#[trigger] x[i]) == ascii_lower(
        y[i],
    ) by {
        assert(ascii_lower(a[s + i]) == ascii_lower(b[s + i]));
    }
}

/// The first of `terms` that `name` is, up to ASCII case.
pub fn find_term(name: &[u8], terms: &[String]) -> (r: Option<usize>)
    ensures
        match r {
            Some(i) => i < terms@.len() && first_match(name@, crate::report::terms_of(terms@))
                == Some(i as int),
            None => first_match(name@, crate::report::terms_of(terms@)) is None,
        },
{
    let ghost all = crate::report::terms_of(terms@);
    let mut i: usize = 0;
    while i < terms.len()
        invariant
            i <= terms.len(),
            all == crate::report::terms_of(terms@),
            forall|j: int| 0 <= j < i ==> !names_term(name@, #[trigger] all[j]),
        decreases terms.len() - i,
    {
        if bytes_eq_ignore_ascii_case(name, terms[i].as_str().as_bytes()) {
            proof {
                assert(names_term(name@, all[i as int]));
                lemma_first_match(name@, all);
            }
            return Some(i);
        }
        i += 1;
    }
    proof {
        lemma_first_match(name@, all);
    }
    None
}

/// Adds the keyword match that `name` gives, if it gives one.
pub fn push_keyword_match(
    matches: &mut Vec<KeywordMatch>,
    name: &[u8],
    keywords: &[String],
    vendor: Vendor,
    is_hard: bool,
)
    ensures
        crate::report::keyword_hits(final(matches)@) == crate::report::keyword_hits(old(matches)@)
            + keyword_hit(name@, crate::report::terms_of(keywords@), vendor, is_hard),
{
    match find_term(name, keywords) {
        Some(i) => {
            let m = KeywordMatch { keyword: keywords[i].clone(), vendor, is_hard };
            matches.push(m);
        },
        None => {
            assert(crate::report::keyword_hits(matches@) =~= crate::report::keyword_hits(
                old(matches)@,
            ) + Seq::<KeywordHit>::empty());
        },
    }
}

/// Adds a label match for each of `labels` that `name` is.
pub fn push_label_matches(
    matches: &mut Vec<LabelMatch>,
    name: &[u8],
    labels: &[String],
    vendor: Vendor,
)
    ensures
        crate::report::label_hits(final(matches)@) == crate::report::label_hits(old(matches)@)
            + label_hits_of(name@, crate::report::terms_of(labels@), vendor),
{
    let ghost all = crate::report::terms_of(labels@);
    let ghost before = crate::report::label_hits(matches@);
    let mut i: usize = 0;
    while i < labels.len()
        invariant
            i <= labels.len(),
            all == crate::report::terms_of(labels@),
            crate::report::label_hits(matches@) == before + label_hits_of(
                name@,
                all.take(i as int),
                vendor,
            ),
        decreases labels.len() - i,
    {
        let ghost so_far = label_hits_of(name@, all.take(i as int), vendor);
        let ghost held = matches@;
        assert(all.take(i + 1).drop_last() =~= all.take(i as int));
        if bytes_eq_ignore_ascii_case(name, labels[i].as_str().as_bytes()) {
            let m = LabelMatch { label: labels[i].clone(), vendor };
            matches.push(m);
            assert(crate::report::label_hits(matches@) =~= crate::report::label_hits(held).push(
                m@,
            ));
            assert(before + so_far.push(m@) =~= (before + so_far).push(m@));
        }
        i += 1;
    }
    assert(all.take(labels@.len() as int) =~= all);
}

} // verus!
