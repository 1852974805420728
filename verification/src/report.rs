//! The report of a run: one record per keyword and per label, and the number
//! of files that were scanned.

use vstd::prelude::*;
use crate::counting::some_where;
use crate::results::{
    KeywordHit, KeywordMatch, KeywordResult, KeywordTally, LabelHit, LabelMatch, LabelResult,
    LabelTally,
};
use crate::tally::{
    keyword_is, lemma_keyword_tally_push, lemma_label_tally_push, tallied_keywords,
    tallied_labels, with_terms,
};
use crate::term_map::TermMap;

verus! {

/// Below this number of scanned files a report is too thin to rely on.
pub const RECOMMENDED_FILE_COUNT: usize = 200_000;

/// What the matches of a batch say.
pub open spec fn keyword_hits(matches: Seq<KeywordMatch>) -> Seq<KeywordHit> {
    matches.map_values(|m: KeywordMatch| m@)
}

/// What the label matches of a batch say.
pub open spec fn label_hits(matches: Seq<LabelMatch>) -> Seq<LabelHit> {
    matches.map_values(|m: LabelMatch| m@)
}

/// The terms of a request, each as a sequence of characters.
pub open spec fn terms_of(terms: Seq<String>) -> Seq<Seq<char>> {
    terms.map_values(|t: String| t@)
}

/// The outcome of an analysis.
pub struct AnalysisReport {
    pub keyword_results: TermMap<KeywordResult>,
    pub label_results: TermMap<LabelResult>,
    pub total_files: usize,
}

impl AnalysisReport {
    /// The tally of each keyword.
    pub open spec fn keywords(&self) -> Map<Seq<char>, KeywordTally> {
        self.keyword_results@.map_values(|r: KeywordResult| r@)
    }

    /// The tally of each label.
    pub open spec fn labels(&self) -> Map<Seq<char>, LabelTally> {
        self.label_results@.map_values(|r: LabelResult| r@)
    }

    /// Every keyword record can count `n` more matches, and its total still
    /// fits the machine's word.
    pub open spec fn keyword_room(&self, n: nat) -> bool {
        forall|k: Seq<char>| #[trigger]
            self.keywords().contains_key(k) ==> self.keywords()[k].total() + n <= usize::MAX
    }

    /// Every label record can count `n` more matches.
    pub open spec fn label_room(&self, n: nat) -> bool {
        forall|k: Seq<char>| #[trigger]
            self.labels().contains_key(k) ==> self.labels()[k].count + n <= usize::MAX
    }

    /// An empty report on `total_files` scanned files.
    pub fn new(total_files: usize) -> (r: AnalysisReport)
        ensures
            r.keywords() == Map::<Seq<char>, KeywordTally>::empty(),
            r.labels() == Map::<Seq<char>, LabelTally>::empty(),
            r.total_files == total_files,
    {
        let r = AnalysisReport {
            keyword_results: TermMap::new(),
            label_results: TermMap::new(),
            total_files,
        };
        assert(r.labels() =~= Map::<Seq<char>, LabelTally>::empty());
        r
    }

    /// Folds a batch of keyword matches into the report: each match is
    /// counted in the record of its keyword, which is created if need be.
    /// Room that was there for this batch and more is there for the rest
    /// afterwards, so that batches can be folded one after the other.
    pub fn add_keyword_matches(&mut self, matches: Vec<KeywordMatch>)
        requires
            old(self).keyword_room(matches@.len()),
        ensures
            final(self).keywords() == tallied_keywords(
                old(self).keywords(),
                keyword_hits(matches@),
            ),
            final(self).keyword_room(0),
            forall|n: nat|
                matches@.len() + n <= usize::MAX && old(self).keyword_room(matches@.len() + n)
                    ==> #[trigger] final(self).keyword_room(n),
            final(self).label_results == old(self).label_results,
            final(self).total_files == old(self).total_files,
    {
        let ghost hits = keyword_hits(matches@);
        let ghost base = self.keywords();
        let n = matches.len();
        proof {
            assert(hits.take(0) =~= Seq::<KeywordHit>::empty());
            crate::tally::lemma_keyword_fold_nothing(base);
        }
        let mut i: usize = 0;
        while i < n
            invariant
                i <= n,
                n == matches@.len(),
                hits == keyword_hits(matches@),
                self.keywords() == tallied_keywords(base, hits.take(i as int)),
                self.keyword_room((n - i) as nat),
                self.label_results == old(self).label_results,
                self.total_files == old(self).total_files,
            decreases n - i,
        {
            let m = &matches[i];
            let ghost before = self.keywords();
            let ghost k = m.keyword@;
            let mut record = match self.keyword_results.get(m.keyword.as_str()) {
                Some(r) => *r,
                None => KeywordResult::new(),
            };
            proof {
                if before.contains_key(k) {
                    assert(record@ == before[k]);
                }
            }
            record.add_match(m);
            self.keyword_results.insert(m.keyword.clone(), record);
            proof {
                let seen = hits.take(i as int);
                assert(hits.take(i + 1) =~= seen.push(m@));
                let after = tallied_keywords(base, seen.push(m@));
                assert(self.keywords() =~= before.insert(k, record@));
                assert forall|t: Seq<char>| after.contains_key(t) implies after[t]
                    == self.keywords()[t] by {
                    lemma_keyword_tally_push(seen, m@, t);
                    if t == k && !before.contains_key(k) {
                        crate::tally::lemma_unseen_keyword(seen, k);
                    }
                }
            }
            i += 1;
        }
        proof {
            assert(hits.take(n as int) =~= hits);
            assert forall|more: nat|
                matches@.len() + more <= usize::MAX && old(self).keyword_room(matches@.len() + more) implies #[trigger]
                self.keyword_room(more) by {
                assert forall|k: Seq<char>| #[trigger]
                    self.keywords().contains_key(k) implies self.keywords()[k].total() + more
                    <= usize::MAX by {
                    crate::tally::lemma_keyword_tally_bound(hits, k);
                    if base.contains_key(k) {
                        assert(old(self).keywords().contains_key(k));
                    }
                }
            }
        }
    }

    /// Folds a batch of label matches into the report: each match is counted
    /// in the record of its label, which is created if need be. Room that
    /// was there for this batch and more is there for the rest afterwards.
    pub fn add_label_matches(&mut self, matches: Vec<LabelMatch>)
        requires
            old(self).label_room(matches@.len()),
        ensures
            final(self).labels() == tallied_labels(old(self).labels(), label_hits(matches@)),
            final(self).label_room(0),
            forall|n: nat|
                matches@.len() + n <= usize::MAX && old(self).label_room(matches@.len() + n)
                    ==> #[trigger] final(self).label_room(n),
            final(self).keyword_results == old(self).keyword_results,
            final(self).total_files == old(self).total_files,
    {
        let ghost hits = label_hits(matches@);
        let ghost base = self.labels();
        let n = matches.len();
        proof {
            assert(hits.take(0) =~= Seq::<LabelHit>::empty());
            crate::tally::lemma_label_fold_nothing(base);
        }
        let mut i: usize = 0;
        while i < n
            invariant
                i <= n,
                n == matches@.len(),
                hits == label_hits(matches@),
                self.labels() == tallied_labels(base, hits.take(i as int)),
                self.label_room((n - i) as nat),
                self.keyword_results == old(self).keyword_results,
                self.total_files == old(self).total_files,
            decreases n - i,
        {
            let m = &matches[i];
            let ghost before = self.labels();
            let ghost k = m.label@;
            let mut record = match self.label_results.get(m.label.as_str()) {
                Some(r) => *r,
                None => LabelResult::new(),
            };
            proof {
                if before.contains_key(k) {
                    assert(record@ == before[k]);
                }
            }
            record.add_match(m);
            self.label_results.insert(m.label.clone(), record);
            proof {
                let seen = hits.take(i as int);
                assert(hits.take(i + 1) =~= seen.push(m@));
                let after = tallied_labels(base, seen.push(m@));
                assert(self.labels() =~= before.insert(k, record@));
                assert forall|t: Seq<char>| after.contains_key(t) implies after[t]
                    == self.labels()[t] by {
                    lemma_label_tally_push(seen, m@, t);
                    if t == k && !before.contains_key(k) {
                        crate::tally::lemma_unseen_label(seen, k);
                    }
                }
            }
            i += 1;
        }
        proof {
            assert(hits.take(n as int) =~= hits);
            assert forall|more: nat|
                matches@.len() + more <= usize::MAX && old(self).label_room(matches@.len() + more) implies #[trigger]
                self.label_room(more) by {
                assert forall|k: Seq<char>| #[trigger]
                    self.labels().contains_key(k) implies self.labels()[k].count + more
                    <= usize::MAX by {
                    crate::tally::lemma_label_tally_bound(hits, k);
                    if base.contains_key(k) {
                        assert(old(self).labels().contains_key(k));
                    }
                }
            }
        }
    }

    /// Gives every requested keyword a record: one that has none gets a
    /// record without matches, so that a keyword that was looked for and not
    /// found still shows in the report.
    pub fn ensure_all_keywords(&mut self, keywords: &[String])
        ensures
            final(self).keywords() == with_terms(old(self).keywords(), terms_of(keywords@)),
            old(self).keyword_room(0) ==> final(self).keyword_room(0),
            final(self).label_results == old(self).label_results,
            final(self).total_files == old(self).total_files,
    {
        let ghost terms = terms_of(keywords@);
        let ghost base = self.keywords();
        proof {
            assert(self.keywords() =~= with_terms(base, terms.take(0)));
        }
        let mut i: usize = 0;
        while i < keywords.len()
            invariant
                i <= keywords.len(),
                terms == terms_of(keywords@),
                self.keywords() == with_terms(base, terms.take(i as int)),
                self.label_results == old(self).label_results,
                self.total_files == old(self).total_files,
            decreases keywords.len() - i,
        {
            let keyword = &keywords[i];
            let ghost before = self.keywords();
            if !self.keyword_results.contains_key(keyword.as_str()) {
                self.keyword_results.insert(keyword.clone(), KeywordResult::new());
            }
            proof {
                let seen = terms.take(i as int);
                let k = keyword@;
                assert(terms.take(i + 1) =~= seen.push(k));
                let after = with_terms(base, seen.push(k));
                assert(self.keywords() =~= if before.contains_key(k) {
                    before
                } else {
                    before.insert(k, KeywordTally::zero())
                });
                assert forall|t: Seq<char>| after.contains_key(t) == self.keywords().contains_key(
                    t,
                ) by {
                    if seen.push(k).contains(t) {
                        let j = choose|j: int| 0 <= j < seen.push(k).len() && seen.push(k)[j] == t;
                        if j < seen.len() {
                            assert(seen[j] == t);
                        }
                    }
                    if seen.contains(t) {
                        let j = choose|j: int| 0 <= j < seen.len() && seen[j] == t;
                        assert(seen.push(k)[j] == t);
                    }
                    if t == k {
                        assert(seen.push(k)[seen.len() as int] == t);
                    }
                }
            }
            i += 1;
        }
        proof {
            assert(terms.take(keywords@.len() as int) =~= terms);
        }
    }

    /// Whether fewer files were scanned than a reliable report needs.
    pub fn should_warn_low_file_count(&self) -> (r: bool)
        ensures
            r == (self.total_files < RECOMMENDED_FILE_COUNT),
    {
        self.total_files < RECOMMENDED_FILE_COUNT
    }
}

/// Every requested keyword has a record in a report that was completed with
/// `ensure_all_keywords`, and the record of a keyword that no match names and
/// that had no record before counts nothing.
pub proof fn lemma_requested_keywords_present(
    base: Map<Seq<char>, KeywordTally>,
    hits: Seq<KeywordHit>,
    terms: Seq<Seq<char>>,
    i: int,
)
    requires
        0 <= i < terms.len(),
    ensures
        with_terms(tallied_keywords(base, hits), terms).contains_key(terms[i]),
        !base.contains_key(terms[i]) && !some_where(hits, keyword_is(terms[i])) ==> with_terms(
            tallied_keywords(base, hits),
            terms,
        )[terms[i]] == KeywordTally::zero(),
{
    assert(terms.contains(terms[i]));
}

} // verus!
