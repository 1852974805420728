//! What a report shows: its rows in ranked order, the text of each cell, and
//! which of its tables appear.

use vstd::prelude::*;
use vstd::string::StringExecFns;
use vstd::utf8::encode_utf8;
use crate::ranking::{
    in_order, lemma_precedes_order, lists_all, precedes, rank_order, Rank, RankKey,
};
use crate::report::{AnalysisReport, RECOMMENDED_FILE_COUNT};
use crate::results::{ImpactLevel, KeywordTally, LabelTally};
use crate::text::lex_less;
use crate::vendor::{Vendor, VendorSet};
use crate::wrap::wrapped;

verus! {

/// The widest line of vendor names in a table cell.
pub const VENDOR_CELL_WIDTH: usize = 60;

/// The vendors in the order of their names.
pub open spec fn vendors_by_name() -> Seq<Vendor> {
    seq![
        Vendor::Other,
        Vendor::Doctrine,
        Vendor::Illuminate,
        Vendor::Laravel,
        Vendor::Phpunit,
        Vendor::Symfony,
        Vendor::Twig,
    ]
}

/// The names of those of `vendors` that are in `set`, in the order of
/// `vendors`.
pub open spec fn names_among(vendors: Seq<Vendor>, set: Set<Vendor>) -> Seq<Seq<char>>
    decreases vendors.len(),
{
    if vendors.len() == 0 {
        Seq::empty()
    } else {
        let rest = names_among(vendors.drop_last(), set);
        if set.contains(vendors.last()) {
            rest.push(vendors.last().bare_name())
        } else {
            rest
        }
    }
}

/// The parts with `", "` between them.
pub open spec fn joined(parts: Seq<Seq<char>>) -> Seq<char>
    decreases parts.len(),
{
    if parts.len() == 0 {
        Seq::empty()
    } else if parts.len() == 1 {
        parts[0]
    } else {
        joined(parts.drop_last()) + seq![',', ' '] + parts.last()
    }
}

/// The cell that names the vendors of a record: a dash for none, otherwise
/// their names in alphabetical order, separated by `", "` and broken into
/// lines of at most `VENDOR_CELL_WIDTH` bytes.
pub open spec fn vendor_text(set: Set<Vendor>) -> Seq<char> {
    if set == Set::<Vendor>::empty() {
        "-"@
    } else {
        wrapped(joined(names_among(vendors_by_name(), set)), VENDOR_CELL_WIDTH as nat)
    }
}

/// In `vendors_by_name` each name comes before the next in the dictionary.
pub proof fn lemma_vendors_by_name_sorted(i: int, j: int)
    requires
        0 <= i < j < vendors_by_name().len(),
    ensures
        lex_less(
            encode_utf8(vendors_by_name()[i].bare_name()),
            encode_utf8(vendors_by_name()[j].bare_name()),
        ),
{
    reveal_strlit("symfony");
    reveal_strlit("laravel");
    reveal_strlit("doctrine");
    reveal_strlit("phpunit");
    reveal_strlit("twig");
    reveal_strlit("illuminate");
    reveal_strlit("");
    let a = vendors_by_name()[i].bare_name();
    let b = vendors_by_name()[j].bare_name();
    vstd::utf8::is_ascii_chars_encode_utf8(a);
    vstd::utf8::is_ascii_chars_encode_utf8(b);
    if a.len() > 0 {
        assert(a[0] as u8 == encode_utf8(a)[0]);
    }
}

/// The names of the vendors in `set`, in alphabetical order and separated by
/// `", "`.
fn vendor_names(set: &VendorSet) -> (r: String)
    ensures
        r@ == joined(names_among(vendors_by_name(), set@)),
{
    let order: [Vendor; 7] = [
        Vendor::Other,
        Vendor::Doctrine,
        Vendor::Illuminate,
        Vendor::Laravel,
        Vendor::Phpunit,
        Vendor::Symfony,
        Vendor::Twig,
    ];
    let mut text = String::new();
    let mut count: usize = 0;
    let mut i: usize = 0;
    while i < 7
        invariant
            i <= 7,
            count <= i,
            order@ == vendors_by_name(),
            count == names_among(order@.take(i as int), set@).len(),
            text@ == joined(names_among(order@.take(i as int), set@)),
        decreases 7 - i,
    {
        let v = order[i];
        proof {
            assert(order@.take(i + 1).drop_last() =~= order@.take(i as int));
        }
        if set.contains(v) {
            let ghost before = names_among(order@.take(i as int), set@);
            if count > 0 {
                proof {
                    reveal_strlit(", ");
                }
                text.append(", ");
            }
            text.append(v.name());
            count += 1;
            proof {
                let now = before.push(v.bare_name());
                assert(now.drop_last() =~= before);
                if before.len() == 0 {
                    assert(text@ =~= v.bare_name());
                } else {
                    assert(text@ =~= joined(before) + seq![',', ' '] + v.bare_name());
                }
            }
        }
        i += 1;
    }
    assert(order@.take(7) =~= order@);
    text
}

/// The text of the cell that names the vendors of a record.
pub fn well_known_text(set: &VendorSet) -> (r: String)
    ensures
        r@ == vendor_text(set@),
{
    if set.is_empty() {
        "-".to_owned()
    } else {
        let names = vendor_names(set);
        AnalysisReport::wrap_text(names.as_str(), VENDOR_CELL_WIDTH)
    }
}

/// The colours of the impact cells.
#[derive(Debug, Clone, Copy, PartialEq, Eq, Structural)]
pub enum CellColor {
    Green,
    Cyan,
    Yellow,
    Red,
    Magenta,
}

/// How an impact tier is shown: its name, in a colour, and in bold for the
/// highest tier.
#[derive(Debug, Clone, Copy)]
pub struct ImpactCell {
    pub text: &'static str,
    pub color: CellColor,
    pub bold: bool,
}

/// The colour of a tier: green, cyan, yellow, red and magenta, from the
/// lowest tier to the highest.
pub open spec fn tier_color(impact: ImpactLevel) -> CellColor {
    match impact {
        ImpactLevel::NoImpact => CellColor::Green,
        ImpactLevel::Low => CellColor::Cyan,
        ImpactLevel::Medium => CellColor::Yellow,
        ImpactLevel::High => CellColor::Red,
        ImpactLevel::Critical => CellColor::Magenta,
    }
}

/// One row of the keyword table.
#[derive(Debug, Clone)]
pub struct KeywordRow {
    pub keyword: String,
    pub soft_count: usize,
    pub hard_count: usize,
    pub soft_impact: ImpactLevel,
    pub hard_impact: ImpactLevel,
    pub well_known_vendors: String,
}

/// One row of the label table.
#[derive(Debug, Clone)]
pub struct LabelRow {
    pub label: String,
    pub count: usize,
    pub well_known_vendors: String,
}

impl KeywordRow {
    /// The row shows what `tally` holds.
    pub open spec fn shows(&self, tally: KeywordTally) -> bool {
        &&& self.soft_count == tally.soft
        &&& self.hard_count == tally.hard
        &&& self.soft_impact == tally.soft_tier()
        &&& self.hard_impact == tally.hard_tier()
        &&& self.well_known_vendors@ == vendor_text(tally.vendors)
    }

    /// What the row is ranked by: the tier of all its matches, their number,
    /// and the keyword.
    pub open spec fn rank(&self) -> Rank {
        Rank {
            severity: self.hard_impact.rank(),
            total: (self.soft_count + self.hard_count) as nat,
            term: encode_utf8(self.keyword@),
        }
    }
}

impl LabelRow {
    /// The row shows what `tally` holds.
    pub open spec fn shows(&self, tally: LabelTally) -> bool {
        &&& self.count == tally.count
        &&& self.well_known_vendors@ == vendor_text(tally.vendors)
    }

    /// What the row is ranked by: the label alone.
    pub open spec fn rank(&self) -> Rank {
        Rank { severity: 0, total: 0, term: encode_utf8(self.label@) }
    }
}

/// What the row of keyword `k` with the record `tally` is ranked by: the tier
/// of all its matches, their number, and the keyword.
pub open spec fn keyword_rank(k: Seq<char>, tally: KeywordTally) -> Rank {
    Rank { severity: tally.hard_tier().rank(), total: tally.total(), term: encode_utf8(k) }
}

/// What the row of label `k` is ranked by: the label alone.
pub open spec fn label_rank(k: Seq<char>) -> Rank {
    Rank { severity: 0, total: 0, term: encode_utf8(k) }
}

/// `rows` is the keyword table of `keywords`: one row for each keyword, with
/// what its record holds, the rows ranked by the tier of all matches from the
/// highest down, then by the number of matches from the highest down, then by
/// keyword in dictionary order.
pub open spec fn is_keyword_table(
    rows: Seq<KeywordRow>,
    keywords: Map<Seq<char>, KeywordTally>,
) -> bool {
    &&& forall|i: int|
        0 <= i < rows.len() ==> keywords.contains_key(#[trigger] rows[i].keyword@) && rows[i].shows(
            keywords[rows[i].keyword@],
        )
    &&& forall|k: Seq<char>| #[trigger]
        keywords.contains_key(k) ==> exists|i: int|
            0 <= i < rows.len() && #[trigger] rows[i].keyword@ == k
    &&& forall|i: int, j: int|
        0 <= i < j < rows.len() ==> precedes(#[trigger] rows[i].rank(), #[trigger] rows[j].rank())
}

/// `rows` is the label table of `labels`: one row for each label, with what
/// its record holds, the rows in the dictionary order of the labels.
pub open spec fn is_label_table(rows: Seq<LabelRow>, labels: Map<Seq<char>, LabelTally>) -> bool {
    &&& forall|i: int|
        0 <= i < rows.len() ==> labels.contains_key(#[trigger] rows[i].label@) && rows[i].shows(
            labels[rows[i].label@],
        )
    &&& forall|k: Seq<char>| #[trigger]
        labels.contains_key(k) ==> exists|i: int|
            0 <= i < rows.len() && #[trigger] rows[i].label@ == k
    &&& forall|i: int, j: int|
        0 <= i < j < rows.len() ==> precedes(#[trigger] rows[i].rank(), #[trigger] rows[j].rank())
}

/// One table of a report: not asked for, asked for but without a row, or
/// its rows.
#[derive(Debug, Clone)]
pub enum Table<R> {
    Hidden,
    Empty,
    Rows(Vec<R>),
}

/// What `display_table` shows.
#[derive(Debug, Clone)]
pub struct TableDisplay {
    /// Whether the warning about a low number of scanned files is shown.
    pub low_file_count: bool,
    pub keywords: Table<KeywordRow>,
    /// Whether an empty line separates the two tables.
    pub separator: bool,
    pub labels: Table<LabelRow>,
}

/// Two different texts have different UTF-8 forms.
proof fn lemma_encoding_injective(a: Seq<char>, b: Seq<char>)
    requires
        a != b,
    ensures
        encode_utf8(a) != encode_utf8(b),
{
    vstd::utf8::encode_utf8_decode_utf8(a);
    vstd::utf8::encode_utf8_decode_utf8(b);
}

impl AnalysisReport {
    /// How the cell of an impact tier is shown.
    pub fn create_impact_cell(impact: ImpactLevel) -> (r: ImpactCell)
        ensures
            r.text@ == impact.name(),
            r.color == tier_color(impact),
            r.bold == (impact == ImpactLevel::Critical),
    {
        match impact {
            ImpactLevel::NoImpact => ImpactCell {
                text: impact.as_str(),
                color: CellColor::Green,
                bold: false,
            },
            ImpactLevel::Low => ImpactCell {
                text: impact.as_str(),
                color: CellColor::Cyan,
                bold: false,
            },
            ImpactLevel::Medium => ImpactCell {
                text: impact.as_str(),
                color: CellColor::Yellow,
                bold: false,
            },
            ImpactLevel::High => ImpactCell {
                text: impact.as_str(),
                color: CellColor::Red,
                bold: false,
            },
            ImpactLevel::Critical => ImpactCell {
                text: impact.as_str(),
                color: CellColor::Magenta,
                bold: true,
            },
        }
    }

    /// The rows of the keyword table, in the order in which they are shown.
    pub fn keyword_rows(&self) -> (rows: Vec<KeywordRow>)
        requires
            self.keyword_room(0),
        ensures
            is_keyword_table(rows@, self.keywords()),
            rows@.len() == self.keywords().dom().len(),
    {
        let n = self.keyword_results.len();
        let ghost terms = self.keyword_results.terms();
        assert(self.keywords().dom() =~= self.keyword_results@.dom());
        let mut keys: Vec<RankKey> = Vec::new();
        let mut i: usize = 0;
        while i < n
            invariant
                i <= n,
                n == terms.len(),
                terms == self.keyword_results.terms(),
                self.keyword_room(0),
                keys@.len() == i,
                forall|p: int| 0 <= p < i ==> self.keywords().contains_key(#[trigger] terms[p]),
                forall|p: int|
                    0 <= p < i ==> (#[trigger] keys@[p])@ == keyword_rank(terms[p], self.keywords()[terms[p]]),
            decreases n - i,
        {
            let record = self.keyword_results.value_at(i);
            assert(self.keywords().contains_key(terms[i as int]));
            let key = RankKey {
                severity: record.hard_impact().severity(),
                total: record.total_count(),
                term: self.keyword_results.term_at(i).as_str().as_bytes(),
            };
            keys.push(key);
            i += 1;
        }
        let order = rank_order(&keys);
        let ghost ranks = keys@.map_values(|k: RankKey| k@);
        let mut rows: Vec<KeywordRow> = Vec::new();
        let mut p: usize = 0;
        while p < n
            invariant
                p <= n,
                n == terms.len(),
                terms == self.keyword_results.terms(),
                self.keyword_room(0),
                lists_all(order@, n as nat),
                rows@.len() == p,
                ranks.len() == n,
                forall|q: int|
                    0 <= q < n ==> {
                        &&& self.keywords().contains_key(terms[q])
                        &&& #[trigger] ranks[q] == keyword_rank(terms[q], self.keywords()[terms[q]])
                    },
                forall|q: int|
                    0 <= q < p ==> {
                        &&& (#[trigger] rows@[q]).keyword@ == terms[order@[q] as int]
                        &&& self.keywords().contains_key(terms[order@[q] as int])
                        &&& rows@[q].shows(self.keywords()[terms[order@[q] as int]])
                    },
            decreases n - p,
        {
            let at = order[p];
            let record = self.keyword_results.value_at(at);
            assert(self.keywords().contains_key(terms[at as int]));
            rows.push(
                KeywordRow {
                    keyword: self.keyword_results.term_at(at).clone(),
                    soft_count: record.soft_count,
                    hard_count: record.hard_count,
                    soft_impact: record.soft_impact(),
                    hard_impact: record.hard_impact(),
                    well_known_vendors: well_known_text(&record.well_known_vendors),
                },
            );
            p += 1;
        }
        proof {
            let keywords = self.keywords();
            assert forall|k: Seq<char>| #[trigger] keywords.contains_key(k) implies exists|i: int|
                0 <= i < rows@.len() && #[trigger] rows@[i].keyword@ == k by {
                let q = choose|q: int| 0 <= q < terms.len() && terms[q] == k;
                assert(order@.contains(q as usize));
                let i = choose|i: int| 0 <= i < order@.len() && order@[i] == q as usize;
                assert(rows@[i].keyword@ == k);
            }
            assert forall|i: int, j: int| 0 <= i < j < rows@.len() implies precedes(
                #[trigger] rows@[i].rank(),
                #[trigger] rows@[j].rank(),
            ) by {
                let a = order@[i] as int;
                let b = order@[j] as int;
                lemma_encoding_injective(terms[a], terms[b]);
                assert(in_order(ranks, order@, i, j));
                lemma_precedes_order(ranks[a], ranks[b], ranks[a]);
            }
        }
        rows
    }
    /// The rows of the label table, in the order in which they are shown.
    pub fn label_rows(&self) -> (rows: Vec<LabelRow>)
        ensures
            is_label_table(rows@, self.labels()),
            rows@.len() == self.labels().dom().len(),
    {
        let n = self.label_results.len();
        let ghost terms = self.label_results.terms();
        assert(self.labels().dom() =~= self.label_results@.dom());
        let mut keys: Vec<RankKey> = Vec::new();
        let mut i: usize = 0;
        while i < n
            invariant
                i <= n,
                n == terms.len(),
                terms == self.label_results.terms(),
                keys@.len() == i,
                forall|p: int| 0 <= p < i ==> (#[trigger] keys@[p])@ == label_rank(terms[p]),
            decreases n - i,
        {
            keys.push(
                RankKey {
                    severity: 0,
                    total: 0,
                    term: self.label_results.term_at(i).as_str().as_bytes(),
                },
            );
            i += 1;
        }
        let order = rank_order(&keys);
        let ghost ranks = keys@.map_values(|k: RankKey| k@);
        let mut rows: Vec<LabelRow> = Vec::new();
        let mut p: usize = 0;
        while p < n
            invariant
                p <= n,
                n == terms.len(),
                terms == self.label_results.terms(),
                lists_all(order@, n as nat),
                rows@.len() == p,
                forall|q: int|
                    0 <= q < p ==> {
                        &&& (#[trigger] rows@[q]).label@ == terms[order@[q] as int]
                        &&& self.labels().contains_key(terms[order@[q] as int])
                        &&& rows@[q].shows(self.labels()[terms[order@[q] as int]])
                    },
            decreases n - p,
        {
            let at = order[p];
            let record = self.label_results.value_at(at);
            assert(self.labels().contains_key(terms[at as int]));
            rows.push(
                LabelRow {
                    label: self.label_results.term_at(at).clone(),
                    count: record.count,
                    well_known_vendors: well_known_text(&record.well_known_vendors),
                },
            );
            p += 1;
        }
        proof {
            let labels = self.labels();
            assert forall|k: Seq<char>| #[trigger] labels.contains_key(k) implies exists|i: int|
                0 <= i < rows@.len() && #[trigger] rows@[i].label@ == k by {
                let q = choose|q: int| 0 <= q < terms.len() && terms[q] == k;
                assert(order@.contains(q as usize));
                let i = choose|i: int| 0 <= i < order@.len() && order@[i] == q as usize;
                assert(rows@[i].label@ == k);
            }
            assert forall|i: int, j: int| 0 <= i < j < rows@.len() implies precedes(
                #[trigger] rows@[i].rank(),
                #[trigger] rows@[j].rank(),
            ) by {
                let a = order@[i] as int;
                let b = order@[j] as int;
                lemma_encoding_injective(terms[a], terms[b]);
                assert(in_order(ranks, order@, i, j));
                lemma_precedes_order(ranks[a], ranks[b], ranks[a]);
            }
        }
        rows
    }

    /// What is shown of the report. The warning comes first, if fewer files
    /// were scanned than recommended. Each of the two tables is shown if it
    /// is asked for, the keyword table above the label table; a table that
    /// is asked for and has no row shows as empty. An empty line separates
    /// the label table from the rows of the keyword table.
    pub fn display_table(&self, show_keywords: bool, show_labels: bool) -> (shown: TableDisplay)
        requires
            self.keyword_room(0),
        ensures
            shown.low_file_count == (self.total_files < RECOMMENDED_FILE_COUNT),
            match shown.keywords {
                Table::Hidden => !show_keywords,
                Table::Empty => show_keywords && self.keywords().dom().len() == 0,
                Table::Rows(rows) => show_keywords && rows@.len() > 0 && is_keyword_table(
                    rows@,
                    self.keywords(),
                ),
            },
            match shown.labels {
                Table::Hidden => !show_labels,
                Table::Empty => show_labels && self.labels().dom().len() == 0,
                Table::Rows(rows) => show_labels && rows@.len() > 0 && is_label_table(
                    rows@,
                    self.labels(),
                ),
            },
            shown.separator == (show_labels && shown.keywords is Rows),
    {
        let low_file_count = self.should_warn_low_file_count();
        let mut keywords: Table<KeywordRow> = Table::Hidden;
        let mut separator = false;
        if show_keywords {
            let rows = self.keyword_rows();
            if rows.len() == 0 {
                keywords = Table::Empty;
            } else {
                keywords = Table::Rows(rows);
                separator = show_labels;
            }
        }
        let mut labels: Table<LabelRow> = Table::Hidden;
        if show_labels {
            let rows = self.label_rows();
            if rows.len() == 0 {
                labels = Table::Empty;
            } else {
                labels = Table::Rows(rows);
            }
        }
        TableDisplay { low_file_count, keywords, separator, labels }
    }
}

} // verus!
