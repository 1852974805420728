use php_syntax_analyzer::display::{well_known_text, CellColor, Table};
use php_syntax_analyzer::report::AnalysisReport;
use php_syntax_analyzer::results::{ImpactLevel, KeywordMatch, LabelMatch};
use php_syntax_analyzer::term_map::TermMap;
use php_syntax_analyzer::vendor::{Vendor, VendorSet};

fn soft(term: &str, vendor: Vendor) -> KeywordMatch {
    KeywordMatch { keyword: term.to_string(), vendor, is_hard: false }
}

fn hard(term: &str, vendor: Vendor) -> KeywordMatch {
    KeywordMatch { keyword: term.to_string(), vendor, is_hard: true }
}

fn repeated(m: KeywordMatch, times: usize) -> Vec<KeywordMatch> {
    let mut all = Vec::new();
    for _ in 0..times {
        all.push(m.clone());
    }
    all
}

#[test]
fn short_text_is_not_wrapped() {
    assert_eq!(AnalysisReport::wrap_text("doctrine, symfony", 60), "doctrine, symfony");
    assert_eq!(AnalysisReport::wrap_text("", 0), "");
    assert_eq!(AnalysisReport::wrap_text("abc", 3), "abc");
}

#[test]
fn long_text_is_wrapped_between_words() {
    assert_eq!(AnalysisReport::wrap_text("aaa, bbb, ccc", 8), "aaa, bbb\nccc");
    assert_eq!(AnalysisReport::wrap_text("aaa, bbb, ccc", 7), "aaa\nbbb\nccc");
    assert_eq!(AnalysisReport::wrap_text("aaa, bbb, ccc, ddd", 13), "aaa, bbb, ccc\nddd");
    assert_eq!(AnalysisReport::wrap_text("aaa, bbb, ccc, ddd", 12), "aaa, bbb\nccc, ddd");
}

#[test]
fn a_word_wider_than_the_line_stands_alone() {
    assert_eq!(AnalysisReport::wrap_text("abcdefgh", 4), "abcdefgh");
    assert_eq!(AnalysisReport::wrap_text("abcdefgh, ij", 4), "abcdefgh\nij");
    assert_eq!(AnalysisReport::wrap_text("ij, abcdefgh, kl", 4), "ij\nabcdefgh\nkl");
}

#[test]
fn only_comma_and_space_together_part_words() {
    assert_eq!(AnalysisReport::wrap_text("a,b, c d,e", 5), "a,b\nc d,e");
    assert_eq!(AnalysisReport::wrap_text("aaaa,, bbbb", 6), "aaaa,\nbbbb");
}

#[test]
fn width_is_counted_in_bytes() {
    assert_eq!(AnalysisReport::wrap_text("\u{e9}\u{e9}, \u{e9}\u{e9}", 9), "\u{e9}\u{e9}\n\u{e9}\u{e9}");
    assert_eq!(AnalysisReport::wrap_text("\u{e9}\u{e9}, \u{e9}\u{e9}", 10), "\u{e9}\u{e9}, \u{e9}\u{e9}");
}

#[test]
fn vendors_are_named_in_alphabetical_order() {
    let mut set = VendorSet::new();
    assert_eq!(well_known_text(&set), "-");
    set.insert(Vendor::Symfony);
    assert_eq!(well_known_text(&set), "symfony");
    set.insert(Vendor::Doctrine);
    set.insert(Vendor::Twig);
    assert_eq!(well_known_text(&set), "doctrine, symfony, twig");
    set.insert(Vendor::Laravel);
    set.insert(Vendor::Phpunit);
    set.insert(Vendor::Illuminate);
    assert_eq!(well_known_text(&set), "doctrine, illuminate, laravel, phpunit, symfony, twig");
}

#[test]
fn impact_cells_are_coloured_by_tier() {
    let none = AnalysisReport::create_impact_cell(ImpactLevel::NoImpact);
    assert_eq!((none.text, none.color, none.bold), ("None", CellColor::Green, false));
    let low = AnalysisReport::create_impact_cell(ImpactLevel::Low);
    assert_eq!((low.text, low.color, low.bold), ("Low", CellColor::Cyan, false));
    let medium = AnalysisReport::create_impact_cell(ImpactLevel::Medium);
    assert_eq!((medium.text, medium.color, medium.bold), ("Medium", CellColor::Yellow, false));
    let high = AnalysisReport::create_impact_cell(ImpactLevel::High);
    assert_eq!((high.text, high.color, high.bold), ("High", CellColor::Red, false));
    let critical = AnalysisReport::create_impact_cell(ImpactLevel::Critical);
    assert_eq!(
        (critical.text, critical.color, critical.bold),
        ("Critical", CellColor::Magenta, true)
    );
}

#[test]
fn keyword_rows_are_ranked() {
    let mut report = AnalysisReport::new(300_000);
    let mut matches = repeated(soft("beta", Vendor::Other), 3);
    matches.extend(repeated(hard("alpha", Vendor::Symfony), 3));
    matches.extend(repeated(soft("gamma", Vendor::Twig), 30));
    matches.extend(repeated(hard("delta", Vendor::Other), 2));
    matches.extend(repeated(soft("delta", Vendor::Doctrine), 2));
    report.add_keyword_matches(matches);
    report.ensure_all_keywords(&["omega".to_string(), "aardvark".to_string()]);
    let rows = report.keyword_rows();
    let order: Vec<&str> = rows.iter().map(|r| r.keyword.as_str()).collect();
    assert_eq!(order, vec!["gamma", "delta", "alpha", "beta", "aardvark", "omega"]);
    assert_eq!(rows[0].soft_count, 30);
    assert_eq!(rows[0].hard_count, 0);
    assert_eq!(rows[0].soft_impact, ImpactLevel::Medium);
    assert_eq!(rows[0].hard_impact, ImpactLevel::Medium);
    assert_eq!(rows[0].well_known_vendors, "twig");
    assert_eq!((rows[1].soft_count, rows[1].hard_count), (2, 2));
    assert_eq!(rows[1].soft_impact, ImpactLevel::Low);
    assert_eq!(rows[1].well_known_vendors, "doctrine");
    assert_eq!((rows[2].soft_count, rows[2].hard_count), (0, 3));
    assert_eq!(rows[2].soft_impact, ImpactLevel::NoImpact);
    assert_eq!(rows[2].hard_impact, ImpactLevel::Low);
    assert_eq!(rows[2].well_known_vendors, "symfony");
    assert_eq!(rows[3].well_known_vendors, "-");
    assert_eq!(rows[4].hard_impact, ImpactLevel::NoImpact);
}

#[test]
fn label_rows_are_in_dictionary_order() {
    let mut report = AnalysisReport::new(1);
    report.add_label_matches(vec![
        LabelMatch { label: "using".to_string(), vendor: Vendor::Twig },
        LabelMatch { label: "Zeta".to_string(), vendor: Vendor::Other },
        LabelMatch { label: "scope".to_string(), vendor: Vendor::Other },
        LabelMatch { label: "using".to_string(), vendor: Vendor::Symfony },
        LabelMatch { label: "scop".to_string(), vendor: Vendor::Other },
    ]);
    let rows = report.label_rows();
    let order: Vec<&str> = rows.iter().map(|r| r.label.as_str()).collect();
    assert_eq!(order, vec!["Zeta", "scop", "scope", "using"]);
    assert_eq!(rows[3].count, 2);
    assert_eq!(rows[3].well_known_vendors, "symfony, twig");
    assert_eq!(rows[0].well_known_vendors, "-");
}

#[test]
fn both_tables_are_shown_with_a_separator() {
    let mut report = AnalysisReport::new(10);
    report.add_keyword_matches(vec![soft("let", Vendor::Other)]);
    report.add_label_matches(vec![LabelMatch { label: "using".to_string(), vendor: Vendor::Other }]);
    let shown = report.display_table(true, true);
    assert!(shown.low_file_count);
    assert!(shown.separator);
    match shown.keywords {
        Table::Rows(rows) => assert_eq!(rows.len(), 1),
        _ => panic!("the keyword table should have rows"),
    }
    match shown.labels {
        Table::Rows(rows) => assert_eq!(rows[0].label, "using"),
        _ => panic!("the label table should have rows"),
    }
}

#[test]
fn an_empty_keyword_table_does_not_hide_the_labels() {
    let mut report = AnalysisReport::new(200_000);
    report.add_label_matches(vec![
        LabelMatch { label: "using".to_string(), vendor: Vendor::Other },
        LabelMatch { label: "scope".to_string(), vendor: Vendor::Twig },
    ]);
    let shown = report.display_table(true, true);
    assert!(!shown.low_file_count);
    assert!(!shown.separator);
    assert!(matches!(shown.keywords, Table::Empty));
    match shown.labels {
        Table::Rows(rows) => {
            assert_eq!(rows.len(), 2);
            assert_eq!((rows[0].label.as_str(), rows[0].count), ("scope", 1));
            assert_eq!(rows[0].well_known_vendors, "twig");
            assert_eq!((rows[1].label.as_str(), rows[1].count), ("using", 1));
        }
        _ => panic!("the label table should have rows"),
    }
    let empty = AnalysisReport::new(0).display_table(true, true);
    assert!(matches!(empty.keywords, Table::Empty));
    assert!(matches!(empty.labels, Table::Empty));
    assert!(!empty.separator);
}

#[test]
fn tables_that_are_not_asked_for_are_hidden() {
    let mut report = AnalysisReport::new(5);
    report.add_keyword_matches(vec![soft("let", Vendor::Other)]);
    let labels_only = report.display_table(false, true);
    assert!(matches!(labels_only.keywords, Table::Hidden));
    assert!(matches!(labels_only.labels, Table::Empty));
    assert!(!labels_only.separator);
    let keywords_only = report.display_table(true, false);
    assert!(matches!(keywords_only.keywords, Table::Rows(_)));
    assert!(matches!(keywords_only.labels, Table::Hidden));
    assert!(!keywords_only.separator);
    let with_empty_labels = report.display_table(true, true);
    assert!(matches!(with_empty_labels.labels, Table::Empty));
    assert!(with_empty_labels.separator);
    let nothing = report.display_table(false, false);
    assert!(matches!(nothing.keywords, Table::Hidden));
    assert!(matches!(nothing.labels, Table::Hidden));
}

#[test]
fn term_map_keeps_the_order_of_insertion() {
    let mut map: TermMap<u32> = TermMap::new();
    assert!(map.is_empty());
    map.insert("scope".to_string(), 1);
    map.insert("let".to_string(), 2);
    map.insert("scope".to_string(), 3);
    assert_eq!(map.len(), 2);
    assert_eq!(map.term_at(0), "scope");
    assert_eq!(map.term_at(1), "let");
    assert_eq!(*map.value_at(0), 3);
    assert_eq!(map.get("let"), Some(&2));
    assert_eq!(map.get("Let"), None);
    assert_eq!(map.position("let"), Some(1));
    assert!(map.contains_key("scope"));
    assert!(!map.contains_key("sc"));
}
