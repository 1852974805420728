use php_syntax_analyzer::analyzer::{
    analyze_directory, AnalysisContext, Analyzer, FileMatches, SyntaxNode,
};
use php_syntax_analyzer::matching::find_term;
use php_syntax_analyzer::results::{ImpactLevel, KeywordMatch, LabelMatch};
use php_syntax_analyzer::text::{bytes_eq_ignore_ascii_case, bytes_less, last_segment_of};
use php_syntax_analyzer::vendor::Vendor;

fn terms(list: &[&str]) -> Vec<String> {
    list.iter().map(|t| t.to_string()).collect()
}

fn keywords_of(matches: &[KeywordMatch]) -> Vec<(String, Vendor, bool)> {
    matches.iter().map(|m| (m.keyword.clone(), m.vendor, m.is_hard)).collect()
}

fn labels_of(matches: &[LabelMatch]) -> Vec<(String, Vendor)> {
    matches.iter().map(|m| (m.label.clone(), m.vendor)).collect()
}

#[test]
fn bytes_are_compared_without_ascii_case() {
    assert!(bytes_eq_ignore_ascii_case(b"Let", b"lET"));
    assert!(bytes_eq_ignore_ascii_case(b"", b""));
    assert!(!bytes_eq_ignore_ascii_case(b"let", b"lets"));
    assert!(!bytes_eq_ignore_ascii_case(b"le[", b"le{"));
    assert!(!bytes_eq_ignore_ascii_case(b"@", b"`"));
    assert!(!bytes_eq_ignore_ascii_case("\u{c9}".as_bytes(), "\u{e9}".as_bytes()));
}

#[test]
fn last_segment_follows_the_last_backslash() {
    assert_eq!(last_segment_of(b"Foo\\Bar\\let", b'\\'), b"let");
    assert_eq!(last_segment_of(b"\\let", b'\\'), b"let");
    assert_eq!(last_segment_of(b"let", b'\\'), b"let");
    assert_eq!(last_segment_of(b"Foo\\", b'\\'), b"");
    assert_eq!(last_segment_of(b"", b'\\'), b"");
}

#[test]
fn dictionary_order_of_bytes() {
    assert!(bytes_less(b"alpha", b"beta"));
    assert!(bytes_less(b"scop", b"scope"));
    assert!(bytes_less(b"", b"a"));
    assert!(bytes_less(b"Zeta", b"alpha"));
    assert!(!bytes_less(b"beta", b"alpha"));
    assert!(!bytes_less(b"same", b"same"));
    assert!(!bytes_less(b"", b""));
}

#[test]
fn the_first_of_the_terms_is_found() {
    let list = terms(&["scope", "LET", "let"]);
    assert_eq!(find_term(b"let", &list), Some(1));
    assert_eq!(find_term(b"Scope", &list), Some(0));
    assert_eq!(find_term(b"using", &list), None);
    assert_eq!(find_term(b"let", &[]), None);
}

#[test]
fn declaration_and_call_match_whatever_their_case() {
    let keywords = terms(&["let"]);
    let labels = terms(&[]);
    let analyzer = Analyzer { hard: false, keywords: &keywords, labels: &labels };
    let mut context = AnalysisContext::new(Vendor::Other);
    analyzer.walk_in_function(b"Let", b"Let", &mut context);
    analyzer.walk_in_function_call(b"let", &mut context);
    analyzer.walk_in_function_call(b"LET", &mut context);
    assert_eq!(
        keywords_of(&context.keyword_matches),
        vec![
            ("let".to_string(), Vendor::Other, false),
            ("let".to_string(), Vendor::Other, false),
            ("let".to_string(), Vendor::Other, false),
        ]
    );
}

#[test]
fn a_match_carries_the_keyword_as_requested() {
    let keywords = terms(&["LeT"]);
    let labels = terms(&[]);
    let analyzer = Analyzer { hard: true, keywords: &keywords, labels: &labels };
    let mut context = AnalysisContext::new(Vendor::Twig);
    analyzer.walk_in_local_identifier(b"let", &mut context);
    assert_eq!(keywords_of(&context.keyword_matches), vec![("LeT".to_string(), Vendor::Twig, true)]);
}

#[test]
fn a_call_is_matched_on_the_last_segment_of_its_resolved_name() {
    let keywords = terms(&["let", "scope"]);
    let labels = terms(&[]);
    let analyzer = Analyzer { hard: true, keywords: &keywords, labels: &labels };
    let mut context = AnalysisContext::new(Vendor::Symfony);
    analyzer.walk_in_function_call(b"Foo\\let", &mut context);
    analyzer.walk_in_function_call(b"let\\foo", &mut context);
    analyzer.walk_in_function_closure_creation(b"App\\Scope", &mut context);
    analyzer.walk_in_function_closure_creation(b"scoped", &mut context);
    assert_eq!(
        keywords_of(&context.keyword_matches),
        vec![
            ("let".to_string(), Vendor::Symfony, false),
            ("scope".to_string(), Vendor::Symfony, false),
        ]
    );
    assert!(context.label_matches.is_empty());
}

#[test]
fn a_name_matches_one_keyword_at_most() {
    let keywords = terms(&["let", "LET", "Let"]);
    let labels = terms(&[]);
    let analyzer = Analyzer { hard: true, keywords: &keywords, labels: &labels };
    let mut context = AnalysisContext::new(Vendor::Other);
    analyzer.walk_in_function_call(b"lEt", &mut context);
    assert_eq!(keywords_of(&context.keyword_matches), vec![("let".to_string(), Vendor::Other, false)]);
}

#[test]
fn a_declaration_gives_a_soft_and_a_hard_match() {
    let keywords = terms(&["scope"]);
    let labels = terms(&[]);
    let analyzer = Analyzer { hard: true, keywords: &keywords, labels: &labels };
    let mut context = AnalysisContext::new(Vendor::Laravel);
    analyzer.walk_in_function(b"Scope", b"App\\Scope", &mut context);
    assert_eq!(
        keywords_of(&context.keyword_matches),
        vec![
            ("scope".to_string(), Vendor::Laravel, false),
            ("scope".to_string(), Vendor::Laravel, true),
        ]
    );
    let soft_only = Analyzer { hard: false, keywords: &keywords, labels: &labels };
    let mut other = AnalysisContext::new(Vendor::Laravel);
    soft_only.walk_in_function(b"Scope", b"App\\Scope", &mut other);
    assert_eq!(keywords_of(&other.keyword_matches), vec![("scope".to_string(), Vendor::Laravel, false)]);
}

#[test]
fn identifiers_give_hard_matches() {
    let keywords = terms(&["let"]);
    let labels = terms(&[]);
    let analyzer = Analyzer { hard: true, keywords: &keywords, labels: &labels };
    let mut context = AnalysisContext::new(Vendor::Doctrine);
    analyzer.walk_in_local_identifier(b"LET", &mut context);
    analyzer.walk_in_local_identifier(b"letter", &mut context);
    analyzer.walk_in_qualified_identifier(Some(b"App\\Util\\let"), &mut context);
    analyzer.walk_in_qualified_identifier(None, &mut context);
    analyzer.walk_in_qualified_identifier(Some(b"let\\Util"), &mut context);
    analyzer.walk_in_fully_qualified_identifier(b"\\App\\Let", &mut context);
    analyzer.walk_in_fully_qualified_identifier(b"\\let\\App", &mut context);
    assert_eq!(
        keywords_of(&context.keyword_matches),
        vec![
            ("let".to_string(), Vendor::Doctrine, true),
            ("let".to_string(), Vendor::Doctrine, true),
            ("let".to_string(), Vendor::Doctrine, true),
        ]
    );
}

#[test]
fn identifiers_give_nothing_without_hard_mode() {
    let keywords = terms(&["let"]);
    let labels = terms(&[]);
    let analyzer = Analyzer { hard: false, keywords: &keywords, labels: &labels };
    let mut context = AnalysisContext::new(Vendor::Other);
    analyzer.walk_in_local_identifier(b"let", &mut context);
    analyzer.walk_in_qualified_identifier(Some(b"App\\let"), &mut context);
    analyzer.walk_in_fully_qualified_identifier(b"\\let", &mut context);
    assert!(context.keyword_matches.is_empty());
}

#[test]
fn a_label_matches_every_label_that_it_is() {
    let keywords = terms(&["using"]);
    let labels = terms(&["using", "scope", "USING"]);
    let analyzer = Analyzer { hard: true, keywords: &keywords, labels: &labels };
    let mut context = AnalysisContext::new(Vendor::Phpunit);
    analyzer.walk_in_label(b"Using", &mut context);
    analyzer.walk_in_named_argument(b"scope", &mut context);
    analyzer.walk_in_label(b"other", &mut context);
    assert_eq!(
        labels_of(&context.label_matches),
        vec![
            ("using".to_string(), Vendor::Phpunit),
            ("USING".to_string(), Vendor::Phpunit),
            ("scope".to_string(), Vendor::Phpunit),
        ]
    );
    assert!(context.keyword_matches.is_empty());
}

#[test]
fn one_call_counts_as_soft_and_as_hard() {
    let keywords = terms(&["let"]);
    let labels = terms(&[]);
    let nodes = [
        SyntaxNode::FunctionCall { resolved_name: b"let" },
        SyntaxNode::LocalIdentifier { value: b"let" },
    ];
    let found = Analyzer::run(&nodes, Vendor::Other, &keywords, &labels);
    assert_eq!(
        keywords_of(&found.keywords),
        vec![("let".to_string(), Vendor::Other, false), ("let".to_string(), Vendor::Other, true)]
    );
}

#[test]
fn visiting_a_node_is_visiting_its_kind() {
    let keywords = terms(&["let"]);
    let labels = terms(&["let"]);
    let analyzer = Analyzer { hard: true, keywords: &keywords, labels: &labels };
    let nodes = [
        SyntaxNode::FunctionCall { resolved_name: b"A\\let" },
        SyntaxNode::FunctionClosureCreation { resolved_name: b"let" },
        SyntaxNode::Function { name: b"let", resolved_name: b"A\\let" },
        SyntaxNode::LocalIdentifier { value: b"let" },
        SyntaxNode::QualifiedIdentifier { resolution: Some(b"B\\let") },
        SyntaxNode::QualifiedIdentifier { resolution: None },
        SyntaxNode::FullyQualifiedIdentifier { value: b"\\let" },
        SyntaxNode::Label { name: b"let" },
        SyntaxNode::NamedArgument { name: b"LET" },
    ];
    let mut context = AnalysisContext::new(Vendor::Other);
    for node in nodes.iter() {
        analyzer.visit(node, &mut context);
    }
    let hardness: Vec<bool> = context.keyword_matches.iter().map(|m| m.is_hard).collect();
    assert_eq!(hardness, vec![false, false, false, true, true, true, true]);
    assert_eq!(context.label_matches.len(), 2);
    let found = Analyzer::run(&nodes, Vendor::Other, &keywords, &labels);
    assert_eq!(keywords_of(&found.keywords), keywords_of(&context.keyword_matches));
    assert_eq!(labels_of(&found.labels), labels_of(&context.label_matches));
}

#[test]
fn a_file_without_nodes_has_no_matches() {
    let keywords = terms(&["let"]);
    let labels = terms(&["using"]);
    let found = Analyzer::run(&[], Vendor::Symfony, &keywords, &labels);
    assert!(found.keywords.is_empty());
    assert!(found.labels.is_empty());
}

#[test]
fn three_files_end_to_end() {
    let keywords = terms(&["let", "scope"]);
    let labels = terms(&["using"]);
    let file_a = [SyntaxNode::FunctionCall { resolved_name: b"let" }];
    let file_b = [SyntaxNode::Function { name: b"Scope", resolved_name: b"Scope" }];
    let file_c = [
        SyntaxNode::Label { name: b"label" },
        SyntaxNode::Label { name: b"using" },
    ];
    let soft_only = |nodes: &[SyntaxNode]| {
        let analyzer = Analyzer { hard: false, keywords: &keywords, labels: &labels };
        let mut context = AnalysisContext::new(Vendor::Other);
        for node in nodes {
            analyzer.visit(node, &mut context);
        }
        FileMatches { keywords: context.keyword_matches, labels: context.label_matches }
    };
    let files = vec![soft_only(&file_a), soft_only(&file_b), soft_only(&file_c)];
    let report = analyze_directory(files, &keywords);
    assert_eq!(report.total_files, 3);
    let l = report.keyword_results.get("let").unwrap();
    assert_eq!(l.soft_count, 1);
    assert_eq!(l.soft_impact(), ImpactLevel::Low);
    assert_eq!(l.hard_impact(), ImpactLevel::Low);
    let s = report.keyword_results.get("scope").unwrap();
    assert_eq!(s.soft_count, 1);
    assert_eq!(s.soft_impact(), ImpactLevel::Low);
    assert_eq!(s.hard_impact(), ImpactLevel::Low);
    assert_eq!(report.label_results.get("using").unwrap().count, 1);
    assert_eq!(report.label_results.len(), 1);
}

#[test]
fn three_files_end_to_end_with_hard_matches() {
    let keywords = terms(&["let", "scope"]);
    let labels = terms(&["using"]);
    let file_a = [
        SyntaxNode::FunctionCall { resolved_name: b"let" },
        SyntaxNode::LocalIdentifier { value: b"let" },
    ];
    let file_b = [
        SyntaxNode::Function { name: b"Scope", resolved_name: b"Scope" },
        SyntaxNode::LocalIdentifier { value: b"Scope" },
    ];
    let file_c = [
        SyntaxNode::Label { name: b"label" },
        SyntaxNode::LocalIdentifier { value: b"label" },
        SyntaxNode::Label { name: b"using" },
        SyntaxNode::LocalIdentifier { value: b"using" },
        SyntaxNode::LocalIdentifier { value: b"label" },
    ];
    let files = vec![
        Analyzer::run(&file_a, Vendor::Symfony, &keywords, &labels),
        Analyzer::run(&file_b, Vendor::Other, &keywords, &labels),
        Analyzer::run(&file_c, Vendor::Twig, &keywords, &labels),
    ];
    let report = analyze_directory(files, &keywords);
    let l = report.keyword_results.get("let").unwrap();
    assert_eq!((l.soft_count, l.hard_count), (1, 1));
    assert!(l.well_known_vendors.contains(Vendor::Symfony));
    assert_eq!(l.soft_impact(), ImpactLevel::Low);
    assert_eq!(l.hard_impact(), ImpactLevel::Low);
    let s = report.keyword_results.get("scope").unwrap();
    assert_eq!((s.soft_count, s.hard_count), (1, 2));
    assert_eq!(s.soft_impact(), ImpactLevel::Low);
    assert_eq!(s.hard_impact(), ImpactLevel::Low);
    let u = report.label_results.get("using").unwrap();
    assert_eq!(u.count, 1);
    assert!(u.well_known_vendors.contains(Vendor::Twig));
}

#[test]
fn files_without_matches_are_counted() {
    let files = vec![
        FileMatches { keywords: vec![], labels: vec![] },
        FileMatches { keywords: vec![], labels: vec![] },
    ];
    let report = analyze_directory(files, &terms(&["zzzneverused"]));
    assert_eq!(report.total_files, 2);
    let r = report.keyword_results.get("zzzneverused").unwrap();
    assert_eq!((r.soft_count, r.hard_count), (0, 0));
    assert!(report.label_results.is_empty());
}

#[test]
fn the_order_of_files_does_not_matter() {
    let keywords = terms(&["let"]);
    let labels = terms(&["using"]);
    let first = [SyntaxNode::FunctionCall { resolved_name: b"let" }, SyntaxNode::Label { name: b"using" }];
    let second = [SyntaxNode::LocalIdentifier { value: b"Let" }];
    let one = analyze_directory(
        vec![
            Analyzer::run(&first, Vendor::Twig, &keywords, &labels),
            Analyzer::run(&second, Vendor::Symfony, &keywords, &labels),
        ],
        &keywords,
    );
    let other = analyze_directory(
        vec![
            Analyzer::run(&second, Vendor::Symfony, &keywords, &labels),
            Analyzer::run(&first, Vendor::Twig, &keywords, &labels),
        ],
        &keywords,
    );
    assert_eq!(one.keyword_results.get("let"), other.keyword_results.get("let"));
    assert_eq!(one.label_results.get("using"), other.label_results.get("using"));
    let l = one.keyword_results.get("let").unwrap();
    assert_eq!((l.soft_count, l.hard_count), (1, 1));
    assert_eq!(l.well_known_vendors.len(), 2);
}
