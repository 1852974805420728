use php_syntax_analyzer::config::{validate_request, ConfigError};
use php_syntax_analyzer::downloader::{
    count_outcomes, popular_page_url, select_dist, Acquisition, Action, Event, Outcomes, Ranking,
    RankingStep, VersionInfo, MAX_CONCURRENT_DOWNLOADS, PACKAGIST_PER_PAGE,
};
use php_syntax_analyzer::extractor::{
    archive_package, entry_stays_inside, extraction_step, is_zip_archive, placement,
    temp_directory, Placement,
};
use php_syntax_analyzer::files::{extension, has_php_extension, read_file, walk_step, WalkStep};
use php_syntax_analyzer::package::{AcquireError, PackageName};
use php_syntax_analyzer::vendor::Vendor;

fn names(from: usize, count: usize) -> Vec<String> {
    (from..from + count).map(|i| format!("vendor/package-{}", i)).collect()
}

fn version(url: Option<&str>) -> VersionInfo {
    VersionInfo { dist_url: url.map(|u| u.to_string()) }
}

fn started(name: &str) -> Acquisition {
    match Acquisition::begin(name) {
        Ok((acquisition, action)) => {
            assert_eq!(action, Action::FetchMetadata);
            acquisition
        }
        Err(e) => panic!("{:?}", e),
    }
}

fn at_archive(name: &str) -> Acquisition {
    let mut acquisition = started(name);
    let listed = vec![version(Some("https://example.org/a.zip"))];
    assert_eq!(acquisition.advance(Event::Metadata(Some(listed))), Action::PrepareArchive);
    acquisition
}

#[test]
fn a_request_needs_a_term_and_a_range() {
    let some = vec!["let".to_string()];
    let none: Vec<String> = vec![];
    assert_eq!(validate_request(&some, &none, 0, 500), Ok(()));
    assert_eq!(validate_request(&none, &some, 0, 1), Ok(()));
    assert_eq!(validate_request(&none, &none, 0, 500), Err(ConfigError::NoTerms));
    assert_eq!(validate_request(&none, &none, 5, 5), Err(ConfigError::NoTerms));
    assert_eq!(validate_request(&some, &none, 5, 5), Err(ConfigError::EmptyRange));
    assert_eq!(validate_request(&some, &some, 6, 5), Err(ConfigError::EmptyRange));
}

#[test]
fn the_constants_of_the_acquisition() {
    assert_eq!(PACKAGIST_PER_PAGE, 15);
    assert_eq!(MAX_CONCURRENT_DOWNLOADS, 5);
}

#[test]
fn ranking_pages_are_addressed_by_number() {
    assert_eq!(popular_page_url(1), "https://packagist.org/explore/popular.json?page=1");
    assert_eq!(popular_page_url(0), "https://packagist.org/explore/popular.json?page=0");
    assert_eq!(popular_page_url(10), "https://packagist.org/explore/popular.json?page=10");
    assert_eq!(popular_page_url(34), "https://packagist.org/explore/popular.json?page=34");
    assert_eq!(popular_page_url(1205), "https://packagist.org/explore/popular.json?page=1205");
    assert_eq!(
        popular_page_url(usize::MAX),
        format!("https://packagist.org/explore/popular.json?page={}", usize::MAX)
    );
}

#[test]
fn the_ranking_is_read_from_the_first_page() {
    let mut ranking = Ranking::start(0, 20);
    assert_eq!(ranking.next(), RankingStep::Fetch { page: 1 });
    ranking.accept_page(names(0, 15));
    assert_eq!(ranking.seen, 15);
    assert_eq!(ranking.next(), RankingStep::Fetch { page: 2 });
    ranking.accept_page(names(15, 15));
    assert_eq!(ranking.seen, 20);
    assert_eq!(ranking.next(), RankingStep::Done);
    assert_eq!(ranking.packages, names(0, 20));
}

#[test]
fn the_ranking_begins_at_the_page_of_the_first_rank() {
    let mut ranking = Ranking::start(32, 47);
    assert_eq!(ranking.page, 3);
    assert_eq!(ranking.seen, 30);
    assert_eq!(ranking.next(), RankingStep::Fetch { page: 3 });
    ranking.accept_page(names(30, 15));
    assert_eq!(ranking.packages, names(32, 13));
    assert_eq!(ranking.next(), RankingStep::Fetch { page: 4 });
    ranking.accept_page(names(45, 15));
    assert_eq!(ranking.next(), RankingStep::Done);
    assert_eq!(ranking.packages, names(32, 15));
    assert_eq!(ranking.page, 5);
}

#[test]
fn a_range_within_one_page() {
    let mut ranking = Ranking::start(3, 5);
    ranking.accept_page(names(0, 15));
    assert_eq!(ranking.packages, names(3, 2));
    assert_eq!(ranking.seen, 5);
    assert_eq!(ranking.next(), RankingStep::Done);
}

#[test]
fn short_and_empty_pages_are_read_on() {
    let mut ranking = Ranking::start(0, 4);
    ranking.accept_page(names(0, 3));
    assert_eq!(ranking.next(), RankingStep::Fetch { page: 2 });
    ranking.accept_page(vec![]);
    assert_eq!(ranking.seen, 3);
    assert_eq!(ranking.next(), RankingStep::Fetch { page: 3 });
    ranking.accept_page(names(3, 3));
    assert_eq!(ranking.packages, names(0, 4));
    assert_eq!(ranking.next(), RankingStep::Done);
}

#[test]
fn the_last_version_is_selected() {
    let listed = vec![
        version(Some("https://example.org/1.zip")),
        version(None),
        version(Some("https://example.org/3.zip")),
    ];
    assert_eq!(select_dist(Some(&listed)), Ok("https://example.org/3.zip".to_string()));
}

#[test]
fn a_package_without_an_archive_is_refused() {
    assert_eq!(select_dist(None), Err(AcquireError::NotInMetadata));
    assert_eq!(select_dist(Some(&vec![])), Err(AcquireError::NoVersions));
    let listed = vec![version(Some("https://example.org/1.zip")), version(None)];
    assert_eq!(select_dist(Some(&listed)), Err(AcquireError::NoDist));
}

#[test]
fn package_names_are_read_in_lower_case() {
    let package = PackageName::parse("Symfony/Console").unwrap();
    assert_eq!(package.vendor, "symfony");
    assert_eq!(package.project, "console");
    assert_eq!(package.full_name(), "symfony/console");
}

#[test]
fn a_package_name_has_exactly_one_slash() {
    assert_eq!(PackageName::parse("console").err(), Some(AcquireError::InvalidName));
    assert_eq!(PackageName::parse("a/b/c").err(), Some(AcquireError::InvalidName));
    assert_eq!(PackageName::parse("").err(), Some(AcquireError::InvalidName));
    assert_eq!(PackageName::from_lowercase("a//b").err(), Some(AcquireError::InvalidName));
    let odd = PackageName::from_lowercase("/b").unwrap();
    assert_eq!((odd.vendor.as_str(), odd.project.as_str()), ("", "b"));
    let kept = PackageName::from_lowercase("Acme/Thing").unwrap();
    assert_eq!((kept.vendor.as_str(), kept.project.as_str()), ("Acme", "Thing"));
}

#[test]
fn a_package_has_its_places() {
    let package = PackageName::parse("php-http/client-common").unwrap();
    assert_eq!(package.metadata_url(), "https://repo.packagist.org/p2/php-http/client-common.json");
    assert_eq!(package.archive_directory(), "zipballs/php-http");
    assert_eq!(package.archive_path(), "zipballs/php-http/php-http-client-common.zip");
    assert_eq!(package.source_directory(), "sources/php-http/client-common");
}

#[test]
fn a_package_is_fetched_and_unpacked() {
    let mut acquisition = started("Symfony/Console");
    assert_eq!(acquisition.metadata_url(), "https://repo.packagist.org/p2/symfony/console.json");
    let listed = vec![version(None), version(Some("https://example.org/console.zip"))];
    assert_eq!(acquisition.advance(Event::Metadata(Some(listed))), Action::PrepareArchive);
    assert_eq!(acquisition.dist_url(), "https://example.org/console.zip");
    assert_eq!(acquisition.archive_directory(), "zipballs/symfony");
    assert_eq!(acquisition.archive_path(), "zipballs/symfony/symfony-console.zip");
    assert_eq!(acquisition.advance(Event::ArchivePresent(false)), Action::Download);
    assert_eq!(acquisition.advance(Event::Downloaded), Action::CheckSources);
    assert_eq!(acquisition.source_directory(), "sources/symfony/console");
    assert_eq!(acquisition.advance(Event::SourcesPresent(false)), Action::Extract);
    assert_eq!(acquisition.advance(Event::Extracted), Action::Succeed);
}

#[test]
fn what_is_on_disk_is_not_made_again() {
    let mut acquisition = at_archive("symfony/console");
    assert_eq!(acquisition.advance(Event::ArchivePresent(true)), Action::CheckSources);
    assert_eq!(acquisition.advance(Event::SourcesPresent(true)), Action::Succeed);
    let mut unpacked_only = at_archive("symfony/console");
    assert_eq!(unpacked_only.advance(Event::ArchivePresent(false)), Action::Download);
    assert_eq!(unpacked_only.advance(Event::Downloaded), Action::CheckSources);
    assert_eq!(unpacked_only.advance(Event::SourcesPresent(true)), Action::Succeed);
    let mut archive_only = at_archive("symfony/console");
    assert_eq!(archive_only.advance(Event::ArchivePresent(true)), Action::CheckSources);
    assert_eq!(archive_only.advance(Event::SourcesPresent(false)), Action::Extract);
}

#[test]
fn each_failure_has_its_error() {
    assert_eq!(Acquisition::begin("nonsense").err(), Some(AcquireError::InvalidName));
    let mut a = started("a/b");
    assert_eq!(a.advance(Event::Failed), Action::Fail(AcquireError::MetadataUnavailable));
    let mut b = started("a/b");
    assert_eq!(b.advance(Event::Metadata(None)), Action::Fail(AcquireError::NotInMetadata));
    let mut c = started("a/b");
    assert_eq!(c.advance(Event::Metadata(Some(vec![]))), Action::Fail(AcquireError::NoVersions));
    let mut d = started("a/b");
    assert_eq!(
        d.advance(Event::Metadata(Some(vec![version(None)]))),
        Action::Fail(AcquireError::NoDist)
    );
    let mut e = at_archive("a/b");
    assert_eq!(e.advance(Event::Failed), Action::Fail(AcquireError::StoreUnavailable));
    let mut f = at_archive("a/b");
    f.advance(Event::ArchivePresent(false));
    assert_eq!(f.advance(Event::Failed), Action::Fail(AcquireError::DownloadFailed));
    let mut g = at_archive("a/b");
    g.advance(Event::ArchivePresent(true));
    g.advance(Event::SourcesPresent(false));
    assert_eq!(g.advance(Event::Failed), Action::Fail(AcquireError::ExtractFailed));
}

#[test]
fn an_event_out_of_turn_ends_the_acquisition() {
    let mut a = started("a/b");
    assert_eq!(a.advance(Event::Downloaded), Action::Fail(AcquireError::OutOfTurn));
    assert_eq!(a.advance(Event::Metadata(None)), Action::Fail(AcquireError::OutOfTurn));
    let mut b = at_archive("a/b");
    b.advance(Event::ArchivePresent(true));
    assert_eq!(b.advance(Event::SourcesPresent(true)), Action::Succeed);
    assert_eq!(b.advance(Event::Extracted), Action::Fail(AcquireError::OutOfTurn));
}

#[test]
fn outcomes_are_counted() {
    let results = vec![
        Ok(()),
        Err(AcquireError::NoDist),
        Ok(()),
        Err(AcquireError::InvalidName),
        Ok(()),
    ];
    assert_eq!(count_outcomes(&results), Outcomes { succeeded: 3, failed: 2 });
    assert_eq!(count_outcomes(&vec![]), Outcomes { succeeded: 0, failed: 0 });
}

#[test]
fn a_package_is_unpacked_in_a_directory_of_its_own() {
    let console = PackageName::parse("symfony/console").unwrap();
    assert_eq!(temp_directory(&console), "unpacking/symfony/console");
    let dotted = PackageName::parse("a/b.c").unwrap();
    let other = PackageName::parse("a/b.d").unwrap();
    assert_eq!(temp_directory(&dotted), "unpacking/a/b.c");
    assert_eq!(temp_directory(&other), "unpacking/a/b.d");
    assert_ne!(temp_directory(&dotted), temp_directory(&other));
}

#[test]
fn the_temporary_directory_is_never_a_final_directory() {
    for name in ["v/x.tmp", "v/x", "sources/x", "unpacking/x", "v/", "/x", "v/.."] {
        let package = PackageName::parse(name).unwrap();
        let temp = temp_directory(&package);
        assert_ne!(temp, package.source_directory());
        assert!(temp.starts_with("unpacking/"));
        assert!(package.source_directory().starts_with("sources/"));
        assert!(package.archive_path().starts_with("zipballs/"));
    }
    let (acquisition, _) = Acquisition::begin("V/X.tmp").unwrap();
    assert_eq!(acquisition.temp_directory(), "unpacking/v/x.tmp");
    assert_eq!(acquisition.source_directory(), "sources/v/x.tmp");
}

#[test]
fn entries_must_stay_inside_the_directory() {
    assert!(entry_stays_inside(b"src/Console.php"));
    assert!(entry_stays_inside(b"package-1.0/"));
    assert!(entry_stays_inside(b""));
    assert!(entry_stays_inside(b"a/..b/c"));
    assert!(entry_stays_inside(b"a/b../c"));
    assert!(entry_stays_inside(b"a/.../c"));
    assert!(entry_stays_inside(b"./a"));
    assert!(entry_stays_inside(b"a//b"));
    assert!(!entry_stays_inside(b"/etc/shadow"));
    assert!(!entry_stays_inside(b"/"));
    assert!(!entry_stays_inside(b".."));
    assert!(!entry_stays_inside(b"../runtime"));
    assert!(!entry_stays_inside(b"a/../../b"));
    assert!(!entry_stays_inside(b"a/.."));
    assert!(!entry_stays_inside(b"a/b/../c"));
}

#[test]
fn an_unpacked_package_is_left_as_it_is() {
    assert_eq!(extraction_step(true), Action::Succeed);
    assert_eq!(extraction_step(false), Action::Extract);
}

#[test]
fn a_single_directory_is_flattened() {
    assert_eq!(placement(&[true]), Placement::Flatten);
    assert_eq!(placement(&[false]), Placement::Whole);
    assert_eq!(placement(&[]), Placement::Whole);
    assert_eq!(placement(&[true, true]), Placement::Whole);
    assert_eq!(placement(&[true, false]), Placement::Whole);
}

#[test]
fn archives_are_told_by_their_extension() {
    assert!(is_zip_archive(b"symfony-console.zip"));
    assert!(is_zip_archive(b"a.tar.zip"));
    assert!(!is_zip_archive(b"symfony-console.ZIP"));
    assert!(!is_zip_archive(b"symfony-console.zip.part"));
    assert!(!is_zip_archive(b".zip"));
    assert!(!is_zip_archive(b"zip"));
}

#[test]
fn an_archive_names_its_package() {
    let package = archive_package("php-http", "php-http-client-common.zip").unwrap();
    assert_eq!(package.vendor, "php-http");
    assert_eq!(package.project, "client-common");
    assert_eq!(package.source_directory(), "sources/php-http/client-common");
    let back = PackageName::parse("php-http/client-common").unwrap();
    let found = archive_package(&back.vendor, "php-http-client-common.zip").unwrap();
    assert_eq!(found.archive_path(), back.archive_path());
    assert!(archive_package("symfony", "laravel-framework.zip").is_none());
    assert!(archive_package("symfony", "symfony-console.tar").is_none());
    assert!(archive_package("symfony", "symfony.zip").is_none());
    assert!(archive_package("symfony", "symfonyconsole.zip").is_none());
    assert!(archive_package("symfony", ".zip").is_none());
    assert_eq!(archive_package("symfony", "symfony-.zip").unwrap().project, "");
}

#[test]
fn extensions_of_file_names() {
    assert_eq!(extension(b"index.php"), Some(&b"php"[..]));
    assert_eq!(extension(b"archive.tar.gz"), Some(&b"gz"[..]));
    assert_eq!(extension(b"name."), Some(&b""[..]));
    assert_eq!(extension(b".htaccess"), None);
    assert_eq!(extension(b".a.b"), Some(&b"b"[..]));
    assert_eq!(extension(b"Makefile"), None);
    assert_eq!(extension(b""), None);
}

#[test]
fn source_files_are_told_by_their_extension() {
    assert!(has_php_extension(b"index.php"));
    assert!(has_php_extension(b"index.php7"));
    assert!(has_php_extension(b"index.php8"));
    assert!(has_php_extension(b"a.b.php"));
    assert!(!has_php_extension(b"index.PHP"));
    assert!(!has_php_extension(b"index.php5"));
    assert!(!has_php_extension(b"index.phtml"));
    assert!(!has_php_extension(b".php"));
    assert!(!has_php_extension(b"php"));
    assert!(!has_php_extension(b"index.php.bak"));
}

#[test]
fn the_walk_collects_source_files_and_descends_into_directories() {
    assert_eq!(walk_step(true, false, b"src"), WalkStep::Descend);
    assert_eq!(walk_step(true, false, b"dir.php"), WalkStep::Descend);
    assert_eq!(walk_step(false, true, b"a.php"), WalkStep::Collect);
    assert_eq!(walk_step(false, true, b"a.txt"), WalkStep::Skip);
    assert_eq!(walk_step(false, false, b"a.php"), WalkStep::Skip);
}

#[test]
fn a_file_belongs_to_the_vendor_of_its_directory() {
    let (vendor, text) = read_file(Some("symfony"), Some("console"), b"<?php let();");
    assert_eq!(vendor, Vendor::Symfony);
    assert_eq!(text, "<?php let();");
    assert_eq!(read_file(Some("acme"), Some("symfony"), b"").0, Vendor::Other);
    assert_eq!(read_file(Some("twig"), None, b"").0, Vendor::Other);
    assert_eq!(read_file(None, Some("twig"), b"").0, Vendor::Other);
    assert_eq!(read_file(None, None, b"").0, Vendor::Other);
}

#[test]
fn bytes_that_are_not_text_are_replaced() {
    let (_, text) = read_file(None, None, b"<?php \xff\xfe let();");
    assert_eq!(text, "<?php \u{fffd}\u{fffd} let();");
    let (_, valid) = read_file(None, None, "<?php \u{e9}".as_bytes());
    assert_eq!(valid, "<?php \u{e9}");
}
