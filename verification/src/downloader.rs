//! Acquiring the corpus: which packages of the popularity ranking are
//! wanted, and the steps by which one package is fetched and unpacked.

use vstd::prelude::*;
use vstd::string::StringExecFns;
use crate::counting::count_where;
use crate::package::{AcquireError, PackageName, PackageParts};

verus! {

/// The number of packages on one page of the popularity ranking.
pub const PACKAGIST_PER_PAGE: usize = 15;

/// The number of packages that are acquired at the same time.
pub const MAX_CONCURRENT_DOWNLOADS: usize = 5;

/// The decimal digit of a number below ten.
pub open spec fn digit(d: nat) -> char {
    if d == 0 {
        '0'
    } else if d == 1 {
        '1'
    } else if d == 2 {
        '2'
    } else if d == 3 {
        '3'
    } else if d == 4 {
        '4'
    } else if d == 5 {
        '5'
    } else if d == 6 {
        '6'
    } else if d == 7 {
        '7'
    } else if d == 8 {
        '8'
    } else {
        '9'
    }
}

/// A number in decimal notation.
pub open spec fn decimal(n: nat) -> Seq<char>
    decreases n,
{
    if n < 10 {
        seq![digit(n)]
    } else {
        decimal(n / 10).push(digit(n % 10))
    }
}

/// Where the registry lists page `page` of the ranking.
pub open spec fn ranking_url(page: nat) -> Seq<char> {
    "https://packagist.org/explore/popular.json?page="@ + decimal(page)
}

/// The text of one decimal digit.
fn digit_text(d: usize) -> (r: &'static str)
    requires
        d < 10,
    ensures
        r@ == seq![digit(d as nat)],
{
    proof {
        reveal_strlit("0");
        reveal_strlit("1");
        reveal_strlit("2");
        reveal_strlit("3");
        reveal_strlit("4");
        reveal_strlit("5");
        reveal_strlit("6");
        reveal_strlit("7");
        reveal_strlit("8");
        reveal_strlit("9");
    }
    let r = if d == 0 {
        "0"
    } else if d == 1 {
        "1"
    } else if d == 2 {
        "2"
    } else if d == 3 {
        "3"
    } else if d == 4 {
        "4"
    } else if d == 5 {
        "5"
    } else if d == 6 {
        "6"
    } else if d == 7 {
        "7"
    } else if d == 8 {
        "8"
    } else {
        "9"
    };
    r
}

/// Writes `n` in decimal notation behind `text`.
fn append_decimal(text: &mut String, n: usize)
    ensures
        final(text)@ == old(text)@ + decimal(n as nat),
    decreases n,
{
    if n >= 10 {
        append_decimal(text, n / 10);
    }
    text.append(digit_text(n % 10));
    proof {
        if n >= 10 {
            assert(text@ =~= old(text)@ + decimal((n / 10) as nat).push(digit((n % 10) as nat)));
        }
    }
}

/// Where the registry lists page `page` of the popularity ranking.
pub fn popular_page_url(page: usize) -> (r: String)
    ensures
        r@ == ranking_url(page as nat),
{
    let mut r = String::from_str("https://packagist.org/explore/popular.json?page=");
    append_decimal(&mut r, page);
    r
}

/// What is known while the ranking is read page by page.
pub struct Ranking {
    /// The first rank that is wanted.
    pub min: usize,
    /// The first rank that is no longer wanted.
    pub max: usize,
    /// The page that is read next; pages are numbered from 1.
    pub page: usize,
    /// The rank of the next name that will be seen.
    pub seen: usize,
    /// The names of the wanted ranks that were seen.
    pub packages: Vec<String>,
}

/// The state of a `Ranking` in plain numbers and texts.
pub struct RankingView {
    pub min: nat,
    pub max: nat,
    pub page: nat,
    pub seen: nat,
    pub packages: Seq<Seq<char>>,
}

impl View for Ranking {
    type V = RankingView;

    open spec fn view(&self) -> RankingView {
        RankingView {
            min: self.min as nat,
            max: self.max as nat,
            page: self.page as nat,
            seen: self.seen as nat,
            packages: crate::report::terms_of(self.packages@),
        }
    }
}

/// What is to be done next for the ranking.
#[derive(Debug, Clone, Copy, PartialEq, Eq, Structural)]
pub enum RankingStep {
    /// Ask the registry for this page, and hand its names to `accept_page`.
    Fetch { page: usize },
    /// All wanted ranks were seen.
    Done,
}

/// The part of a page whose first name has rank `seen` that lies in the
/// ranks from `min` up to, not including, `max`.
pub open spec fn wanted_of_page(
    names: Seq<Seq<char>>,
    seen: nat,
    min: nat,
    max: nat,
) -> Seq<Seq<char>> {
    let from = if min <= seen {
        0
    } else if min - seen <= names.len() {
        min - seen
    } else {
        names.len() as int
    };
    let to = if max <= seen {
        0
    } else if max - seen <= names.len() {
        max - seen
    } else {
        names.len() as int
    };
    if from <= to {
        names.subrange(from, to)
    } else {
        Seq::empty()
    }
}

impl RankingView {
    /// The reading of the ranks from `min` up to `max` begins at the page
    /// that holds rank `min`, whose first name has the rank that `seen` says.
    pub open spec fn start(min: nat, max: nat) -> RankingView {
        RankingView {
            min,
            max,
            page: min / (PACKAGIST_PER_PAGE as nat) + 1,
            seen: (min / (PACKAGIST_PER_PAGE as nat)) * (PACKAGIST_PER_PAGE as nat),
            packages: Seq::empty(),
        }
    }

    /// Whether all wanted ranks were seen.
    pub open spec fn done(self) -> bool {
        self.seen >= self.max
    }

    /// The state after a page of names: the names of wanted ranks are kept,
    /// and the count of seen names goes up by the names of the page, but not
    /// beyond `max`, where the reading ends.
    pub open spec fn after_page(self, names: Seq<Seq<char>>) -> RankingView {
        RankingView {
            min: self.min,
            max: self.max,
            page: self.page + 1,
            seen: if self.seen + names.len() <= self.max {
                self.seen + names.len()
            } else if self.seen <= self.max {
                self.max
            } else {
                self.seen
            },
            packages: self.packages + wanted_of_page(names, self.seen, self.min, self.max),
        }
    }
}

/// The state after the pages were taken one after the other.
pub open spec fn after_pages(state: RankingView, pages: Seq<Seq<Seq<char>>>) -> RankingView
    decreases pages.len(),
{
    if pages.len() == 0 {
        state
    } else {
        after_pages(state.after_page(pages[0]), pages.drop_first())
    }
}

/// Taking a page in two parts keeps the names that taking it at once keeps.
pub proof fn lemma_wanted_split(
    a: Seq<Seq<char>>,
    b: Seq<Seq<char>>,
    seen: nat,
    min: nat,
    max: nat,
)
    requires
        seen <= max,
    ensures
        wanted_of_page(a + b, seen, min, max) == wanted_of_page(a, seen, min, max)
            + wanted_of_page(
            b,
            if seen + a.len() <= max {
                seen + a.len()
            } else {
                max
            },
            min,
            max,
        ),
{
}

/// The names that are kept are a slice of the ranking: whatever the pages
/// hold, the names kept from them are the names that the pages, laid end to
/// end, hold at the ranks from `min` up to, not including, `max`, the first
/// name of the first page having the rank that the state had seen. The
/// number of pages grows by one with each page, and the reading is done
/// once the pages reach rank `max`.
pub proof fn lemma_ranking_is_a_slice(state: RankingView, pages: Seq<Seq<Seq<char>>>)
    requires
        state.seen <= state.max,
    ensures
        after_pages(state, pages).packages == state.packages + wanted_of_page(
            pages.flatten(),
            state.seen,
            state.min,
            state.max,
        ),
        after_pages(state, pages).page == state.page + pages.len(),
        after_pages(state, pages).done() <==> state.seen + pages.flatten().len() >= state.max,
        after_pages(state, pages).min == state.min,
        after_pages(state, pages).max == state.max,
    decreases pages.len(),
{
    if pages.len() == 0 {
        assert(pages.flatten() =~= Seq::<Seq<char>>::empty());
    } else {
        let first = pages[0];
        let rest = pages.drop_first();
        let next = state.after_page(first);
        lemma_ranking_is_a_slice(next, rest);
        lemma_wanted_split(first, rest.flatten(), state.seen, state.min, state.max);
    }
}

/// The reading of a range begins at the rank of the first name of the page
/// that holds the first wanted rank, which is not beyond that rank.
pub proof fn lemma_ranking_start(min: nat, max: nat)
    requires
        min < max,
    ensures
        RankingView::start(min, max).seen <= min,
        min < RankingView::start(min, max).seen + PACKAGIST_PER_PAGE,
        RankingView::start(min, max).seen == (RankingView::start(min, max).page - 1)
            * PACKAGIST_PER_PAGE,
        !RankingView::start(min, max).done(),
{
}

impl Ranking {
    /// Begins the reading of the ranks from `min` up to, not including,
    /// `max`.
    pub fn start(min: usize, max: usize) -> (r: Ranking)
        requires
            min < max,
        ensures
            r@ == RankingView::start(min as nat, max as nat),
    {
        let r = Ranking {
            min,
            max,
            page: min / PACKAGIST_PER_PAGE + 1,
            seen: (min / PACKAGIST_PER_PAGE) * PACKAGIST_PER_PAGE,
            packages: Vec::new(),
        };
        assert(r@.packages =~= Seq::<Seq<char>>::empty());
        r
    }

    /// What is to be done next: the next page is fetched until all wanted
    /// ranks were seen.
    pub fn next(&self) -> (step: RankingStep)
        ensures
            step == if self@.done() {
                RankingStep::Done
            } else {
                (RankingStep::Fetch { page: self.page })
            },
    {
        if self.seen >= self.max {
            RankingStep::Done
        } else {
            RankingStep::Fetch { page: self.page }
        }
    }

    /// Takes the names of the page that was fetched, in the order of the
    /// page.
    pub fn accept_page(&mut self, names: Vec<String>)
        requires
            !old(self)@.done(),
            old(self).page < usize::MAX,
        ensures
            final(self)@ == old(self)@.after_page(crate::report::terms_of(names@)),
    {
        let ghost all = crate::report::terms_of(names@);
        let ghost start = self@;
        let n = names.len();
        let room = self.max - self.seen;
        let taken = if n <= room {
            n
        } else {
            room
        };
        let skip = if self.min <= self.seen {
            0
        } else if self.min - self.seen <= taken {
            self.min - self.seen
        } else {
            taken
        };
        let mut i: usize = skip;
        while i < taken
            invariant
                skip <= i <= taken <= n,
                n == names@.len(),
                all == crate::report::terms_of(names@),
                self.min == start.min,
                self.max == start.max,
                self.page == start.page,
                self.seen == start.seen,
                crate::report::terms_of(self.packages@) == start.packages + all.subrange(
                    skip as int,
                    i as int,
                ),
            decreases taken - i,
        {
            let ghost held = crate::report::terms_of(self.packages@);
            self.packages.push(names[i].clone());
            proof {
                assert(crate::report::terms_of(self.packages@) =~= held.push(all[i as int]));
            }
            i += 1;
        }
        self.seen = self.seen + taken;
        self.page = self.page + 1;
        proof {
            assert(all.subrange(skip as int, taken as int) =~= wanted_of_page(
                all,
                start.seen,
                start.min,
                start.max,
            ));
        }
    }
}

/// One version of a package, as the registry describes it.
#[derive(Debug, Clone)]
pub struct VersionInfo {
    /// Where the archive of the version is found, if the registry says.
    pub dist_url: Option<String>,
}

/// The archive that is fetched for a package, or why there is none. The
/// version that the registry lists last is the one selected.
pub open spec fn selected_dist(versions: Option<Seq<VersionInfo>>) -> Result<
    Seq<char>,
    AcquireError,
> {
    match versions {
        None => Err(AcquireError::NotInMetadata),
        Some(listed) => if listed.len() == 0 {
            Err(AcquireError::NoVersions)
        } else {
            match listed.last().dist_url {
                Some(url) => Ok(url@),
                None => Err(AcquireError::NoDist),
            }
        },
    }
}

/// Selects the archive of a package from what the registry lists under the
/// package's name: `None` where the name is absent from the answer.
pub fn select_dist(versions: Option<&Vec<VersionInfo>>) -> (r: Result<String, AcquireError>)
    ensures
        match r {
            Ok(url) => selected_dist(
                match versions {
                    Some(v) => Some(v@),
                    None => None,
                },
            ) == Ok::<Seq<char>, AcquireError>(url@),
            Err(e) => selected_dist(
                match versions {
                    Some(v) => Some(v@),
                    None => None,
                },
            ) == Err::<Seq<char>, AcquireError>(e),
        },
{
    match versions {
        None => Err(AcquireError::NotInMetadata),
        Some(listed) => {
            if listed.len() == 0 {
                return Err(AcquireError::NoVersions);
            }
            match &listed[listed.len() - 1].dist_url {
                Some(url) => Ok(url.clone()),
                None => Err(AcquireError::NoDist),
            }
        },
    }
}

/// What the caller is asked to do for a package.
#[derive(Debug, Clone, Copy, PartialEq, Eq, Structural)]
pub enum Action {
    /// Ask the registry for the versions of the package, at `metadata_url`,
    /// and answer with `Event::Metadata`.
    FetchMetadata,
    /// Make `archive_directory`, and answer with `Event::ArchivePresent`:
    /// whether `archive_path` exists.
    PrepareArchive,
    /// Fetch `dist_url` and write it to `archive_path`; answer with
    /// `Event::Downloaded`.
    Download,
    /// Answer with `Event::SourcesPresent`: whether `source_directory`
    /// exists.
    CheckSources,
    /// Unpack `archive_path` in `temp_directory` and move the result to
    /// `source_directory`; answer with `Event::Extracted`.
    Extract,
    /// The package is acquired; nothing is left to do.
    Succeed,
    /// The package is given up for the reason named.
    Fail(AcquireError),
}

/// What the caller reports of the action it was asked for.
#[derive(Debug, Clone)]
pub enum Event {
    /// The versions that the registry lists under the package's name, or
    /// `None` where its answer does not hold the name.
    Metadata(Option<Vec<VersionInfo>>),
    /// Whether the archive is already there.
    ArchivePresent(bool),
    /// The archive was fetched and written.
    Downloaded,
    /// Whether the package is already unpacked.
    SourcesPresent(bool),
    /// The archive was unpacked.
    Extracted,
    /// The action could not be carried out.
    Failed,
}

/// The answer that an acquisition waits for.
#[derive(Debug, Clone, Copy, PartialEq, Eq, Structural)]
pub enum Phase {
    Metadata,
    Archive,
    Download,
    Sources,
    Extract,
    Finished,
}

/// The rules of an acquisition: in which phase which event leads to which
/// phase and action. The versions are asked for first; a package without a
/// usable version is given up. An archive that is there is not fetched
/// again, and a package that is unpacked is not unpacked again. A failure,
/// or an event that answers no question, ends the acquisition.
pub open spec fn step(phase: Phase, event: Event) -> (Phase, Action) {
    match (phase, event) {
        (Phase::Metadata, Event::Metadata(versions)) => match selected_dist(
            match versions {
                Some(v) => Some(v@),
                None => None,
            },
        ) {
            Ok(_) => (Phase::Archive, Action::PrepareArchive),
            Err(e) => (Phase::Finished, Action::Fail(e)),
        },
        (Phase::Metadata, Event::Failed) => (
            Phase::Finished,
            Action::Fail(AcquireError::MetadataUnavailable),
        ),
        (Phase::Archive, Event::ArchivePresent(present)) => if present {
            (Phase::Sources, Action::CheckSources)
        } else {
            (Phase::Download, Action::Download)
        },
        (Phase::Archive, Event::Failed) => (
            Phase::Finished,
            Action::Fail(AcquireError::StoreUnavailable),
        ),
        (Phase::Download, Event::Downloaded) => (Phase::Sources, Action::CheckSources),
        (Phase::Download, Event::Failed) => (
            Phase::Finished,
            Action::Fail(AcquireError::DownloadFailed),
        ),
        (Phase::Sources, Event::SourcesPresent(present)) => if present {
            (Phase::Finished, Action::Succeed)
        } else {
            (Phase::Extract, Action::Extract)
        },
        (Phase::Extract, Event::Extracted) => (Phase::Finished, Action::Succeed),
        (Phase::Extract, Event::Failed) => (
            Phase::Finished,
            Action::Fail(AcquireError::ExtractFailed),
        ),
        _ => (Phase::Finished, Action::Fail(AcquireError::OutOfTurn)),
    }
}

/// The actions that a sequence of events leads to, one for each event.
pub open spec fn actions_of(phase: Phase, events: Seq<Event>) -> Seq<Action>
    decreases events.len(),
{
    if events.len() == 0 {
        Seq::empty()
    } else {
        seq![step(phase, events[0]).1] + actions_of(step(phase, events[0]).0, events.drop_first())
    }
}

/// An archive is fetched only after the caller said that it is not there,
/// and a package is unpacked only after the caller said that it is not
/// unpacked: what is on disk is never made again.
pub proof fn lemma_nothing_is_made_twice(phase: Phase, event: Event)
    ensures
        step(phase, event).1 == Action::Download ==> phase == Phase::Archive && event
            == Event::ArchivePresent(false),
        step(phase, event).1 == Action::Extract ==> phase == Phase::Sources && event
            == Event::SourcesPresent(false),
        step(phase, event).1 == Action::FetchMetadata ==> false,
{
}

/// For a package whose archive and sources are on disk, the steps that
/// follow the registry's answer fetch nothing and unpack nothing.
pub proof fn lemma_acquired_package_is_left_alone()
    ensures
        actions_of(
            Phase::Archive,
            seq![Event::ArchivePresent(true), Event::SourcesPresent(true)],
        ) == seq![Action::CheckSources, Action::Succeed],
{
    let events = seq![Event::ArchivePresent(true), Event::SourcesPresent(true)];
    let rest = events.drop_first();
    assert(actions_of(Phase::Finished, rest.drop_first()) =~= Seq::<Action>::empty());
    assert(actions_of(Phase::Sources, rest) =~= seq![Action::Succeed]);
}

/// A failure ends the acquisition of the package, and so does every event
/// after the end: no further action is asked for.
pub proof fn lemma_failure_ends(phase: Phase, event: Event)
    ensures
        step(phase, Event::Failed).0 == Phase::Finished,
        step(phase, Event::Failed).1 is Fail,
        step(Phase::Finished, event) == (Phase::Finished, Action::Fail(AcquireError::OutOfTurn)),
        step(phase, event).1 is Fail || step(phase, event).1 == Action::Succeed <==> step(
            phase,
            event,
        ).0 == Phase::Finished,
{
}

/// The acquisition of one package: the caller carries out the action it is
/// given and reports the event, until the action is `Succeed` or `Fail`.
pub struct Acquisition {
    package: PackageName,
    phase: Phase,
    dist: String,
}

impl Acquisition {
    /// The package that is acquired.
    pub closed spec fn package(&self) -> PackageParts {
        self.package@
    }

    /// The answer that is waited for.
    pub closed spec fn phase(&self) -> Phase {
        self.phase
    }

    /// Where the archive is fetched from; known once the registry answered.
    pub closed spec fn dist(&self) -> Seq<char> {
        self.dist@
    }

    /// Begins the acquisition of the package `name`. A name that is not of
    /// the form `vendor/project` once it is in lower case is refused;
    /// otherwise the first action is to ask the registry.
    pub fn begin(name: &str) -> (r: Result<(Acquisition, Action), AcquireError>)
        ensures
            match r {
                Ok((acquisition, action)) => {
                    &&& crate::package::well_formed_name(crate::package::lowercase(name@))
                    &&& acquisition.package() == crate::package::parts_of(
                        crate::package::lowercase(name@),
                    )
                    &&& acquisition.package().well_formed()
                    &&& acquisition.phase() == Phase::Metadata
                    &&& action == Action::FetchMetadata
                },
                Err(e) => !crate::package::well_formed_name(crate::package::lowercase(name@)) && e
                    == AcquireError::InvalidName,
            },
    {
        match PackageName::parse(name) {
            Ok(package) => Ok(
                (
                    Acquisition { package, phase: Phase::Metadata, dist: String::new() },
                    Action::FetchMetadata,
                ),
            ),
            Err(e) => Err(e),
        }
    }

    /// Takes the caller's report and says what is to be done next.
    pub fn advance(&mut self, event: Event) -> (action: Action)
        ensures
            (final(self).phase(), action) == step(old(self).phase(), event),
            final(self).package() == old(self).package(),
            final(self).dist() == match (old(self).phase(), event) {
                (Phase::Metadata, Event::Metadata(versions)) => match selected_dist(
                    match versions {
                        Some(v) => Some(v@),
                        None => None,
                    },
                ) {
                    Ok(url) => url,
                    Err(_) => old(self).dist(),
                },
                _ => old(self).dist(),
            },
    {
        let (phase, action) = match (self.phase, event) {
            (Phase::Metadata, Event::Metadata(versions)) => {
                match select_dist(versions.as_ref()) {
                    Ok(url) => {
                        self.dist = url;
                        (Phase::Archive, Action::PrepareArchive)
                    },
                    Err(e) => (Phase::Finished, Action::Fail(e)),
                }
            },
            (Phase::Metadata, Event::Failed) => (
                Phase::Finished,
                Action::Fail(AcquireError::MetadataUnavailable),
            ),
            (Phase::Archive, Event::ArchivePresent(present)) => if present {
                (Phase::Sources, Action::CheckSources)
            } else {
                (Phase::Download, Action::Download)
            },
            (Phase::Archive, Event::Failed) => (
                Phase::Finished,
                Action::Fail(AcquireError::StoreUnavailable),
            ),
            (Phase::Download, Event::Downloaded) => (Phase::Sources, Action::CheckSources),
            (Phase::Download, Event::Failed) => (
                Phase::Finished,
                Action::Fail(AcquireError::DownloadFailed),
            ),
            (Phase::Sources, Event::SourcesPresent(present)) => if present {
                (Phase::Finished, Action::Succeed)
            } else {
                (Phase::Extract, Action::Extract)
            },
            (Phase::Extract, Event::Extracted) => (Phase::Finished, Action::Succeed),
            (Phase::Extract, Event::Failed) => (
                Phase::Finished,
                Action::Fail(AcquireError::ExtractFailed),
            ),
            _ => (Phase::Finished, Action::Fail(AcquireError::OutOfTurn)),
        };
        self.phase = phase;
        action
    }

    /// The name under which the registry lists the versions of the package.
    pub fn package_name(&self) -> (r: String)
        ensures
            r@ == self.package().full(),
    {
        self.package.full_name()
    }

    /// Where the registry describes the versions of the package.
    pub fn metadata_url(&self) -> (r: String)
        ensures
            r@ == self.package().metadata_url(),
    {
        self.package.metadata_url()
    }

    /// The directory of the archive, below the target directory.
    pub fn archive_directory(&self) -> (r: String)
        ensures
            r@ == self.package().archive_directory(),
    {
        self.package.archive_directory()
    }

    /// Where the archive is kept, below the target directory.
    pub fn archive_path(&self) -> (r: String)
        ensures
            r@ == self.package().archive_path(),
    {
        self.package.archive_path()
    }

    /// Where the package is unpacked, below the target directory.
    pub fn source_directory(&self) -> (r: String)
        ensures
            r@ == self.package().source_directory(),
    {
        self.package.source_directory()
    }

    /// Where the archive is unpacked before the result is moved to the
    /// package's directory, below the target directory.
    pub fn temp_directory(&self) -> (r: String)
        ensures
            r@ == crate::extractor::temp_directory_of(self.package()),
    {
        crate::extractor::temp_directory(&self.package)
    }

    /// Where the archive is fetched from.
    pub fn dist_url(&self) -> (r: &str)
        ensures
            r@ == self.dist(),
    {
        self.dist.as_str()
    }
}

/// How many packages were acquired, and how many were not.
#[derive(Debug, Clone, Copy, PartialEq, Eq, Structural)]
pub struct Outcomes {
    pub succeeded: usize,
    pub failed: usize,
}

/// The outcomes of packages that were acquired.
pub open spec fn acquired() -> spec_fn(Result<(), AcquireError>) -> bool {
    |x: Result<(), AcquireError>| x is Ok
}

/// The outcomes of packages that were not acquired.
pub open spec fn not_acquired() -> spec_fn(Result<(), AcquireError>) -> bool {
    |x: Result<(), AcquireError>| x is Err
}

/// Counts the packages that were acquired and those that were not. One
/// package's failure leaves the others as they are.
pub fn count_outcomes(results: &Vec<Result<(), AcquireError>>) -> (r: Outcomes)
    ensures
        r.succeeded == count_where(results@, acquired()),
        r.failed == count_where(results@, not_acquired()),
        r.succeeded + r.failed == results@.len(),
{
    let mut succeeded: usize = 0;
    let mut failed: usize = 0;
    let mut i: usize = 0;
    while i < results.len()
        invariant
            i <= results.len(),
            succeeded + failed == i,
            succeeded == count_where(results@.take(i as int), acquired()),
            failed == count_where(results@.take(i as int), not_acquired()),
        decreases results.len() - i,
    {
        proof {
            assert(results@.take(i + 1).drop_last() =~= results@.take(i as int));
        }
        match results[i] {
            Ok(_) => {
                succeeded += 1;
            },
            Err(_) => {
                failed += 1;
            },
        }
        i += 1;
    }
    assert(results@.take(results@.len() as int) =~= results@);
    Outcomes { succeeded, failed }
}

} // verus!
