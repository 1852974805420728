//! Package names, and where a package is found at the registry and kept on
//! disk.

use vstd::prelude::*;
use vstd::string::{StringExecFns, StrSliceExecFns};
use crate::counting::{count_where, lemma_count_concat, lemma_count_push, lemma_count_some};
use crate::text::chars_of;

verus! {

/// The lower-case form of a text, as `str::to_lowercase` gives it.
pub uninterp spec fn lowercase(s: Seq<char>) -> Seq<char>;

/// `str::to_lowercase`: the text with every character replaced by its
/// lower-case form. The result is a function of the text alone; what it is
/// for a given text is left to the standard library.
#[verifier::external_body]
fn to_lowercase(s: &str) -> (r: String)
    ensures
        r@ == lowercase(s@),
{
    s.to_lowercase()
}

/// The name of a package: a vendor and a project, written `vendor/project`.
#[derive(Debug, Clone)]
pub struct PackageName {
    pub vendor: String,
    pub project: String,
}

/// What a package name is made of.
pub struct PackageParts {
    pub vendor: Seq<char>,
    pub project: Seq<char>,
}

impl View for PackageName {
    type V = PackageParts;

    open spec fn view(&self) -> PackageParts {
        PackageParts { vendor: self.vendor@, project: self.project@ }
    }
}

/// Why a package could not be acquired.
#[derive(Debug, Clone, Copy, PartialEq, Eq, Structural)]
pub enum AcquireError {
    /// The name is not of the form `vendor/project`.
    InvalidName,
    /// The registry could not be asked, or its answer could not be read.
    MetadataUnavailable,
    /// The registry's answer does not list the package.
    NotInMetadata,
    /// The registry lists no version of the package.
    NoVersions,
    /// The selected version names no archive.
    NoDist,
    /// The directory for the archive could not be made.
    StoreUnavailable,
    /// The archive could not be fetched or written.
    DownloadFailed,
    /// The archive could not be unpacked.
    ExtractFailed,
    /// An event came that does not answer the action that was asked for.
    OutOfTurn,
}

impl AcquireError {
    /// The error in words.
    pub open spec fn text(self) -> Seq<char> {
        match self {
            AcquireError::InvalidName => "Invalid package name format"@,
            AcquireError::MetadataUnavailable => "Failed to fetch package metadata"@,
            AcquireError::NotInMetadata => "Package not found in metadata"@,
            AcquireError::NoVersions => "No versions available for package"@,
            AcquireError::NoDist => "No dist information available"@,
            AcquireError::StoreUnavailable => "Failed to create zipball directory"@,
            AcquireError::DownloadFailed => "Failed to download package"@,
            AcquireError::ExtractFailed => "Failed to extract package"@,
            AcquireError::OutOfTurn => "Unexpected step in package acquisition"@,
        }
    }

    /// The error in words, for a log line.
    pub fn message(&self) -> (r: &'static str)
        ensures
            r@ == self.text(),
    {
        match self {
            AcquireError::InvalidName => "Invalid package name format",
            AcquireError::MetadataUnavailable => "Failed to fetch package metadata",
            AcquireError::NotInMetadata => "Package not found in metadata",
            AcquireError::NoVersions => "No versions available for package",
            AcquireError::NoDist => "No dist information available",
            AcquireError::StoreUnavailable => "Failed to create zipball directory",
            AcquireError::DownloadFailed => "Failed to download package",
            AcquireError::ExtractFailed => "Failed to extract package",
            AcquireError::OutOfTurn => "Unexpected step in package acquisition",
        }
    }
}

/// The characters that are `c`.
pub open spec fn is_char(c: char) -> spec_fn(char) -> bool {
    |x: char| x == c
}

/// How often `c` occurs in `s`.
pub open spec fn occurrences(s: Seq<char>, c: char) -> nat {
    count_where(s, is_char(c))
}

/// `name` has the form `vendor/project`: it holds exactly one `/`.
pub open spec fn well_formed_name(name: Seq<char>) -> bool {
    occurrences(name, '/') == 1
}

/// The vendor and the project of a name that holds a `/`: what stands before
/// the first `/`, and what stands behind it.
pub open spec fn parts_of(name: Seq<char>) -> PackageParts {
    let at = crate::vendor::first_slash(name);
    PackageParts { vendor: name.take(at), project: name.skip(at + 1) }
}

/// The archives of all packages are kept under this directory.
pub open spec fn archive_root() -> Seq<char> {
    "zipballs"@
}

/// The unpacked packages are kept under this directory.
pub open spec fn source_root() -> Seq<char> {
    "sources"@
}

impl PackageParts {
    /// Neither the vendor nor the project holds a `/`, as in every name of
    /// the form `vendor/project`.
    pub open spec fn well_formed(self) -> bool {
        !self.vendor.contains('/') && !self.project.contains('/')
    }

    /// The name in full, `vendor/project`.
    pub open spec fn full(self) -> Seq<char> {
        self.vendor + seq!['/'] + self.project
    }

    /// The directory of the vendor's archives, `zipballs/<vendor>`.
    pub open spec fn archive_directory(self) -> Seq<char> {
        archive_root() + seq!['/'] + self.vendor
    }

    /// The file name of the package's archive, `<vendor>-<project>.zip`.
    pub open spec fn archive_file(self) -> Seq<char> {
        self.vendor + seq!['-'] + self.project + ".zip"@
    }

    /// Where the archive is kept, `zipballs/<vendor>/<vendor>-<project>.zip`.
    pub open spec fn archive_path(self) -> Seq<char> {
        self.archive_directory() + seq!['/'] + self.archive_file()
    }

    /// Where the package is unpacked, `sources/<vendor>/<project>`.
    pub open spec fn source_directory(self) -> Seq<char> {
        source_root() + seq!['/'] + self.vendor + seq!['/'] + self.project
    }

    /// Where the registry describes the versions of the package.
    pub open spec fn metadata_url(self) -> Seq<char> {
        "https://repo.packagist.org/p2/"@ + self.vendor + seq!['/'] + self.project + ".json"@
    }
}

/// In a name of the form `vendor/project` neither the vendor nor the
/// project holds a `/`.
pub proof fn lemma_parts_well_formed(name: Seq<char>)
    requires
        well_formed_name(name),
    ensures
        parts_of(name).well_formed(),
        parts_of(name).full() == name,
{
    let slash = is_char('/');
    let at = crate::vendor::first_slash(name);
    crate::vendor::lemma_first_slash(name);
    lemma_count_some(name, slash);
    let found = choose|i: int| 0 <= i < name.len() && slash(#[trigger] name[i]);
    assert(name.contains(name[found]));
    let vendor = name.take(at);
    let project = name.skip(at + 1);
    assert(name =~= vendor.push('/') + project);
    lemma_count_concat(vendor.push('/'), project, slash);
    lemma_count_push(vendor, '/', slash);
    lemma_count_some(project, slash);
    if project.contains('/') {
        let i = choose|i: int| 0 <= i < project.len() && project[i] == '/';
        assert(slash(project[i]));
    }
    if vendor.contains('/') {
        let i = choose|i: int| 0 <= i < vendor.len() && vendor[i] == '/';
        assert(name[i] == '/');
    }
    assert(parts_of(name).full() =~= name);
}

impl PackageName {
    /// Reads a name that is already in lower case: it is accepted if it holds
    /// exactly one `/`, which parts the vendor from the project.
    pub fn from_lowercase(name: &str) -> (r: Result<PackageName, AcquireError>)
        ensures
            match r {
                Ok(package) => well_formed_name(name@) && package@ == parts_of(name@)
                    && package@.well_formed(),
                Err(e) => !well_formed_name(name@) && e == AcquireError::InvalidName,
            },
    {
        let chars = chars_of(name);
        let n = chars.len();
        let mut slashes: usize = 0;
        let mut first: usize = n;
        let mut i: usize = 0;
        while i < n
            invariant
                i <= n,
                n == chars@.len(),
                slashes <= i,
                slashes == occurrences(chars@.take(i as int), '/'),
                slashes == 0 ==> first == n,
                slashes > 0 ==> first < i && chars@[first as int] == '/',
                forall|j: int| 0 <= j < i && j < first ==> chars@[j] != '/',
            decreases n - i,
        {
            proof {
                assert(chars@.take(i + 1) =~= chars@.take(i as int).push(chars@[i as int]));
                lemma_count_push(chars@.take(i as int), chars@[i as int], is_char('/'));
            }
            if chars[i] == '/' {
                if slashes == 0 {
                    first = i;
                }
                slashes += 1;
            }
            i += 1;
        }
        assert(chars@.take(n as int) =~= chars@);
        if slashes != 1 {
            return Err(AcquireError::InvalidName);
        }
        proof {
            lemma_parts_well_formed(name@);
            crate::vendor::lemma_first_slash(name@);
            let at = crate::vendor::first_slash(name@);
            if at < first {
                assert(name@[at] == '/');
            }
            if at > first {
                assert(name@[first as int] == '/');
            }
        }
        let vendor = name.substring_char(0, first);
        let project = name.substring_char(first + 1, n);
        proof {
            assert(vendor@ =~= name@.take(first as int));
        }
        Ok(PackageName { vendor: vendor.to_owned(), project: project.to_owned() })
    }

    /// Reads a package name as the registry lists it: the name is put in
    /// lower case, and is accepted if it then holds exactly one `/`.
    pub fn parse(name: &str) -> (r: Result<PackageName, AcquireError>)
        ensures
            match r {
                Ok(package) => well_formed_name(lowercase(name@)) && package@ == parts_of(
                    lowercase(name@),
                ) && package@.well_formed(),
                Err(e) => !well_formed_name(lowercase(name@)) && e == AcquireError::InvalidName,
            },
    {
        let lower = to_lowercase(name);
        PackageName::from_lowercase(lower.as_str())
    }

    /// The name in full, `vendor/project`.
    pub fn full_name(&self) -> (r: String)
        ensures
            r@ == self@.full(),
    {
        proof {
            reveal_strlit("/");
        }
        let mut r = self.vendor.clone();
        r.append("/");
        r.append(self.project.as_str());
        r
    }

    /// Where the registry describes the versions of the package.
    pub fn metadata_url(&self) -> (r: String)
        ensures
            r@ == self@.metadata_url(),
    {
        proof {
            reveal_strlit("/");
        }
        let mut r = String::from_str("https://repo.packagist.org/p2/");
        r.append(self.vendor.as_str());
        r.append("/");
        r.append(self.project.as_str());
        r.append(".json");
        r
    }

    /// The directory of the vendor's archives, below the target directory.
    pub fn archive_directory(&self) -> (r: String)
        ensures
            r@ == self@.archive_directory(),
    {
        proof {
            reveal_strlit("/");
        }
        let mut r = String::from_str("zipballs");
        r.append("/");
        r.append(self.vendor.as_str());
        r
    }

    /// Where the archive of the package is kept, below the target directory.
    pub fn archive_path(&self) -> (r: String)
        ensures
            r@ == self@.archive_path(),
    {
        proof {
            reveal_strlit("/");
            reveal_strlit("-");
        }
        let mut r = self.archive_directory();
        r.append("/");
        r.append(self.vendor.as_str());
        r.append("-");
        r.append(self.project.as_str());
        r.append(".zip");
        r
    }

    /// Where the package is unpacked, below the target directory.
    pub fn source_directory(&self) -> (r: String)
        ensures
            r@ == self@.source_directory(),
    {
        proof {
            reveal_strlit("/");
        }
        let mut r = String::from_str("sources");
        r.append("/");
        r.append(self.vendor.as_str());
        r.append("/");
        r.append(self.project.as_str());
        r
    }
}

} // verus!
