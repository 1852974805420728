//! Unpacking archives: where an archive is unpacked first, which entries it
//! may hold, and how the unpacked tree is put in its place.

use vstd::prelude::*;
use vstd::string::{StringExecFns, StrSliceExecFns};
use vstd::utf8::encode_utf8;
use crate::downloader::{step, Action, Event, Phase};
use crate::files::{extension, extension_of, DOT};
use crate::package::{PackageName, PackageParts};
use crate::text::{bytes_eq, chars_of, starts_with};

verus! {

/// The byte `/`, which parts the components of a path.
pub const SLASH: u8 = 0x2f;

/// The packages that are being unpacked are kept under this directory,
/// beside the directory of the unpacked packages.
pub open spec fn temp_root() -> Seq<char> {
    "unpacking"@
}

/// The directory in which the archive of a package is unpacked before the
/// result is moved to the package's directory: `unpacking/<vendor>/<project>`.
pub open spec fn temp_directory_of(package: PackageParts) -> Seq<char> {
    temp_root() + seq!['/'] + package.vendor + seq!['/'] + package.project
}

/// The directory in which the archive of a package is unpacked before the
/// result is moved to the package's directory, below the target directory.
pub fn temp_directory(package: &PackageName) -> (r: String)
    ensures
        r@ == temp_directory_of(package@),
{
    proof {
        reveal_strlit("/");
    }
    let mut r = String::from_str("unpacking");
    r.append("/");
    r.append(package.vendor.as_str());
    r.append("/");
    r.append(package.project.as_str());
    assert(r@ =~= temp_directory_of(package@));
    r
}

/// The temporary directory of a package is the directory of no package, and
/// nothing below it is the directory of a package or lies below one: what is
/// unpacked does not show at a final path before it is moved there. Nor is
/// anything below it the archive of a package.
pub proof fn lemma_temp_directory_is_apart(
    p: PackageParts,
    q: PackageParts,
    below_temp: Seq<char>,
    below_final: Seq<char>,
)
    ensures
        temp_directory_of(p) != q.source_directory(),
        temp_directory_of(p) + below_temp != q.source_directory() + below_final,
        temp_directory_of(p) + below_temp != q.archive_path(),
{
    reveal_strlit("unpacking");
    reveal_strlit("sources");
    reveal_strlit("zipballs");
    let temp = temp_directory_of(p);
    assert(temp[0] == 'u');
    assert((temp + below_temp)[0] == 'u');
    assert(q.source_directory()[0] == 's');
    assert((q.source_directory() + below_final)[0] == 's');
    assert(q.archive_path()[0] == 'z');
}

/// Every package has a temporary directory of its own: two packages that
/// are unpacked at the same time do not write to the same place.
pub proof fn lemma_temp_directory_is_private(p: PackageParts, q: PackageParts)
    requires
        p.well_formed(),
        q.well_formed(),
        temp_directory_of(p) == temp_directory_of(q),
    ensures
        p == q,
{
    let head = temp_root() + seq!['/'];
    let a = p.vendor + seq!['/'] + p.project;
    let b = q.vendor + seq!['/'] + q.project;
    assert(temp_directory_of(p) =~= head + a);
    assert(temp_directory_of(q) =~= head + b);
    assert(a =~= (head + a).skip(head.len() as int));
    assert(b =~= (head + b).skip(head.len() as int));
    let m = p.vendor.len() as int;
    let n = q.vendor.len() as int;
    assert(a[m] == '/');
    assert(b[n] == '/');
    if m < n {
        assert(b[m] == q.vendor[m]);
        assert(q.vendor.contains(q.vendor[m]));
    }
    if n < m {
        assert(a[n] == p.vendor[n]);
        assert(p.vendor.contains(p.vendor[n]));
    }
    assert(p.vendor =~= a.take(m));
    assert(q.vendor =~= b.take(n));
    assert(p.project =~= a.skip(m + 1));
    assert(q.project =~= b.skip(n + 1));
}

/// Whether the part `..` of a path begins at `at`: two dots that are
/// preceded by a `/` or by nothing, and followed by a `/` or by nothing.
pub open spec fn parent_part_at(name: Seq<u8>, at: int) -> bool {
    &&& 0 <= at
    &&& at + 2 <= name.len()
    &&& name[at] == DOT
    &&& name[at + 1] == DOT
    &&& at == 0 || name[at - 1] == SLASH
    &&& at + 2 == name.len() || name[at + 2] == SLASH
}

/// An entry of this name is written inside the directory that the archive
/// is unpacked in: the name does not begin with `/`, and none of its parts
/// between `/` is `..`.
pub open spec fn stays_inside(name: Seq<u8>) -> bool {
    &&& name.len() == 0 || name[0] != SLASH
    &&& forall|at: int| !parent_part_at(name, at)
}

/// Whether an entry of this name is written inside the directory that the
/// archive is unpacked in. An archive with another entry is refused.
pub fn entry_stays_inside(name: &[u8]) -> (r: bool)
    ensures
        r == stays_inside(name@),
{
    let n = name.len();
    if n > 0 && name[0] == SLASH {
        return false;
    }
    let mut i: usize = 0;
    while i < n
        invariant
            i <= n,
            n == name@.len(),
            forall|at: int| at < i ==> !parent_part_at(name@, at),
        decreases n - i,
    {
        if n - i >= 2 && name[i] == DOT && name[i + 1] == DOT && (i == 0 || name[i - 1] == SLASH)
            && (n - i == 2 || name[i + 2] == SLASH) {
            assert(parent_part_at(name@, i as int));
            return false;
        }
        i += 1;
    }
    true
}

/// What is done with the archive of a package: a package that is unpacked
/// already is left as it is, any other is unpacked. This is the step that an
/// acquisition takes once it knows whether the sources are there.
pub fn extraction_step(sources_present: bool) -> (r: Action)
    ensures
        r == if sources_present {
            Action::Succeed
        } else {
            Action::Extract
        },
        r == step(Phase::Sources, Event::SourcesPresent(sources_present)).1,
{
    if sources_present {
        Action::Succeed
    } else {
        Action::Extract
    }
}

/// How an unpacked tree is put in its place.
#[derive(Debug, Clone, Copy, PartialEq, Eq, Structural)]
pub enum Placement {
    /// The archive held one directory at its top: that directory becomes
    /// the package's directory, and the temporary directory is removed.
    Flatten,
    /// The temporary directory itself becomes the package's directory.
    Whole,
}

/// How the tree that was unpacked is put in its place. `top_level` says of
/// each entry at the top of the temporary directory whether it is a
/// directory.
pub fn placement(top_level: &[bool]) -> (r: Placement)
    ensures
        r == if top_level@.len() == 1 && top_level@[0] {
            Placement::Flatten
        } else {
            Placement::Whole
        },
{
    if top_level.len() == 1 && top_level[0] {
        Placement::Flatten
    } else {
        Placement::Whole
    }
}

/// Whether a file of this name is taken for an archive: its extension is
/// `zip`.
pub fn is_zip_archive(file_name: &[u8]) -> (r: bool)
    ensures
        r == (extension_of(file_name@) == Some(encode_utf8("zip"@))),
{
    match extension(file_name) {
        Some(e) => bytes_eq(e, "zip".as_bytes()),
        None => false,
    }
}

/// The package whose archive is the file `file_name` in the directory of
/// `vendor`, if the file is named as the archive of a package of that
/// vendor is.
pub fn archive_package(vendor: &str, file_name: &str) -> (r: Option<PackageName>)
    ensures
        match r {
            Some(package) => package@.vendor == vendor@ && package@.archive_file() == file_name@,
            None => forall|project: Seq<char>|
                (#[trigger] PackageParts { vendor: vendor@, project }.archive_file())
                    != file_name@,
        },
{
    proof {
        reveal_strlit(".zip");
        reveal_strlit("-");
    }
    let name = chars_of(file_name);
    let n = name.len();
    let head = chars_of(vendor);
    let h = head.len();
    let ghost tail = ".zip"@;
    if n < 5 || h > n - 5 {
        proof {
            assert forall|project: Seq<char>|
                (#[trigger] PackageParts { vendor: vendor@, project }.archive_file())
                    != file_name@ by {
                assert(PackageParts { vendor: vendor@, project }.archive_file().len() == h + 1
                    + project.len() + 4);
            }
        }
        return None;
    }
    let named = starts_with(&name, vendor) && name[h] == '-' && name[n - 4] == '.' && name[n - 3]
        == 'z' && name[n - 2] == 'i' && name[n - 1] == 'p';
    if !named {
        proof {
            assert forall|project: Seq<char>|
                (#[trigger] PackageParts { vendor: vendor@, project }.archive_file())
                    != file_name@ by {
                let file = PackageParts { vendor: vendor@, project }.archive_file();
                if file == file_name@ {
                    assert(file[n - 4] == tail[0]);
                }
            }
        }
        return None;
    }
    let project = file_name.substring_char(h + 1, n - 4);
    proof {
        let parts = PackageParts { vendor: vendor@, project: project@ };
        assert(parts.archive_file() =~= file_name@);
    }
    Some(PackageName { vendor: vendor.to_owned(), project: project.to_owned() })
}

/// The name of a package's archive tells the package: two packages of one
/// vendor with the same archive name are the same package.
pub proof fn lemma_archive_names_package(a: PackageParts, b: PackageParts)
    requires
        a.vendor == b.vendor,
        a.archive_file() == b.archive_file(),
    ensures
        a == b,
{
    let h = a.vendor.len() as int;
    assert(a.archive_file().len() == h + 1 + a.project.len() + ".zip"@.len());
    assert forall|i: int| 0 <= i < a.project.len() implies a.project[i] == b.project[i] by {
        assert(a.archive_file()[h + 1 + i] == a.project[i]);
    }
    assert(a.project =~= b.project);
}

} // verus!
