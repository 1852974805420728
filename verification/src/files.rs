//! Which files of a corpus are scanned, and what is known of a file before
//! it is parsed.

use vstd::prelude::*;
use vstd::string::StringExecFns;
use vstd::utf8::{decode_utf8, encode_utf8, valid_utf8};
use crate::text::{bytes_eq, find_last_byte, last_index};
use crate::vendor::Vendor;

verus! {

/// The byte `.`, which parts a file name from its extension.
pub const DOT: u8 = 0x2e;

/// The extension of a file name: what follows its last `.`, unless the name
/// holds no `.` or only one at its very start.
pub open spec fn extension_of(name: Seq<u8>) -> Option<Seq<u8>> {
    let at = last_index(name, DOT);
    if at <= 0 {
        None
    } else {
        Some(name.skip(at + 1))
    }
}

/// The extensions of the files that are scanned.
pub open spec fn is_source_extension(extension: Seq<u8>) -> bool {
    ||| extension == encode_utf8("php"@)
    ||| extension == encode_utf8("php7"@)
    ||| extension == encode_utf8("php8"@)
}

/// The extension of a file name.
pub fn extension(name: &[u8]) -> (r: Option<&[u8]>)
    ensures
        match r {
            Some(e) => extension_of(name@) == Some(e@),
            None => extension_of(name@) is None,
        },
{
    let n = name.len();
    match find_last_byte(name, DOT) {
        Some(at) => if at == 0 {
            None
        } else {
            let e = &name[at + 1..n];
            Some(e)
        },
        None => None,
    }
}

/// Whether a file of this name is scanned: its extension is `php`, `php7` or
/// `php8`, in lower case.
pub fn has_php_extension(file_name: &[u8]) -> (r: bool)
    ensures
        r == match extension_of(file_name@) {
            Some(e) => is_source_extension(e),
            None => false,
        },
{
    match extension(file_name) {
        Some(e) => bytes_eq(e, "php".as_bytes()) || bytes_eq(e, "php7".as_bytes()) || bytes_eq(
            e,
            "php8".as_bytes(),
        ),
        None => false,
    }
}

/// What the walk does with one entry of a directory.
#[derive(Debug, Clone, Copy, PartialEq, Eq, Structural)]
pub enum WalkStep {
    /// The entry is a directory: its entries are walked too.
    Descend,
    /// The entry is a file that is scanned.
    Collect,
    /// The entry is left out.
    Skip,
}

/// What the walk does with an entry: a directory is walked, a regular file
/// with a source extension is collected, anything else is left out.
pub fn walk_step(is_dir: bool, is_file: bool, file_name: &[u8]) -> (r: WalkStep)
    ensures
        r == if is_dir {
            WalkStep::Descend
        } else if is_file && extension_of(file_name@) is Some && is_source_extension(
            extension_of(file_name@)->0,
        ) {
            WalkStep::Collect
        } else {
            WalkStep::Skip
        },
{
    if is_dir {
        WalkStep::Descend
    } else if is_file && has_php_extension(file_name) {
        WalkStep::Collect
    } else {
        WalkStep::Skip
    }
}

/// The text that invalid-tolerant decoding makes of bytes, as
/// `String::from_utf8_lossy` gives it.
pub uninterp spec fn lossy_text(bytes: Seq<u8>) -> Seq<char>;

/// `String::from_utf8_lossy`: the text of the bytes, with every part that
/// is not UTF-8 replaced by the replacement character. Bytes that are UTF-8
/// throughout are decoded as they are.
#[verifier::external_body]
fn decode_lossy(bytes: &[u8]) -> (text: String)
    ensures
        text@ == lossy_text(bytes@),
        valid_utf8(bytes@) ==> text@ == decode_utf8(bytes@),
{
    String::from_utf8_lossy(bytes).into_owned()
}

/// The vendor of the file whose path below the sources directory begins
/// with the directories `vendor` and `project`; `Other` where one of them
/// is missing.
pub open spec fn vendor_of_path(vendor: Option<Seq<char>>, project: Option<Seq<char>>) -> Vendor {
    match (vendor, project) {
        (Some(v), Some(p)) => Vendor::classify(v + seq!['/'] + p),
        _ => Vendor::Other,
    }
}

/// The texts of two optional path components.
pub open spec fn component(part: Option<&str>) -> Option<Seq<char>> {
    match part {
        Some(text) => Some(text@),
        None => None,
    }
}

/// What is known of a file once its bytes are read: the vendor of the
/// package that it belongs to, and its text. `vendor` and `project` are the
/// first two components of the file's path below the sources directory,
/// `None` where the path has no such component or it is not text.
pub fn read_file(vendor: Option<&str>, project: Option<&str>, bytes: &[u8]) -> (r: (Vendor, String))
    ensures
        r.0 == vendor_of_path(component(vendor), component(project)),
        r.1@ == lossy_text(bytes@),
        valid_utf8(bytes@) ==> r.1@ == decode_utf8(bytes@),
{
    let owner = match (vendor, project) {
        (Some(v), Some(p)) => {
            proof {
                reveal_strlit("/");
            }
            let mut name = String::from_str(v);
            name.append("/");
            name.append(p);
            Vendor::from_package(name.as_str())
        },
        _ => Vendor::Other,
    };
    (owner, decode_lossy(bytes))
}

} // verus!
