//! The virtual file system, as far as include targets are looked up in it.
//!
//! Nothing here is proved. A path is a text; joining is a matter of the
//! texts alone, and is named here rather than written out. What a lookup
//! finds depends on what the file system holds at the time, so nothing is
//! promised of a read or of a probe.

use vstd::prelude::*;
use vfs::VfsError;
use vfs::VfsPath;

verus! {

/// A path in a virtual file system: `vfs::VfsPath`.
#[verifier::external_type_specification]
#[verifier::external_body]
pub struct ExVfsPath(VfsPath);

/// The error type of the virtual file system: `vfs::VfsError`.
#[verifier::external_type_specification]
#[verifier::external_body]
pub struct ExVfsError(VfsError);

/// `VfsPath::read_to_string` reads the whole file at the path, or fails
/// where there is no file to read.
pub assume_specification[ VfsPath::read_to_string ](path: &VfsPath) -> (content: Result<
    String,
    VfsError,
>)
;

/// `VfsPath::exists` tells whether a file or a directory is at the path.
pub assume_specification[ VfsPath::exists ](path: &VfsPath) -> (found: Result<bool, VfsError>)
;

/// The text that a path holds: what `VfsPath::as_str` gives.
pub uninterp spec fn path_text(path: VfsPath) -> Seq<char>;

/// The text of the path that `VfsPath::join` makes of a path with the text
/// `base` and of the relative path `path`, or `None` where it refuses
/// `path` as invalid.
pub uninterp spec fn joined(base: Seq<char>, path: Seq<char>) -> Option<Seq<char>>;

/// `VfsPath::as_str` gives the text of the path.
pub assume_specification<'a>[ VfsPath::as_str ](path: &'a VfsPath) -> (text: &'a str)
    ensures
        text@ == path_text(*path),
;

/// `VfsPath::join` appends a relative path to `base`, or refuses it as
/// invalid. Whether it does, and the text of the path that it makes, follow
/// from the text of `base` and from `path` alone: no file is looked at.
#[verifier::external_body]
pub(crate) fn join(base: &VfsPath, path: &str) -> (made: Result<VfsPath, VfsError>)
    ensures
        match joined(path_text(*base), path@) {
            Some(text) => made matches Ok(longer) && path_text(longer) == text,
            None => made is Err,
        },
{
    base.join(path)
}

} // verus!
