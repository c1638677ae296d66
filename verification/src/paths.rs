//! Decisions on path names: which directory entries are hidden, which files
//! are desktop descriptors, and what `std::path` makes of a path string.

use std::path::Path;
use vstd::prelude::*;

verus! {

/// The stem that `std::path::Path::file_stem` extracts from the path written
/// as `path`, or `None` where it extracts none.
pub uninterp spec fn path_file_stem(path: Seq<char>) -> Option<Seq<char>>;

/// The extension that `std::path::Path::extension` extracts from the path
/// written as `path`, or `None` where it extracts none.
pub uninterp spec fn path_extension(path: Seq<char>) -> Option<Seq<char>>;

/// The characters of an optional string.
pub open spec fn text_of(s: Option<String>) -> Option<Seq<char>> {
    match s {
        Some(t) => Some(t@),
        None => None,
    }
}

/// The characters of an optional string slice.
pub open spec fn slice_text(s: Option<&str>) -> Option<Seq<char>> {
    match s {
        Some(t) => Some(t@),
        None => None,
    }
}

/// The extension that marks a desktop descriptor.
pub open spec fn desktop_extension() -> Seq<char> {
    "desktop"@
}

/// Calls `std::path::Path::file_stem` on the path written as `path` and hands
/// the stem back as a string. Trusted: the result is the one that
/// `path_file_stem` names; nothing else is claimed of it.
#[verifier::external_body]
pub(crate) fn file_stem(path: &str) -> (stem: Option<String>)
    ensures
        text_of(stem) == path_file_stem(path@),
{
    Path::new(path).file_stem().map(|s| s.to_string_lossy().into_owned())
}

/// Calls `std::path::Path::extension` on the path written as `path` and hands
/// the extension back as a string. Trusted: the result is the one that
/// `path_extension` names; nothing else is claimed of it.
#[verifier::external_body]
pub(crate) fn extension(path: &str) -> (ext: Option<String>)
    ensures
        text_of(ext) == path_extension(path@),
{
    Path::new(path).extension().map(|s| s.to_string_lossy().into_owned())
}

/// Whether a directory entry with this file name is hidden: its name begins
/// with a dot.
pub fn is_hidden(file_name: &str) -> (hidden: bool)
    ensures
        hidden == (file_name@.len() > 0 && file_name@[0] == '.'),
{
    !file_name.is_empty() && file_name.get_char(0) == '.'
}

/// Whether an extension, as extracted from a path, is that of a desktop
/// descriptor: it is there, and it is exactly `desktop`.
pub fn is_desktop_extension(ext: Option<&str>) -> (desktop: bool)
    ensures
        desktop == (slice_text(ext) == Some(desktop_extension())),
{
    match ext {
        Some(ext) => ext.to_owned() == "desktop".to_owned(),
        None => false,
    }
}

/// Whether the path names a desktop descriptor: its extension is exactly
/// `desktop`.
pub fn is_desktop_file(path: &str) -> (desktop: bool)
    ensures
        desktop == (path_extension(path@) == Some(desktop_extension())),
{
    match extension(path) {
        Some(ext) => is_desktop_extension(Some(ext.as_str())),
        None => is_desktop_extension(None),
    }
}

} // verus!
