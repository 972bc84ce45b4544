//! Path and text helpers shared by the rest of the library.
//!
//! Paths are carried as `String`s. The component-level questions (the final
//! component, the parent, the relative rest after a base, joining) are answered
//! by `std::path`, through the small trusted wrappers below; what the library
//! derives from those answers (file stem, extension, output names, decimal
//! numbers) is computed and proved here.

use vstd::prelude::*;
use crate::text::{split_file_name, split_name};

verus! {

/// The final component of a path as `std::path::Path::file_name` computes it.
pub uninterp spec fn path_file_name(path: Seq<char>) -> Option<Seq<char>>;

/// The parent of a path as `std::path::Path::parent` computes it.
pub uninterp spec fn path_parent(path: Seq<char>) -> Option<Seq<char>>;

/// What remains of `path` after the leading components `base`, as
/// `std::path::Path::strip_prefix` computes it (`None` where `base` is not a prefix).
pub uninterp spec fn path_strip_prefix(path: Seq<char>, base: Seq<char>) -> Option<Seq<char>>;

/// `base` joined with `tail` as `std::path::Path::join` computes it.
pub uninterp spec fn path_join(base: Seq<char>, tail: Seq<char>) -> Seq<char>;

/// The lowercase form of a text as `str::to_lowercase` computes it.
pub uninterp spec fn text_lowercase(text: Seq<char>) -> Seq<char>;

/// The view of an optional string.
pub open spec fn opt_view(o: Option<String>) -> Option<Seq<char>> {
    match o {
        Some(s) => Some(s@),
        None => None,
    }
}

/// Calls `std::path::Path::file_name` on `path`. The contract claims only that the
/// result is the named value `path_file_name` of the argument. For a `&str`
/// argument the component is valid UTF-8, so the lossy conversion is exact.
#[verifier::external_body]
pub(crate) fn file_name_of(path: &str) -> (name: Option<String>)
    ensures
        opt_view(name) == path_file_name(path@),
{
    std::path::Path::new(path).file_name().map(|n| n.to_string_lossy().into_owned())
}

/// Calls `std::path::Path::parent` on `path`. The contract claims only that the
/// result is the named value `path_parent` of the argument.
#[verifier::external_body]
pub(crate) fn parent_of(path: &str) -> (parent: Option<String>)
    ensures
        opt_view(parent) == path_parent(path@),
{
    std::path::Path::new(path).parent().map(|p| p.to_string_lossy().into_owned())
}

/// Calls `std::path::Path::strip_prefix` on `path` with `base`; its error becomes
/// `None`. The contract claims only that the result is the named value
/// `path_strip_prefix` of the two arguments.
#[verifier::external_body]
pub(crate) fn strip_prefix_of(path: &str, base: &str) -> (rest: Option<String>)
    ensures
        opt_view(rest) == path_strip_prefix(path@, base@),
{
    std::path::Path::new(path).strip_prefix(base).ok().map(|p| p.to_string_lossy().into_owned())
}

/// Calls `std::path::Path::join` on `base` with `tail`. The contract claims only
/// that the result is the named value `path_join` of the two arguments.
#[verifier::external_body]
pub(crate) fn join_paths(base: &str, tail: &str) -> (joined: String)
    ensures
        joined@ == path_join(base@, tail@),
{
    std::path::Path::new(base).join(tail).to_string_lossy().into_owned()
}

/// Calls `str::to_lowercase`. The contract claims only that the result is the
/// named value `text_lowercase` of the argument.
#[verifier::external_body]
pub(crate) fn lowercase_of(text: &str) -> (lower: String)
    ensures
        lower@ == text_lowercase(text@),
{
    text.to_lowercase()
}

/// The file stem of a path: the stem part of its final component.
pub open spec fn file_stem_spec(path: Seq<char>) -> Option<Seq<char>> {
    match path_file_name(path) {
        Some(name) => Some(split_name(name).0),
        None => None,
    }
}

/// The extension of a path: the extension part of its final component.
pub open spec fn extension_spec(path: Seq<char>) -> Option<Seq<char>> {
    match path_file_name(path) {
        Some(name) => split_name(name).1,
        None => None,
    }
}

/// The parent of a path, or the empty path where it has none.
pub open spec fn parent_or_empty(path: Seq<char>) -> Seq<char> {
    match path_parent(path) {
        Some(parent) => parent,
        None => Seq::empty(),
    }
}

/// The file stem of `path` (the final component without its extension).
pub fn file_stem(path: &str) -> (stem: Option<String>)
    ensures
        opt_view(stem) == file_stem_spec(path@),
{
    match file_name_of(path) {
        Some(name) => {
            let (stem, _ext) = split_file_name(name.as_str());
            Some(stem)
        },
        None => None,
    }
}

/// The extension of `path`, as written (not lowercased).
pub fn extension(path: &str) -> (ext: Option<String>)
    ensures
        opt_view(ext) == extension_spec(path@),
{
    match file_name_of(path) {
        Some(name) => {
            let (_stem, ext) = split_file_name(name.as_str());
            ext
        },
        None => None,
    }
}

/// The final component of `path`.
pub fn file_name(path: &str) -> (name: Option<String>)
    ensures
        opt_view(name) == path_file_name(path@),
{
    file_name_of(path)
}

/// The parent of `path`, or the empty path where it has none.
pub fn parent_or_empty_path(path: &str) -> (parent: String)
    ensures
        parent@ == parent_or_empty(path@),
{
    match parent_of(path) {
        Some(p) => p,
        None => String::new(),
    }
}

} // verus!
