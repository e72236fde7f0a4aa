//! Paths of the file system, which are carried and shown but not looked into.
use std::path::PathBuf;
use vstd::prelude::*;

verus! {

/// `std::path::PathBuf`. The library carries paths and never looks inside one.
#[verifier::external_type_specification]
#[verifier::external_body]
pub struct ExPathBuf(PathBuf);

/// The path that `PathBuf::from` makes of a text.
pub uninterp spec fn path_of(text: Seq<char>) -> PathBuf;

/// The text that `Path::to_string_lossy` gives of a path.
pub uninterp spec fn path_text(path: PathBuf) -> Seq<char>;

/// Calls `PathBuf::from`. The path is the one that `path_of` names, and as it was made of
/// characters, its lossy text is the text that it was made of.
#[verifier::external_body]
pub(crate) fn path_from(text: &str) -> (path: PathBuf)
    ensures
        path == path_of(text@),
        path_text(path) == text@,
{
    PathBuf::from(text)
}

/// Calls `Path::to_string_lossy`. The text is the one that `path_text` names.
#[verifier::external_body]
pub(crate) fn lossy_text(path: &PathBuf) -> (text: String)
    ensures
        text@ == path_text(*path),
{
    path.to_string_lossy().into_owned()
}

/// Calls `PathBuf::clone`, which gives a path equal to the one cloned.
pub assume_specification[ <PathBuf as Clone>::clone ](path: &PathBuf) -> (copy: PathBuf)
    ensures
        copy == *path,
;

} // verus!
