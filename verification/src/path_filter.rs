//! Decides which root-relative paths the watcher ignores: anything under the
//! build-output directory, editor swap and temp files, and all-numeric
//! filenames.  The rules run on the path relative to the watched root, so
//! ignored paths never reach the debounce store or the classifier.

use vstd::prelude::*;

use crate::strutil::{
    all_digits, filename_of, prefix_of, str_all_digits, str_ends_with, str_eq, str_filename,
    str_starts_with, suffix_of,
};

verus! {

/// The path names the build-output directory or lies under it.
pub open spec fn in_ignored_dir(rel: Seq<char>) -> bool {
    rel == "target"@ || prefix_of(rel, "target/"@)
}

/// The filename carries an editor temp or swap suffix.
pub open spec fn has_ignored_suffix(name: Seq<char>) -> bool {
    ||| suffix_of(name, "~"@)
    ||| suffix_of(name, ".swp"@)
    ||| suffix_of(name, ".swo"@)
    ||| suffix_of(name, ".tmp"@)
}

/// A root-relative path is ignored when it lies under an ignored directory,
/// or its filename has an editor temp suffix, or its filename is all digits.
pub open spec fn spec_should_ignore(rel: Seq<char>) -> bool {
    ||| in_ignored_dir(rel)
    ||| has_ignored_suffix(filename_of(rel))
    ||| all_digits(filename_of(rel))
}

/// Whether the watcher ignores the root-relative path `rel`.
pub fn should_ignore(rel: &str) -> (r: bool)
    ensures
        r == spec_should_ignore(rel@),
{
    if str_eq(rel, "target") || str_starts_with(rel, "target/") {
        return true;
    }
    let name = str_filename(rel);
    if str_ends_with(name.as_str(), "~") || str_ends_with(name.as_str(), ".swp")
        || str_ends_with(name.as_str(), ".swo") || str_ends_with(name.as_str(), ".tmp") {
        return true;
    }
    str_all_digits(name.as_str())
}

} // verus!
