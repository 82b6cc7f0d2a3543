//! The name under which a file is shown.

use vstd::prelude::*;

verus! {

/// The final component of `path` as the standard library's
/// `Path::file_name` gives it: the name of the file or directory that the
/// path ends in, or `None` where the path ends in `..` or names no
/// component at all. How a path splits into components is the platform's
/// rule and is not stated here.
pub uninterp spec fn final_component(path: Seq<char>) -> Option<Seq<char>>;

/// Calls `std::path::Path::file_name` on `path` and hands the component
/// back as text. The contract only gives the outcome its name,
/// `final_component`: nothing is claimed of how paths are split.
#[verifier::external_body]
pub(crate) fn file_name(path: &str) -> (name: Option<String>)
    ensures
        match name {
            Some(text) => final_component(path@) == Some(text@),
            None => final_component(path@) is None,
        },
{
    match std::path::Path::new(path).file_name() {
        Some(component) => component.to_str().map(String::from),
        None => None,
    }
}

} // verus!
