//! Workspace discovery: which repository root a command operates on.
//!
//! Like git's repository discovery, an explicit `--workspace` wins; otherwise
//! the search starts at the current directory and walks up until a directory
//! holding `.tasks` appears. Whether a directory holds `.tasks` is a question
//! for the file system, which the program asks; each step of the walk is
//! decided here.

use vstd::prelude::*;

verus! {

/// The parent of a path, as `std::path::Path::parent` gives it (`None` for a
/// root or an empty path).
pub uninterp spec fn path_parent(path: Seq<char>) -> Option<Seq<char>>;

/// The parent directory of `path` (`std::path::Path::parent`). Claimed: the
/// result is a function of the text alone. Which text it is, is not stated.
#[verifier::external_body]
fn parent_dir(path: &str) -> (r: Option<String>)
    ensures
        match r {
            Some(p) => path_parent(path@) == Some(p@),
            None => path_parent(path@) is None,
        },
{
    match std::path::Path::new(path).parent() {
        Some(p) => Some(p.to_string_lossy().into_owned()),
        None => None,
    }
}

/// The outcome of one step of the walk up.
#[derive(Debug)]
pub enum Lookup {
    /// This directory holds `.tasks`: it is the workspace root.
    Found(String),
    /// Not here; look in this parent directory next.
    Up(String),
    /// Not here, and there is no directory above: no workspace.
    NotFound,
}

/// One step of the walk up from the current directory: the directory `dir`,
/// which holds `.tasks` exactly when `has_tasks`, is the workspace root;
/// otherwise the search goes on in its parent, or fails at the top.
pub fn lookup_step(dir: &str, has_tasks: bool) -> (r: Lookup)
    ensures
        has_tasks ==> (r matches Lookup::Found(d) && d@ == dir@),
        !has_tasks ==> match path_parent(dir@) {
            Some(p) => r matches Lookup::Up(q) && q@ == p,
            None => r is NotFound,
        },
{
    if has_tasks {
        Lookup::Found(String::from_str(dir))
    } else {
        match parent_dir(dir) {
            Some(p) => Lookup::Up(p),
            None => Lookup::NotFound,
        }
    }
}

} // verus!
