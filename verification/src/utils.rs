//! Checks against the file system that the commands share.

use vstd::prelude::*;

verus! {

/// What `verify_path` says of a path that is no directory.
pub const PATH_ERROR: &'static str = "Path does not exist";

/// Asks the file system whether anything stands at `path`, through
/// `std::path::Path::exists`. The answer depends on what is on disk when the
/// call is made, so nothing is claimed of it.
#[verifier::external_body]
pub(crate) fn path_exists(path: &str) -> bool {
    std::path::Path::new(path).exists()
}

/// Asks the file system whether a directory stands at `path`, through
/// `std::path::Path::is_dir`. The answer depends on what is on disk when the
/// call is made, so nothing is claimed of it.
#[verifier::external_body]
pub(crate) fn path_is_dir(path: &str) -> bool {
    std::path::Path::new(path).is_dir()
}

/// Accepts `path` as a root to serve from where the file system has said
/// that it exists and is a directory, and refuses it otherwise.
pub fn root_for(path: &str, exists: bool, is_dir: bool) -> (root: Result<String, &'static str>)
    ensures
        exists && is_dir ==> (root matches Ok(accepted) && accepted@ == path@),
        !(exists && is_dir) ==> (root matches Err(refusal) && refusal@ == PATH_ERROR@),
{
    if exists && is_dir {
        Ok(String::from_str(path))
    } else {
        Err(PATH_ERROR)
    }
}

/// Checks that `path` names an existing directory. Whether it does is for
/// the file system to say; whatever it says, an accepted path comes back
/// unchanged and a refusal carries the fixed message.
pub fn verify_path(path: &str) -> (root: Result<String, &'static str>)
    ensures
        root matches Ok(accepted) ==> accepted@ == path@,
        root matches Err(refusal) ==> refusal@ == PATH_ERROR@,
{
    let exists = path_exists(path);
    let is_dir = exists && path_is_dir(path);
    root_for(path, exists, is_dir)
}

} // verus!
