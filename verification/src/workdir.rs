//! The working directory as the operations take it from their caller.

use vstd::prelude::*;

verus! {

/// Why the working directory could not be had.
#[derive(Debug, Clone, Copy, PartialEq, Eq, Structural)]
pub enum CwdError {
    NotFound,
    PermissionDenied,
    Other,
}

/// The working directory as the operations read it.
#[derive(Debug)]
pub struct WorkingDir {
    /// The whole path.
    pub path: String,
    /// Its last segment, where it has one.
    pub name: Option<String>,
}

/// The mathematical value of a [`WorkingDir`].
pub ghost struct WorkingDirView {
    pub path: Seq<char>,
    pub name: Option<Seq<char>>,
}

impl View for WorkingDir {
    type V = WorkingDirView;

    open spec fn view(&self) -> WorkingDirView {
        WorkingDirView { path: self.path@, name: self.name.deep_view() }
    }
}

/// The view of the outcome of asking for the working directory.
pub open spec fn cwd_view(cwd: Result<WorkingDir, CwdError>) -> Result<WorkingDirView, CwdError> {
    match cwd {
        Ok(dir) => Ok(dir@),
        Err(kind) => Err(kind),
    }
}

/// The last segment of a path as the platform's paths have it: what
/// `std::path::Path::file_name` finds in the path.
pub uninterp spec fn last_segment_of(path: Seq<char>) -> Option<Seq<char>>;

/// `std::path::Path::file_name` on the path `path`, as text: the last segment
/// of the path, or nothing where the path has none, as where it ends in `..`
/// or is a root. It reads the path's text and nothing else, so the result is
/// named after the path; what a segment is the platform's rules for paths
/// say, and nothing more is stated of it here.
#[verifier::external_body]
fn last_segment(path: &str) -> (r: Option<String>)
    ensures
        r.deep_view() == last_segment_of(path@),
{
    match std::path::Path::new(path).file_name() {
        Some(name) => Some(name.to_string_lossy().into_owned()),
        None => None,
    }
}

impl WorkingDir {
    /// The working directory with the path `path`, named by the path's last
    /// segment where it has one.
    pub fn from_path(path: String) -> (r: Self)
        ensures
            r@ == (WorkingDirView { path: path@, name: last_segment_of(path@) }),
    {
        let name = last_segment(path.as_str());
        WorkingDir { path, name }
    }
}

} // verus!
