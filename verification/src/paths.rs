//! What the standard library's `std::path` says of a path written as text.
use vstd::prelude::*;

verus! {

/// The last component of the path `p`, as `Path::file_name` gives it.
pub uninterp spec fn path_file_name(p: Seq<char>) -> Option<Seq<char>>;

/// The path `p` without its last component, as `Path::parent` gives it.
pub uninterp spec fn path_parent(p: Seq<char>) -> Option<Seq<char>>;

/// `Path::file_name` on the path written as `path`.
///
/// Trusted: the result is `path_file_name` of the path; for a path given as UTF-8 text its
/// last component is UTF-8 text too, so the lossy conversion loses nothing.
#[verifier::external_body]
pub(crate) fn file_name(path: &str) -> (r: Option<String>)
    ensures
        (r is Some) == (path_file_name(path@) is Some),
        r is Some ==> r->0@ == path_file_name(path@)->0,
{
    match std::path::Path::new(path).file_name() {
        Some(n) => Some(n.to_string_lossy().into_owned()),
        None => None,
    }
}

/// `Path::parent` on the path written as `path`.
///
/// Trusted: the result is `path_parent` of the path; the parent of a path given as UTF-8
/// text is UTF-8 text too, so the lossy conversion loses nothing.
#[verifier::external_body]
pub(crate) fn parent(path: &str) -> (r: Option<String>)
    ensures
        (r is Some) == (path_parent(path@) is Some),
        r is Some ==> r->0@ == path_parent(path@)->0,
{
    match std::path::Path::new(path).parent() {
        Some(p) => Some(p.to_string_lossy().into_owned()),
        None => None,
    }
}

/// `Path::is_file` on the path written as `path`: whether a regular file stands there now.
///
/// Trusted: the empty path names nothing on disk, so no file stands there. Of any other
/// path nothing is promised: the answer depends on what is on disk at the time of the call.
#[verifier::external_body]
pub(crate) fn is_file(path: &str) -> (r: bool)
    ensures
        path@.len() == 0 ==> !r,
{
    std::path::Path::new(path).is_file()
}


/// The path of `name` inside the directory `dir`, as `Path::join` gives it on Unix: an
/// absolute `name` replaces the directory; otherwise a `/` goes between the two where the
/// directory is not empty and does not end with one.
pub open spec fn joined_path(dir: Seq<char>, name: Seq<char>) -> Seq<char> {
    if name.len() > 0 && name[0] == '/' {
        name
    } else if dir.len() > 0 && dir.last() != '/' {
        dir + seq!['/'] + name
    } else {
        dir + name
    }
}

/// `Path::join` of the paths written as `dir` and `name`.
///
/// Trusted: on Unix the result is `joined_path` of the two, as `PathBuf::push` builds it;
/// joining paths given as UTF-8 text gives UTF-8 text, so the lossy conversion loses nothing.
#[verifier::external_body]
pub(crate) fn join(dir: &str, name: &str) -> (r: String)
    ensures
        r@ == joined_path(dir@, name@),
{
    std::path::Path::new(dir).join(name).to_string_lossy().into_owned()
}

} // verus!
