//! Paths as text. What a path means is left to the path library of the
//! platform: its answers are taken as they come.

use vstd::prelude::*;
use vstd::string::*;

verus! {

/// `std::path::Path::is_absolute` on a path given as text.
#[verifier::external_body]
pub(crate) fn path_is_absolute(path: &str) -> (r: bool) {
    std::path::Path::new(path).is_absolute()
}

/// `std::path::Path::strip_prefix` on paths given as text: what is left of
/// `path` below `base`, or nothing where `path` does not lie below it.
#[verifier::external_body]
pub(crate) fn path_strip_prefix(path: &str, base: &str) -> (r: Option<String>) {
    std::path::Path::new(path).strip_prefix(base).ok().map(
        |rest| rest.to_string_lossy().into_owned(),
    )
}

/// `std::path::Path::join` on paths given as text.
#[verifier::external_body]
pub(crate) fn path_join(base: &str, child: &str) -> (r: String) {
    std::path::Path::new(base).join(child).to_string_lossy().into_owned()
}

/// `std::path::Path::file_name` on a path given as text: its last
/// component, if it ends in one.
#[verifier::external_body]
pub(crate) fn path_file_name(path: &str) -> (r: Option<String>) {
    std::path::Path::new(path).file_name().map(|name| name.to_string_lossy().into_owned())
}

/// The path that a request means, from what the path library says of it:
/// an absolute path is taken relative to the repository root where it lies
/// below it; any other path stands as it is.
pub fn normalized_path(path: &str, is_absolute: bool, below_root: Option<String>) -> (r: String)
    ensures
        r@ == match below_root {
            Some(rest) => if is_absolute {
                rest@
            } else {
                path@
            },
            None => path@,
        },
{
    if is_absolute {
        match below_root {
            Some(rest) => rest,
            None => String::from_str(path),
        }
    } else {
        String::from_str(path)
    }
}

/// The repository's own directory, from the path that `git` printed and
/// from what the path library says of it: the printed path where it is
/// absolute, and the printed path taken from the root of the working tree
/// where it is not.
pub open spec fn git_dir_text(printed: Seq<char>, is_absolute: bool, from_root: Seq<char>) -> Seq<
    char,
> {
    if is_absolute {
        printed
    } else {
        from_root
    }
}

/// The repository's own directory, from the path that was printed,
/// whether the path library finds it absolute, and the path that the
/// path library joins from the root and the printed path.
pub fn git_dir_from(printed: String, is_absolute: bool, from_root: String) -> (dir: String)
    ensures
        dir@ == git_dir_text(printed@, is_absolute, from_root@),
{
    if is_absolute {
        printed
    } else {
        from_root
    }
}

/// The path of a file as the repository knows it: relative to `root`
/// where the path library finds it absolute and below `root`.
pub(crate) fn path_below_root(path: &str, root: &str) -> (r: String) {
    let is_absolute = path_is_absolute(path);
    let below_root = if is_absolute {
        path_strip_prefix(path, root)
    } else {
        None
    };
    normalized_path(path, is_absolute, below_root)
}

} // verus!
