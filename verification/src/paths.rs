//! Paths that begin with a tilde.

use vstd::prelude::*;

verus! {

/// The tilde at the start of `path` can stand for the home directory: nothing
/// follows it, or a separator does.
pub open spec fn tilde_path(path: Seq<char>) -> bool {
    path.len() > 0 && path[0] == '~' && (path.len() == 1 || path[1] == '/' || path[1] == '\\')
}

/// The path with the home directory, where there is one, in place of the tilde that
/// it begins with.
pub open spec fn with_home(path: Seq<char>, home: Option<Seq<char>>) -> Seq<char> {
    match home {
        Some(h) => if tilde_path(path) {
            h + path.skip(1)
        } else {
            path
        },
        None => path,
    }
}

/// `expanded` is `path` with the home directory, where there is one, in place of the
/// tilde that it begins with. On some systems a backslash is no separator, and a path
/// with one after the tilde stays as it is.
pub open spec fn expansion(
    path: Seq<char>,
    home: Option<Seq<char>>,
    expanded: Seq<char>,
) -> bool {
    expanded == with_home(path, home) || (expanded == path && path.len() > 1 && path[1] == '\\')
}

/// `expanded` is `path` expanded with some home directory, or with none.
pub open spec fn some_expansion(path: Seq<char>, expanded: Seq<char>) -> bool {
    exists|home: Option<Seq<char>>| #[trigger] expansion(path, home, expanded)
}

/// Calls `shellexpand::tilde`, which puts the home directory in place of a tilde
/// at the start of `path` where nothing or a separator follows it, and otherwise
/// gives `path` back. Which directory that is, and whether there is one, depends on
/// the environment and is left open.
#[verifier::external_body]
fn tilde(path: &str) -> (r: String)
    ensures
        some_expansion(path@, r@),
{
    shellexpand::tilde(path).into_owned()
}

/// Calls `shellexpand::tilde_with_context`, which does the same with a home directory
/// that is given.
#[verifier::external_body]
fn tilde_with(path: &str, home: Option<&str>) -> (r: String)
    ensures
        expansion(
            path@,
            match home {
                Some(h) => Some(h@),
                None => None,
            },
            r@,
        ),
{
    shellexpand::tilde_with_context(path, || home).into_owned()
}

/// The path with the home directory in place of the tilde that it begins with.
pub fn expand_path(path: &str) -> (r: String)
    ensures
        some_expansion(path@, r@),
        !tilde_path(path@) ==> r@ == path@,
{
    tilde(path)
}

/// The path with `home`, where there is one, in place of the tilde that it begins
/// with.
pub fn expand_path_with(path: &str, home: Option<&str>) -> (r: String)
    ensures
        expansion(
            path@,
            match home {
                Some(h) => Some(h@),
                None => None,
            },
            r@,
        ),
        !tilde_path(path@) || home is None ==> r@ == path@,
{
    tilde_with(path, home)
}

} // verus!
