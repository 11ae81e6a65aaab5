//! Paths. What a text means as a path depends on the operating system. What is stated here holds
//! on all of them.

use vstd::prelude::*;

verus! {

/// Whether a path is relative everywhere: it starts with no separator and names no drive.
pub open spec fn is_plain(path: Seq<char>) -> bool {
    &&& path.len() > 0 ==> path[0] != '/' && path[0] != '\\'
    &&& !path.contains(':')
}

/// Whether a path is read alike everywhere: it has no backslash and no colon, and does not start
/// with two slashes.
pub open spec fn is_portable(path: Seq<char>) -> bool {
    &&& !path.contains('\\')
    &&& !path.contains(':')
    &&& !(path.len() > 1 && path[0] == '/' && path[1] == '/')
}

/// What stands between the slashes of a path, before the first and after the last.
pub open spec fn split_path(path: Seq<char>) -> Seq<Seq<char>>
    decreases path.len(),
{
    if path.len() == 0 {
        seq![Seq::empty()]
    } else {
        let before = split_path(path.drop_last());
        if path.last() == '/' {
            before.push(Seq::empty())
        } else {
            before.drop_last().push(before.last().push(path.last()))
        }
    }
}

/// Whether a path starts with a slash.
pub open spec fn is_rooted(path: Seq<char>) -> bool {
    path.len() > 0 && path[0] == '/'
}

/// The parts that count: none that is empty, and none that is `.`, unless it is the first of a
/// path that does not start with a slash.
pub open spec fn parts_that_count(parts: Seq<Seq<char>>, rooted: bool) -> Seq<Seq<char>>
    decreases parts.len(),
{
    if parts.len() == 0 {
        Seq::empty()
    } else {
        let before = parts_that_count(parts.drop_last(), rooted);
        let part = parts.last();
        if part.len() == 0 || part == seq!['.'] && (rooted || parts.len() > 1) {
            before
        } else {
            before.push(part)
        }
    }
}

/// Whether two portable paths are the same: both start with a slash or neither does, and the
/// parts that count agree.
pub open spec fn same_parts(a: Seq<char>, b: Seq<char>) -> bool {
    &&& is_rooted(a) == is_rooted(b)
    &&& parts_that_count(split_path(a), is_rooted(a)) == parts_that_count(
        split_path(b),
        is_rooted(b),
    )
}

/// Whether `whole` can be what `path` is when it is seen from `base`. It ends with `path`. Where
/// `path` is relative everywhere, `base` stands before it, with one separator between the two
/// where `base` does not end in one; of a base that names a drive it is left open whether there
/// is one. A path that starts with a slash is `whole`, unless `base` may have a drive or a server
/// before its root. Of a base that starts with a backslash nothing is said.
pub open spec fn is_join(base: Seq<char>, path: Seq<char>, whole: Seq<char>) -> bool {
    base.len() > 0 && base[0] == '\\' || {
        &&& path.is_suffix_of(whole)
        &&& is_plain(path) ==> if base.len() == 0 || base.last() == '/' {
            whole == base + path
        } else if base.last() == '\\' || base.contains(':') {
            ||| whole == base + path
            ||| whole == base.push('/') + path
            ||| whole == base.push('\\') + path
        } else {
            ||| whole == base.push('/') + path
            ||| whole == base.push('\\') + path
        }
        &&& is_rooted(path) && !base.contains(':') && !(base.len() > 1 && base[0] == '/' && (
        base[1] == '/' || base[1] == '\\')) ==> whole == path
    }
}

/// `std::path::Path::join`: `path` itself where it is absolute, else `path` adjoined to `base`
/// with a separator. Which separator that is, and what a drive or a server in `base` does to it,
/// depends on the operating system and is not stated.
#[verifier::external_body]
pub(crate) fn join_path(base: &str, path: &str) -> (r: String)
    ensures
        is_join(base@, path@, r@),
{
    std::path::Path::new(base).join(path).to_string_lossy().into_owned()
}

/// `std::path::Path::is_absolute`: an absolute path starts with a separator or with a drive. Which
/// of those are absolute depends on the operating system and is not stated.
#[verifier::external_body]
pub(crate) fn is_absolute(path: &str) -> (r: bool)
    ensures
        r ==> !is_plain(path@),
{
    std::path::Path::new(path).is_absolute()
}

/// `Path`'s `==`: whether the two have the same parts. The same text has. Of portable paths it is
/// stated which do: repeated slashes, a slash at the end and parts `.` make no difference. Which
/// other texts have the same parts depends on the operating system and is not stated.
#[verifier::external_body]
pub(crate) fn same_path(a: &str, b: &str) -> (r: bool)
    ensures
        a@ == b@ ==> r,
        is_portable(a@) && is_portable(b@) ==> r == same_parts(a@, b@),
{
    std::path::Path::new(a) == std::path::Path::new(b)
}

} // verus!
