//! Paths, held as text.  Joining follows `PathBuf::push` on Unix; the
//! component-wise questions (final component, prefix, equality) are asked of
//! `std::path::Path` itself.

use vstd::prelude::*;
use crate::text::push_char;

verus! {

/// `base` joined with `name`, as `PathBuf::push` does on Unix: an absolute
/// `name` replaces `base`; otherwise a `/` is inserted unless `base` is empty
/// or already ends with one.
pub open spec fn join_spec(base: Seq<char>, name: Seq<char>) -> Seq<char> {
    if name.len() > 0 && name[0] == '/' {
        name
    } else if base.len() == 0 || base.last() == '/' {
        base + name
    } else {
        base.push('/') + name
    }
}

/// Joins `name` onto `base` (`Path::join`).
pub fn join(base: &str, name: &str) -> (r: String)
    ensures
        r@ == join_spec(base@, name@),
{
    let ln: usize = name.unicode_len();
    if ln > 0 && name.get_char(0) == '/' {
        return String::from_str(name);
    }
    let lb: usize = base.unicode_len();
    let mut r = String::from_str(base);
    if lb > 0 && base.get_char(lb - 1) != '/' {
        push_char(&mut r, '/');
    }
    r.append(name);
    r
}

/// What `Path::file_name` returns for the path `p`: its final component,
/// unless that is `..` or there is none.
pub uninterp spec fn file_name_of(p: Seq<char>) -> Option<Seq<char>>;

/// Whether `Path::starts_with` holds: the components of `base` are the first
/// components of `p`.
pub uninterp spec fn starts_with_of(p: Seq<char>, base: Seq<char>) -> bool;

/// Whether `Path::eq` holds: the two paths have the same components.
pub uninterp spec fn same_path_of(a: Seq<char>, b: Seq<char>) -> bool;

/// The view of an optional text.
pub open spec fn opt_text(o: Option<String>) -> Option<Seq<char>> {
    match o {
        Some(s) => Some(s@),
        None => None,
    }
}

/// The final component of `p` (`Path::file_name`).  Its value is named by
/// `file_name_of`; since `p` is UTF-8, so is every component of it.
#[verifier::external_body]
pub(crate) fn file_name(p: &str) -> (r: Option<String>)
    ensures
        opt_text(r) == file_name_of(p@),
{
    match std::path::Path::new(p).file_name() {
        Some(n) => Some(n.to_string_lossy().into_owned()),
        None => None,
    }
}

/// Whether `base` is a component-wise prefix of `p` (`Path::starts_with`).
#[verifier::external_body]
pub(crate) fn path_starts_with(p: &str, base: &str) -> (r: bool)
    ensures
        r == starts_with_of(p@, base@),
{
    std::path::Path::new(p).starts_with(std::path::Path::new(base))
}

/// Whether two paths are equal (`Path::eq`).  Equality is reflexive (`Path`
/// implements `Eq`), so equal texts are equal paths.
#[verifier::external_body]
pub(crate) fn same_path(a: &str, b: &str) -> (r: bool)
    ensures
        r == same_path_of(a@, b@),
        a@ == b@ ==> r,
{
    std::path::Path::new(a) == std::path::Path::new(b)
}

} // verus!
