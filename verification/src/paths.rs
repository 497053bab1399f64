//! Path arithmetic on text.
//!
//! The library holds every path as a `String` and leaves path composition to
//! `std::path`, on a Unix target: the functions below hand their arguments to
//! it. What joining gives is stated; what the other operations give is named.

use std::path::{Path, PathBuf};
use vstd::prelude::*;

verus! {

/// The path that `PathBuf::push` makes of `base` and `rel` on a Unix target:
/// `rel` alone where `rel` is absolute, which is to say begins with `/`;
/// otherwise `rel` behind `base`, with a `/` between them unless `base` is
/// empty or ends in one.
pub open spec fn joined(base: Seq<char>, rel: Seq<char>) -> Seq<char> {
    if rel.len() > 0 && rel[0] == '/' {
        rel
    } else if base.len() == 0 || base.last() == '/' {
        base + rel
    } else {
        base + seq!['/'] + rel
    }
}

/// Whether `Path::starts_with` accepts `base` as a prefix of `path`, matching
/// whole components only.
pub uninterp spec fn has_prefix(path: Seq<char>, base: Seq<char>) -> bool;

/// What `Path::strip_prefix` leaves of `path` once `base` is taken off its
/// front, if `base` is a prefix of it.
pub uninterp spec fn without_prefix(path: Seq<char>, base: Seq<char>) -> Option<Seq<char>>;

/// The final component of `path`, as `Path::file_name` gives it: none where
/// `path` ends in `..` or holds no component at all.
pub uninterp spec fn final_component(path: Seq<char>) -> Option<Seq<char>>;

/// `path` with its root taken off, or `path` itself where it has none.
pub open spec fn unrooted(path: Seq<char>) -> Seq<char> {
    match without_prefix(path, "/"@) {
        Some(rest) => rest,
        None => path,
    }
}

/// `PathBuf::push`: starts a buffer with `base`, pushes `rel`, and returns the
/// buffer's text. Trusted to equal `joined`.
#[verifier::external_body]
pub(crate) fn join(base: &str, rel: &str) -> (out: String)
    ensures
        out@ == joined(base@, rel@),
{
    let mut buf = PathBuf::from(base);
    buf.push(rel);
    buf.to_string_lossy().into_owned()
}

/// `Path::starts_with`. Trusted to equal `has_prefix`.
#[verifier::external_body]
pub(crate) fn is_under(path: &str, base: &str) -> (r: bool)
    ensures
        r == has_prefix(path@, base@),
{
    Path::new(path).starts_with(base)
}

/// `Path::strip_prefix`, its error mapped to `None`. Trusted to equal
/// `without_prefix`.
#[verifier::external_body]
pub(crate) fn strip_prefix(path: &str, base: &str) -> (out: Option<String>)
    ensures
        match out {
            Some(rest) => without_prefix(path@, base@) == Some(rest@),
            None => without_prefix(path@, base@) is None,
        },
{
    match Path::new(path).strip_prefix(base) {
        Ok(rest) => Some(rest.to_string_lossy().into_owned()),
        Err(_) => None,
    }
}

/// `Path::file_name`. Trusted to equal `final_component`.
#[verifier::external_body]
pub(crate) fn file_name(path: &str) -> (out: Option<String>)
    ensures
        match out {
            Some(name) => final_component(path@) == Some(name@),
            None => final_component(path@) is None,
        },
{
    match Path::new(path).file_name() {
        Some(name) => Some(name.to_string_lossy().into_owned()),
        None => None,
    }
}

/// `path` made relative to the root.
pub fn strip_root(path: &str) -> (out: String)
    ensures
        out@ == unrooted(path@),
{
    match strip_prefix(path, "/") {
        Some(rest) => rest,
        None => path.to_owned(),
    }
}

} // verus!
