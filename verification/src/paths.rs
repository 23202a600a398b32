//! What the standard library's `Path` finds in a path given as text.
use vstd::prelude::*;

use crate::text::rfind;

verus! {

/// What `Path::file_name` returns for the path written as `path`: the final
/// component, or nothing when the path ends in `..` or has no component.
pub uninterp spec fn path_file_name(path: Seq<char>) -> Option<Seq<char>>;

/// `std::path::Path::file_name`, applied to a path given as text. The name
/// of a path given as UTF-8 is UTF-8, so converting it back never fails. The
/// contract ties the result to `path_file_name` of the argument and says
/// nothing more of it.
#[verifier::external_body]
pub(crate) fn file_name_of(path: &str) -> (r: Option<&str>)
    ensures
        r is Some <==> path_file_name(path@) is Some,
        r matches Some(name) ==> name@ == path_file_name(path@)->0,
{
    std::path::Path::new(path).file_name().and_then(|name| name.to_str())
}

/// The extension of the path written as `path`, as `Path::extension` is
/// documented to find it: nothing without a file name, nor where the name
/// has no `.` but a leading one; else the part of the name after its last
/// `.`.
pub open spec fn path_extension(path: Seq<char>) -> Option<Seq<char>> {
    match path_file_name(path) {
        None => None,
        Some(name) => match rfind(name, '.') {
            Some(i) => if i > 0 {
                Some(name.skip(i + 1))
            } else {
                None
            },
            None => None,
        },
    }
}

/// `std::path::Path::extension`, applied to a path given as text, with the
/// result that its documentation gives in terms of the file name.
#[verifier::external_body]
pub(crate) fn extension_of(path: &str) -> (r: Option<&str>)
    ensures
        r is Some <==> path_extension(path@) is Some,
        r matches Some(ext) ==> ext@ == path_extension(path@)->0,
{
    std::path::Path::new(path).extension().and_then(|ext| ext.to_str())
}

/// What `Path::file_stem` is documented to return for a path given as
/// text: nothing without a file name; the whole name where it has no `.`
/// but a leading one; else the part of the name before its last `.`.
pub open spec fn path_file_stem(path: Seq<char>) -> Option<Seq<char>> {
    match path_file_name(path) {
        None => None,
        Some(name) => match rfind(name, '.') {
            Some(i) => if i > 0 {
                Some(name.take(i))
            } else {
                Some(name)
            },
            None => Some(name),
        },
    }
}

/// `std::path::Path::file_stem`, for a path given as text, with the result
/// that its documentation gives in terms of the file name. The stem of a
/// path given as UTF-8 is UTF-8.
#[verifier::external_body]
pub(crate) fn file_stem_of(path: &str) -> (r: Option<&str>)
    ensures
        r is Some <==> path_file_stem(path@) is Some,
        r matches Some(stem) ==> stem@ == path_file_stem(path@)->0,
{
    std::path::Path::new(path).file_stem().and_then(|stem| stem.to_str())
}

} // verus!
