//! Small contracts for standard-library calls that vstd leaves unspecified.

use vstd::prelude::*;

verus! {

/// `<str as PartialEq>::eq`: two string slices are equal exactly when they
/// hold the same characters.
#[verifier::external_body]
pub(crate) fn str_eq(a: &str, b: &str) -> (r: bool)
    ensures
        r == (a@ == b@),
{
    a == b
}

/// `Vec::capacity`: the number of elements the vector can hold without
/// reallocating, which is never less than its length. Nothing more is claimed,
/// since the allocator decides the rest.
#[verifier::external_body]
pub(crate) fn vec_capacity<T>(v: &Vec<T>) -> (r: usize)
    ensures
        r >= v@.len(),
{
    v.capacity()
}

} // verus!

verus! {

/// Names what `Path::file_stem` gives for `path`, as text (empty when there
/// is none): the final component without its last extension. Which part of
/// the text that is follows the platform's path syntax, fixed for a build.
pub uninterp spec fn path_file_stem_of(path: Seq<char>) -> Seq<char>;

/// Names what `Path::file_name` gives for `path`, as text (empty when there
/// is none): the final component.
pub uninterp spec fn path_file_name_of(path: Seq<char>) -> Seq<char>;

/// `Path::file_stem` of `path`, as a string (empty when there is none).
/// Claimed: the result is what `path_file_stem_of` names, and a contiguous
/// part of the path.
#[verifier::external_body]
pub(crate) fn path_file_stem(path: &str) -> (r: String)
    ensures
        r@ == path_file_stem_of(path@),
        crate::audio::is_substring(r@, path@),
{
    std::path::Path::new(path).file_stem().unwrap_or_default().to_string_lossy().into_owned()
}

/// `Path::file_name` of `path`, as a string (empty when there is none).
/// Claimed: the result is what `path_file_name_of` names, and a contiguous
/// part of the path.
#[verifier::external_body]
pub(crate) fn path_file_name(path: &str) -> (r: String)
    ensures
        r@ == path_file_name_of(path@),
        crate::audio::is_substring(r@, path@),
{
    std::path::Path::new(path).file_name().unwrap_or_default().to_string_lossy().into_owned()
}

} // verus!

verus! {

/// `String::push`: appends the character `c` to the end of `s`.
#[verifier::external_body]
pub(crate) fn string_push(s: &mut String, c: char)
    ensures
        final(s)@ == old(s)@.push(c),
{
    s.push(c);
}

} // verus!
