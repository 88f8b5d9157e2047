//! The path operations the supervisor relies on.

use vstd::prelude::*;
use std::path::Path;

verus! {

/// Whether `base` is a prefix of `path`, compared component by component as
/// `std::path::Path::starts_with` does.
pub uninterp spec fn path_starts_with(path: Seq<char>, base: Seq<char>) -> bool;

/// The display form that `dunce::simplified` gives a path.
pub uninterp spec fn simplified_of(path: Seq<char>) -> Seq<char>;

/// Relies on `std::path::Path::starts_with`: whether `base` is a prefix of
/// `path` by whole components; the answer depends on the two strings alone.
#[verifier::external_body]
pub(crate) fn starts_with(path: &String, base: &String) -> (r: bool)
    ensures
        r == path_starts_with(path@, base@),
{
    Path::new(path.as_str()).starts_with(Path::new(base.as_str()))
}

/// Relies on `dunce::simplified`: the cosmetic form of a path, which depends
/// on the path alone (it strips a verbatim prefix where that is safe).
#[verifier::external_body]
pub(crate) fn simplified(path: &String) -> (r: String)
    ensures
        r@ == simplified_of(path@),
{
    dunce::simplified(Path::new(path.as_str())).to_string_lossy().into_owned()
}

} // verus!
