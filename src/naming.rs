//! Case conversion of identifiers taken from service definitions.
use convert_case::{Case, Casing};
use vstd::prelude::*;

verus! {

/// The lower snake-case form that convert_case gives an identifier.
pub uninterp spec fn snake_of(s: Seq<char>) -> Seq<char>;

/// Relies on convert_case's `Casing::to_case` with `Case::Snake`: a pure
/// function of the characters of `s`, so the same name always maps to the
/// same method or module name.
#[verifier::external_body]
pub(crate) fn to_snake(s: &str) -> (r: String)
    ensures
        r@ == snake_of(s@),
{
    s.to_case(Case::Snake)
}

} // verus!
