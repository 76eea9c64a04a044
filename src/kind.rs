use std::any::TypeId;
use vstd::prelude::*;

verus! {

/// The runtime identity of an event kind.
#[verifier::external_type_specification]
#[verifier::external_body]
pub struct ExTypeId(TypeId);

/// Relies on `<TypeId as PartialEq>::eq`: two type identities compare equal
/// exactly when they are the same identity.
#[verifier::external_body]
pub(crate) fn same_kind(a: &TypeId, b: &TypeId) -> (r: bool)
    ensures
        r == (*a == *b),
{
    *a == *b
}

} // verus!
