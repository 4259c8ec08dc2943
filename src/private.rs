use vstd::prelude::*;

verus! {

/// Membership in the closed set of byte orders. The module that holds it is
/// private, so no type outside this crate can implement it.
pub trait Sealed {}

impl Sealed for crate::endian::BigEndian {}

impl Sealed for crate::endian::LittleEndian {}

} // verus!
