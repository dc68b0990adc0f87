use vstd::prelude::*;

verus! {

/// The single fault of this library: an offset lies outside the text it
/// addresses, a range ends before it starts, or an offset falls inside the
/// encoding of a multi-byte character.
#[derive(Clone, Copy, Debug, PartialEq, Eq, Structural)]
pub struct BoundaryViolation;

} // verus!
