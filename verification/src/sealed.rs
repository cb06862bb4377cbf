use vstd::prelude::*;

verus! {

/// Marker for the types of this crate that translate to the command line
/// language; no type outside the crate can carry it.
pub trait Sealed {
}

} // verus!
