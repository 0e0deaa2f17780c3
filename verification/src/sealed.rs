//! The sealing trait: only the display kinds and column carriers of this
//! crate implement it.
use vstd::prelude::*;

verus! {

/// Marker implemented by the types this crate lets into its sealed traits.
pub trait Sealed {}

} // verus!
