use vstd::prelude::*;

verus! {

/// Only the leaf scalar and this crate's witness records are witnesses.
pub trait Sealed {}

impl Sealed for crate::equations::SymScalar {}

} // verus!
