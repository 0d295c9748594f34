use vstd::prelude::*;

verus! {

/// Only the leaf scalar and point and this crate's instance records are instances.
pub trait Sealed {}

impl Sealed for crate::equations::SymScalar {}

impl Sealed for crate::equations::SymPoint {}

} // verus!
