//! The two fixed generators and the concrete protocols built on them.
use crate::equations::SymPoint;
use crate::group::{basepoint_encoding, point_from_encoding, ristretto_from_uniform, Point};
use vstd::prelude::*;

pub mod chaum;
pub mod okamoto;
pub mod schnorr;
pub mod zero;

verus! {

/// The 64 bytes `0, 1, ..., 63` that the generator `H` is hashed from.
pub open spec fn h_seed() -> Seq<u8> {
    Seq::new(64, |i: int| i as u8)
}

/// The base point, under its display name `G`.
pub open spec fn spec_g() -> SymPoint {
    SymPoint::WellKnownConst("G", point_from_encoding(basepoint_encoding()))
}

/// The independent generator, under its display name `H`.
pub open spec fn spec_h() -> SymPoint {
    SymPoint::WellKnownConst("H", point_from_encoding(ristretto_from_uniform(h_seed())))
}

/// The base point `G`.
pub fn base_g() -> (r: SymPoint)
    ensures
        r == spec_g(),
{
    SymPoint::WellKnownConst("G", Point::basepoint())
}

/// The generator `H`, hashed into the group from the bytes `0, 1, ..., 63`.
pub fn base_h() -> (r: SymPoint)
    ensures
        r == spec_h(),
{
    let mut seed = [0u8; 64];
    let mut i: usize = 0;
    while i < 64
        invariant
            0 <= i <= 64,
            seed@.len() == 64,
            forall|j: int| 0 <= j < i ==> seed@[j] == j as u8,
        decreases 64 - i,
    {
        seed[i] = i as u8;
        i = i + 1;
    }
    assert(seed@ =~= h_seed());
    SymPoint::WellKnownConst("H", Point::from_uniform_bytes(&seed))
}

} // verus!
