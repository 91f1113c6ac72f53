//! Points, directions and orientations.

use crate::scalar::{Scalar, ZERO};
use vstd::prelude::*;

verus! {

/// A point or a direction in space.
#[derive(Clone, Copy, Debug)]
pub struct Vec3 {
    pub x: Scalar,
    pub y: Scalar,
    pub z: Scalar,
}

impl Vec3 {
    /// A vector of this squared length has a direction: the squared length
    /// is a number above zero.
    pub open spec fn has_direction(len_squared: Scalar) -> bool {
        len_squared.gt(Scalar { bits: ZERO })
    }

    /// Tells whether a vector of the given squared length can be brought to
    /// length 1. One of squared length zero cannot, and is to be left as it
    /// is.
    pub fn normalizable(len_squared: &Scalar) -> (r: bool)
        ensures
            r == Vec3::has_direction(*len_squared),
            len_squared.magnitude() == 0 ==> !r,
    {
        len_squared.greater_than(&Scalar { bits: ZERO })
    }
}

/// An orientation as Euler angles, in radians.
#[derive(Clone, Copy, Debug)]
pub struct Rot3 {
    pub yaw: Scalar,
    pub pitch: Scalar,
    pub roll: Scalar,
}

impl Rot3 {
    /// The orientation that turns nothing: all three angles are 0.0.
    pub open spec fn unturned() -> Rot3 {
        Rot3 { yaw: Scalar { bits: ZERO }, pitch: Scalar { bits: ZERO }, roll: Scalar { bits: ZERO } }
    }

    /// The orientation that turns nothing.
    #[verifier::when_used_as_spec(unturned)]
    pub fn new() -> (rot: Self)
        ensures
            rot == Rot3::unturned(),
    {
        Rot3 { yaw: Scalar { bits: ZERO }, pitch: Scalar { bits: ZERO }, roll: Scalar { bits: ZERO } }
    }
}

} // verus!
