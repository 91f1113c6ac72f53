//! The decisions of the two intersection tests. The caller works out the
//! terms of a test; whether they amount to a hit is decided here.

use crate::scalar::{Scalar, ONE, ZERO};
use vstd::prelude::*;

verus! {

/// The pattern of 1e-7: a determinant nearer to zero means a ray parallel to
/// the triangle, a ray parameter below it a hit behind the origin or on it.
pub const EPSILON: u64 = 0x3E7A_D7F2_9ABC_AF48;

/// The pattern of -1e-7.
pub const NEG_EPSILON: u64 = 0xBE7A_D7F2_9ABC_AF48;

/// The terms of a Möller–Trumbore test of a ray against a triangle `a b c`,
/// with `edge1 = b - a`, `edge2 = c - a`, `pvec = direction × edge2`,
/// `tvec = origin - a` and `qvec = tvec × edge1`.
#[derive(Clone, Copy, Debug)]
pub struct TriangleTerms {
    /// `edge1 · pvec`
    pub det: Scalar,
    /// The first barycentric coordinate, `(pvec · tvec) / det`.
    pub u: Scalar,
    /// The second barycentric coordinate, `(direction · qvec) / det`.
    pub v: Scalar,
    /// `u + v`
    pub u_plus_v: Scalar,
    /// The ray parameter of the plane crossing, `(edge2 · qvec) / det`.
    pub t: Scalar,
}

impl TriangleTerms {
    /// The ray runs parallel to the triangle's plane, or nearly so.
    pub open spec fn parallel(self) -> bool {
        self.det.gt(Scalar { bits: NEG_EPSILON }) && self.det.lt(Scalar { bits: EPSILON })
    }

    /// The crossing lies outside the triangle.
    pub open spec fn outside(self) -> bool {
        ||| self.u.lt(Scalar { bits: ZERO })
        ||| self.u.gt(Scalar { bits: ONE })
        ||| self.v.lt(Scalar { bits: ZERO })
        ||| self.u_plus_v.gt(Scalar { bits: ONE })
    }

    /// The crossing lies behind the ray's origin, or too near to it.
    pub open spec fn behind(self) -> bool {
        self.t.lt(Scalar { bits: EPSILON })
    }

    /// The ray hits the triangle.
    pub open spec fn hits(self) -> bool {
        !self.parallel() && !self.outside() && !self.behind()
    }

    /// Decides whether the ray hits the triangle. A ray parallel to the
    /// triangle's plane never does, whatever the other terms are.
    pub fn is_hit(&self) -> (hit: bool)
        ensures
            hit == self.hits(),
            self.parallel() ==> !hit,
    {
        let zero = Scalar { bits: ZERO };
        let one = Scalar { bits: ONE };
        let epsilon = Scalar { bits: EPSILON };
        let neg_epsilon = Scalar { bits: NEG_EPSILON };
        if self.det.greater_than(&neg_epsilon) && self.det.less_than(&epsilon) {
            return false;
        }
        if self.u.less_than(&zero) || self.u.greater_than(&one) {
            return false;
        }
        if self.v.less_than(&zero) || self.u_plus_v.greater_than(&one) {
            return false;
        }
        !self.t.less_than(&epsilon)
    }
}

/// The terms of the test of a ray against a sphere, with `oc = origin -
/// center` and `a = oc - direction * (oc · direction)`.
#[derive(Clone, Copy, Debug)]
pub struct SphereTerms {
    /// `oc · direction`: positive when the ray leads away from the centre.
    pub approach: Scalar,
    /// `oc · oc`, the squared distance of the origin from the centre.
    pub origin_sq: Scalar,
    /// The squared radius.
    pub radius_sq: Scalar,
    /// `a · a`, the squared distance at which the ray's line passes the
    /// centre.
    pub passing_sq: Scalar,
}

impl SphereTerms {
    /// The ray leads away from the sphere.
    pub open spec fn receding(self) -> bool {
        self.approach.gt(Scalar { bits: ZERO })
    }

    /// The ray starts strictly inside the sphere.
    pub open spec fn inside(self) -> bool {
        self.origin_sq.lt(self.radius_sq)
    }

    /// The ray's line passes the sphere by.
    pub open spec fn passes_by(self) -> bool {
        self.passing_sq.gt(self.radius_sq)
    }

    /// The ray hits the sphere from outside.
    pub open spec fn hits(self) -> bool {
        !self.receding() && !self.inside() && !self.passes_by()
    }

    /// Decides whether the ray hits the sphere. A ray that starts strictly
    /// inside never does.
    pub fn is_hit(&self) -> (hit: bool)
        ensures
            hit == self.hits(),
            self.inside() ==> !hit,
    {
        let zero = Scalar { bits: ZERO };
        if self.approach.greater_than(&zero) || self.origin_sq.less_than(&self.radius_sq) {
            return false;
        }
        !self.passing_sq.greater_than(&self.radius_sq)
    }
}

} // verus!
