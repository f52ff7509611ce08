//! Triples of scalars.
use vstd::prelude::*;
use crate::scalar::{magnitude, negated, Scalar, EPSILON, ONE, ZERO};

verus! {

/// A point or a direction: its three coordinates, each held as a scalar.
#[derive(Clone, Copy, Debug, PartialEq, Eq, Structural)]
pub struct Vec3(pub Scalar, pub Scalar, pub Scalar);

impl Vec3 {
    /// The coordinate on axis `n`.
    pub open spec fn coordinate(self, n: int) -> Scalar {
        if n == 0 {
            self.0
        } else if n == 1 {
            self.1
        } else {
            self.2
        }
    }

    /// The opposite direction.
    pub open spec fn reversed(self) -> Vec3 {
        Vec3(negated(self.0), negated(self.1), negated(self.2))
    }

    /// The triple with the coordinate on axis `n` replaced by `value`.
    pub open spec fn with_coordinate(self, n: int, value: Scalar) -> Vec3 {
        if n == 0 {
            Vec3(value, self.1, self.2)
        } else if n == 1 {
            Vec3(self.0, value, self.2)
        } else {
            Vec3(self.0, self.1, value)
        }
    }

    /// Whether every coordinate is zero within the tolerance.
    pub open spec fn negligible(self) -> bool {
        &&& magnitude(self.0) <= EPSILON
        &&& magnitude(self.1) <= EPSILON
        &&& magnitude(self.2) <= EPSILON
    }

    /// The origin.
    pub fn zero() -> (r: Vec3)
        ensures
            r == Vec3(ZERO, ZERO, ZERO),
    {
        Vec3(ZERO, ZERO, ZERO)
    }

    /// The triple of ones.
    pub fn unit() -> (r: Vec3)
        ensures
            r == Vec3(ONE, ONE, ONE),
    {
        Vec3(ONE, ONE, ONE)
    }

    /// The direction of the first axis.
    pub fn right() -> (r: Vec3)
        ensures
            r == Vec3(ONE, ZERO, ZERO),
    {
        Vec3(ONE, ZERO, ZERO)
    }

    /// The direction of the second axis.
    pub fn up() -> (r: Vec3)
        ensures
            r == Vec3(ZERO, ONE, ZERO),
    {
        Vec3(ZERO, ONE, ZERO)
    }

    /// The direction against the third axis.
    pub fn forward() -> (r: Vec3)
        ensures
            r == Vec3(ZERO, ZERO, negated(ONE)),
    {
        Vec3(ZERO, ZERO, crate::scalar::negate(ONE))
    }

    /// Replaces the coordinate on axis `n`: 0, 1 or 2.
    pub fn set_axis(&mut self, n: u32, value: Scalar)
        requires
            n < 3,
        ensures
            *final(self) == old(self).with_coordinate(n as int, value),
    {
        if n == 0 {
            self.0 = value;
        } else if n == 1 {
            self.1 = value;
        } else {
            self.2 = value;
        }
    }

    /// The part along the first axis.
    pub fn x(&self) -> (r: Vec3)
        ensures
            r == Vec3(self.0, ZERO, ZERO),
    {
        Vec3(self.0, ZERO, ZERO)
    }

    /// The part along the second axis.
    pub fn y(&self) -> (r: Vec3)
        ensures
            r == Vec3(ZERO, self.1, ZERO),
    {
        Vec3(ZERO, self.1, ZERO)
    }

    /// The part along the third axis.
    pub fn z(&self) -> (r: Vec3)
        ensures
            r == Vec3(ZERO, ZERO, self.2),
    {
        Vec3(ZERO, ZERO, self.2)
    }

    /// The part in the plane of the first and second axes.
    pub fn xy(&self) -> (r: Vec3)
        ensures
            r == Vec3(self.0, self.1, ZERO),
    {
        Vec3(self.0, self.1, ZERO)
    }

    /// The part in the plane of the first and third axes.
    pub fn xz(&self) -> (r: Vec3)
        ensures
            r == Vec3(self.0, ZERO, self.2),
    {
        Vec3(self.0, ZERO, self.2)
    }

    /// The part in the plane of the second and third axes.
    pub fn yz(&self) -> (r: Vec3)
        ensures
            r == Vec3(ZERO, self.1, self.2),
    {
        Vec3(ZERO, self.1, self.2)
    }

    /// Whether every coordinate is zero within the tolerance.
    pub fn near_zero(&self) -> (r: bool)
        ensures
            r == self.negligible(),
    {
        crate::scalar::abs(self.0) <= EPSILON && crate::scalar::abs(self.1) <= EPSILON
            && crate::scalar::abs(self.2) <= EPSILON
    }

    /// The opposite direction: each coordinate negated.
    pub fn negate(&self) -> (r: Vec3)
        ensures
            r == self.reversed(),
    {
        Vec3(
            crate::scalar::negate(self.0),
            crate::scalar::negate(self.1),
            crate::scalar::negate(self.2),
        )
    }

    /// The coordinate on axis `n`: 0, 1 or 2.
    pub fn axis(&self, n: u32) -> (r: Scalar)
        requires
            n < 3,
        ensures
            r == self.coordinate(n as int),
    {
        if n == 0 {
            self.0
        } else if n == 1 {
            self.1
        } else {
            self.2
        }
    }
}

impl Default for Vec3 {
    /// The origin.
    fn default() -> (r: Vec3)
        ensures
            r == Vec3(ZERO, ZERO, ZERO),
    {
        Vec3(ZERO, ZERO, ZERO)
    }
}

} // verus!
