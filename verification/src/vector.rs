//! Points, directions and colours: triples of numbers.

use crate::scalar::Scalar;
use vstd::prelude::*;

verus! {

/// A direction or a displacement in space; also an RGB colour.
#[derive(Clone, Copy, Debug, PartialEq, Eq)]
pub struct Vector3 {
    pub x: Scalar,
    pub y: Scalar,
    pub z: Scalar,
}

/// A position in space.
#[derive(Clone, Copy, Debug, PartialEq, Eq)]
pub struct Point3 {
    pub x: Scalar,
    pub y: Scalar,
    pub z: Scalar,
}

impl Vector3 {
    /// The vector pointing the opposite way.
    pub open spec fn neg_spec(self) -> Vector3 {
        Vector3 { x: self.x.neg_spec(), y: self.y.neg_spec(), z: self.z.neg_spec() }
    }

    /// The vector with the given components.
    pub fn new(x: Scalar, y: Scalar, z: Scalar) -> (v: Vector3)
        ensures
            v == (Vector3 { x, y, z }),
    {
        Vector3 { x, y, z }
    }

    /// The vector with the given components, each by its bit pattern.
    pub fn from_bits(x: u64, y: u64, z: u64) -> (v: Vector3)
        ensures
            v.x.bits == x,
            v.y.bits == y,
            v.z.bits == z,
    {
        Vector3 { x: Scalar::from_bits(x), y: Scalar::from_bits(y), z: Scalar::from_bits(z) }
    }

    /// The vector pointing the opposite way: every component changes its sign,
    /// which is exact.
    pub fn neg(self) -> (opposite: Vector3)
        ensures
            opposite == self.neg_spec(),
    {
        Vector3 { x: self.x.neg(), y: self.y.neg(), z: self.z.neg() }
    }
}

impl Point3 {
    /// The point with the given coordinates.
    pub fn new(x: Scalar, y: Scalar, z: Scalar) -> (p: Point3)
        ensures
            p == (Point3 { x, y, z }),
    {
        Point3 { x, y, z }
    }

    /// The point with the given coordinates, each by its bit pattern.
    pub fn from_bits(x: u64, y: u64, z: u64) -> (p: Point3)
        ensures
            p.x.bits == x,
            p.y.bits == y,
            p.z.bits == z,
    {
        Point3 { x: Scalar::from_bits(x), y: Scalar::from_bits(y), z: Scalar::from_bits(z) }
    }
}

} // verus!
