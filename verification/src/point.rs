//! Positions in space.

use crate::fixed::Fixed;
use crate::vector::Vector3;
use core::ops::Neg;
use vstd::prelude::*;

verus! {

/// A position. The difference of two positions is a [`Vector3`]; a position
/// moved by a vector is a position.
#[derive(Clone, Copy, Debug, PartialEq, Eq, Structural)]
pub struct Point {
    pub x: Fixed,
    pub y: Fixed,
    pub z: Fixed,
}

impl Point {
    /// The position whose coordinates are all zero.
    pub open spec fn spec_origin() -> Point {
        Point { x: Fixed::whole(0), y: Fixed::whole(0), z: Fixed::whole(0) }
    }

    /// The vector from the origin to this position.
    pub open spec fn position(self) -> Vector3 {
        Vector3 { x: self.x, y: self.y, z: self.z }
    }

    /// The coordinates summed, one by one.
    pub open spec fn plus(self, other: Point) -> Point {
        Point { x: self.x.plus(other.x), y: self.y.plus(other.y), z: self.z.plus(other.z) }
    }

    /// This position moved by `v`.
    pub open spec fn moved(self, v: Vector3) -> Point {
        Point { x: self.x.plus(v.x), y: self.y.plus(v.y), z: self.z.plus(v.z) }
    }

    /// This position moved by the opposite of `v`.
    pub open spec fn moved_back(self, v: Vector3) -> Point {
        Point { x: self.x.minus(v.x), y: self.y.minus(v.y), z: self.z.minus(v.z) }
    }

    /// The vector that leads from `other` to this position.
    pub open spec fn minus(self, other: Point) -> Vector3 {
        Vector3 { x: self.x.minus(other.x), y: self.y.minus(other.y), z: self.z.minus(other.z) }
    }

    /// Each coordinate multiplied by `k`.
    pub open spec fn times(self, k: Fixed) -> Point {
        Point { x: self.x.times(k), y: self.y.times(k), z: self.z.times(k) }
    }

    /// The position opposite with respect to the origin.
    pub open spec fn negated(self) -> Point {
        Point { x: self.x.negated(), y: self.y.negated(), z: self.z.negated() }
    }

    #[verifier::when_used_as_spec(spec_origin)]
    pub fn origin() -> (r: Point)
        ensures
            r == Point::spec_origin(),
    {
        Point { x: Fixed::zero(), y: Fixed::zero(), z: Fixed::zero() }
    }
}

impl Default for Point {
    fn default() -> (r: Point)
        ensures
            r == Point::origin(),
    {
        Point::origin()
    }
}

impl core::ops::Add for Point {
    type Output = Point;

    fn add(self, other: Point) -> (r: Point) {
        Point { x: self.x + other.x, y: self.y + other.y, z: self.z + other.z }
    }
}

impl vstd::std_specs::ops::AddSpecImpl for Point {
    open spec fn obeys_add_spec() -> bool {
        true
    }

    open spec fn add_req(self, other: Point) -> bool {
        true
    }

    open spec fn add_spec(self, other: Point) -> Point {
        self.plus(other)
    }
}

impl core::ops::Add<Vector3> for Point {
    type Output = Point;

    fn add(self, other: Vector3) -> (r: Point) {
        Point { x: self.x + other.x, y: self.y + other.y, z: self.z + other.z }
    }
}

impl vstd::std_specs::ops::AddSpecImpl<Vector3> for Point {
    open spec fn obeys_add_spec() -> bool {
        true
    }

    open spec fn add_req(self, other: Vector3) -> bool {
        true
    }

    open spec fn add_spec(self, other: Vector3) -> Point {
        self.moved(other)
    }
}

impl core::ops::Sub for Point {
    type Output = Vector3;

    fn sub(self, other: Point) -> (r: Vector3) {
        Vector3 { x: self.x - other.x, y: self.y - other.y, z: self.z - other.z }
    }
}

impl vstd::std_specs::ops::SubSpecImpl for Point {
    open spec fn obeys_sub_spec() -> bool {
        true
    }

    open spec fn sub_req(self, other: Point) -> bool {
        true
    }

    open spec fn sub_spec(self, other: Point) -> Vector3 {
        self.minus(other)
    }
}

impl core::ops::Sub<Vector3> for Point {
    type Output = Point;

    fn sub(self, other: Vector3) -> (r: Point) {
        Point { x: self.x - other.x, y: self.y - other.y, z: self.z - other.z }
    }
}

impl vstd::std_specs::ops::SubSpecImpl<Vector3> for Point {
    open spec fn obeys_sub_spec() -> bool {
        true
    }

    open spec fn sub_req(self, other: Vector3) -> bool {
        true
    }

    open spec fn sub_spec(self, other: Vector3) -> Point {
        self.moved_back(other)
    }
}

impl core::ops::Mul<Fixed> for Point {
    type Output = Point;

    fn mul(self, other: Fixed) -> (r: Point) {
        Point { x: self.x * other, y: self.y * other, z: self.z * other }
    }
}

impl vstd::std_specs::ops::MulSpecImpl<Fixed> for Point {
    open spec fn obeys_mul_spec() -> bool {
        true
    }

    open spec fn mul_req(self, other: Fixed) -> bool {
        true
    }

    open spec fn mul_spec(self, other: Fixed) -> Point {
        self.times(other)
    }
}

impl core::ops::Mul<Point> for Fixed {
    type Output = Point;

    fn mul(self, other: Point) -> (r: Point) {
        other * self
    }
}

impl vstd::std_specs::ops::MulSpecImpl<Point> for Fixed {
    open spec fn obeys_mul_spec() -> bool {
        true
    }

    open spec fn mul_req(self, other: Point) -> bool {
        true
    }

    open spec fn mul_spec(self, other: Point) -> Point {
        other.times(self)
    }
}

impl core::ops::Neg for Point {
    type Output = Point;

    fn neg(self) -> (r: Point) {
        Point { x: self.x.neg(), y: self.y.neg(), z: self.z.neg() }
    }
}

impl vstd::std_specs::ops::NegSpecImpl for Point {
    open spec fn obeys_neg_spec() -> bool {
        true
    }

    open spec fn neg_req(self) -> bool {
        true
    }

    open spec fn neg_spec(self) -> Point {
        self.negated()
    }
}

} // verus!
