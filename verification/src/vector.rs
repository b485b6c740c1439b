//! Two-component vectors over [`Fixed`].

use crate::fixed::Fixed;
use vstd::prelude::*;

verus! {

/// A point or a displacement in the plane.
#[derive(Clone, Copy, Debug, PartialEq, Eq, Structural)]
pub struct Vector2D {
    pub x: Fixed,
    pub y: Fixed,
}

impl Vector2D {
    pub open spec fn spec_zero() -> Vector2D {
        Vector2D { x: Fixed::spec_zero(), y: Fixed::spec_zero() }
    }

    pub open spec fn spec_add(self, rhs: Vector2D) -> Vector2D {
        Vector2D { x: self.x.spec_add(rhs.x), y: self.y.spec_add(rhs.y) }
    }

    pub open spec fn spec_sub(self, rhs: Vector2D) -> Vector2D {
        Vector2D { x: self.x.spec_sub(rhs.x), y: self.y.spec_sub(rhs.y) }
    }

    /// Both components multiplied by `k`.
    pub open spec fn spec_scale(self, k: Fixed) -> Vector2D {
        Vector2D { x: self.x.spec_mul(k), y: self.y.spec_mul(k) }
    }

    /// Both components divided by `k`; meaningful for `k` other than zero.
    pub open spec fn spec_shrink(self, k: Fixed) -> Vector2D {
        Vector2D { x: self.x.spec_div(k), y: self.y.spec_div(k) }
    }

    /// Component-wise product.
    pub open spec fn spec_hadamard(self, rhs: Vector2D) -> Vector2D {
        Vector2D { x: self.x.spec_mul(rhs.x), y: self.y.spec_mul(rhs.y) }
    }

    pub open spec fn spec_dot(self, rhs: Vector2D) -> Fixed {
        self.x.spec_mul(rhs.x).spec_add(self.y.spec_mul(rhs.y))
    }

    pub open spec fn spec_abs(self) -> Vector2D {
        Vector2D { x: self.x.spec_abs(), y: self.y.spec_abs() }
    }

    pub fn new(x: Fixed, y: Fixed) -> (r: Vector2D)
        ensures
            r.x == x,
            r.y == y,
    {
        Vector2D { x, y }
    }

    pub fn zero() -> (r: Vector2D)
        ensures
            r == Vector2D::spec_zero(),
    {
        Vector2D { x: Fixed::zero(), y: Fixed::zero() }
    }

    pub fn add(self, rhs: Vector2D) -> (r: Vector2D)
        ensures
            r == self.spec_add(rhs),
    {
        Vector2D { x: self.x.add(rhs.x), y: self.y.add(rhs.y) }
    }

    pub fn sub(self, rhs: Vector2D) -> (r: Vector2D)
        ensures
            r == self.spec_sub(rhs),
    {
        Vector2D { x: self.x.sub(rhs.x), y: self.y.sub(rhs.y) }
    }

    pub fn scale(self, k: Fixed) -> (r: Vector2D)
        ensures
            r == self.spec_scale(k),
    {
        Vector2D { x: self.x.mul(k), y: self.y.mul(k) }
    }

    pub fn shrink(self, k: Fixed) -> (r: Vector2D)
        requires
            k@ != 0,
        ensures
            r == self.spec_shrink(k),
    {
        Vector2D { x: self.x.div(k), y: self.y.div(k) }
    }

    pub fn hadamard(self, rhs: Vector2D) -> (r: Vector2D)
        ensures
            r == self.spec_hadamard(rhs),
    {
        Vector2D { x: self.x.mul(rhs.x), y: self.y.mul(rhs.y) }
    }

    pub fn dot(self, rhs: Vector2D) -> (r: Fixed)
        ensures
            r == self.spec_dot(rhs),
    {
        self.x.mul(rhs.x).add(self.y.mul(rhs.y))
    }

    pub fn abs(self) -> (r: Vector2D)
        ensures
            r == self.spec_abs(),
    {
        Vector2D { x: self.x.abs(), y: self.y.abs() }
    }
}

} // verus!
