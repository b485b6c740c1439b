//! Collision and drawing primitives.

use crate::fixed::Fixed;
use crate::vector::Vector2D;
use vstd::prelude::*;

verus! {

/// The outline of a body or of a collider, before scaling.
#[derive(Clone, Copy, Debug, PartialEq, Eq, Structural)]
pub enum Shape2D {
    Rectangle { half_extents: Vector2D },
    Circle { radius: Fixed },
}

impl Shape2D {
    /// Half the width and half the height of the shape's bounding box.
    pub open spec fn spec_half_extents(self) -> Vector2D {
        match self {
            Shape2D::Rectangle { half_extents } => half_extents,
            Shape2D::Circle { radius } => Vector2D { x: radius, y: radius },
        }
    }

    pub fn half_extents(&self) -> (r: Vector2D)
        ensures
            r == self.spec_half_extents(),
    {
        match self {
            Shape2D::Rectangle { half_extents } => *half_extents,
            Shape2D::Circle { radius } => Vector2D { x: *radius, y: *radius },
        }
    }
}

} // verus!
