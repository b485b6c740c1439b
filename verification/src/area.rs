//! Colliders and sensors attached to entities.

use crate::shape::Shape2D;
use crate::vector::Vector2D;
use vstd::prelude::*;

verus! {

/// Identifies an entity of the world.
pub type Entity = u32;

/// What an area is for.
#[derive(Clone, Copy, Debug, PartialEq, Eq, Structural)]
pub enum AreaRole {
    /// Takes part in collision detection and resolution.
    Physics,
    /// Reports overlaps without pushing anything.
    Trigger,
}

/// The owner and the role of an area.
#[derive(Clone, Copy, Debug, PartialEq, Eq, Structural)]
pub struct AreaInfo {
    pub parent: Entity,
    pub role: AreaRole,
}

/// A collision shape with its filters. `masks` says which layers the area
/// reacts to, `layers` which layers it belongs to.
#[derive(Clone, Copy, Debug, PartialEq, Eq, Structural)]
pub struct Area2D {
    pub shape: Shape2D,
    pub offset: Vector2D,
    pub masks: u8,
    pub layers: u8,
    pub active: bool,
}

/// An area as the world stores it: its own identifier, its owner and role.
#[derive(Clone, Copy, Debug, PartialEq, Eq, Structural)]
pub struct Collider {
    pub id: Entity,
    pub info: AreaInfo,
    pub area: Area2D,
}

impl Area2D {
    /// An area is valid when the bounding box of its shape has no negative
    /// half-extent.
    pub open spec fn wf(self) -> bool {
        self.shape.spec_half_extents().x@ >= 0 && self.shape.spec_half_extents().y@ >= 0
    }

    pub fn is_valid(&self) -> (r: bool)
        ensures
            r == self.wf(),
    {
        let half = self.shape.half_extents();
        half.x.raw >= 0 && half.y.raw >= 0
    }

    /// Whether this area reacts to `other`: its mask meets the other's layer.
    /// The relation is directional.
    pub open spec fn spec_senses(self, other: Area2D) -> bool {
        self.masks & other.layers != 0
    }

    pub fn senses(&self, other: &Area2D) -> (r: bool)
        ensures
            r == self.spec_senses(*other),
    {
        self.masks & other.layers != 0
    }
}

} // verus!
