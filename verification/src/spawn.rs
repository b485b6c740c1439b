//! Creation of bodies from scripted descriptions.

use crate::area::{Area2D, AreaInfo, AreaRole, Collider, Entity};
use crate::body::{BodyType, PhysicsBody2D};
use crate::commands::{spec_vecbool_to_u8, vecbool_to_u8};
use crate::engine::{Engine, EngineView};
use crate::fixed::Fixed;
use crate::shape::Shape2D;
use crate::transform::Transform2D;
use crate::vector::Vector2D;
use crate::world::{WorldError, WorldView};
use vstd::prelude::*;

verus! {

/// The collision box of a body to create, relative to the body's size.
#[derive(Clone, Copy, Debug, PartialEq, Eq, Structural)]
pub struct CollisionBox {
    /// Whether the body gets a collider at all.
    pub enabled: bool,
    /// Factors by which the box is wider and higher than the body.
    pub size_modifier: Vector2D,
    /// Where the box sits relative to the body.
    pub offset: Vector2D,
}

/// A complete description of a body to create.
#[derive(Clone, Copy, Debug, PartialEq, Eq, Structural)]
pub struct BodySpec {
    /// Whether the body is the player's.
    pub is_pc: bool,
    pub position: Vector2D,
    /// Width and height.
    pub size: Vector2D,
    pub body_type: BodyType,
    pub collision_box: CollisionBox,
    pub masks: u8,
    pub layers: u8,
}

/// A description of a body as a script gives it, where any part may be
/// missing.
#[derive(Clone, Copy, Debug)]
pub struct PartialBodySpec {
    pub is_pc: Option<bool>,
    pub x: Option<Fixed>,
    pub y: Option<Fixed>,
    pub width: Option<Fixed>,
    pub height: Option<Fixed>,
    /// 0 for static, 1 for rigid, 2 for kinematic.
    pub body_type: Option<u8>,
    pub collision_box: Option<bool>,
    pub size_modifier_x: Option<Fixed>,
    pub size_modifier_y: Option<Fixed>,
    pub offset_x: Option<Fixed>,
    pub offset_y: Option<Fixed>,
    pub masks: Option<[bool; 8]>,
    pub layers: Option<[bool; 8]>,
}

/// What `create_body` made.
#[derive(Clone, Copy, Debug, PartialEq, Eq, Structural)]
pub struct CreatedBody {
    pub entity: Entity,
    /// The identifier of the collider, if the body got one.
    pub collider: Option<Entity>,
}

impl BodyType {
    /// The body type with the given code; static for an unknown code.
    pub open spec fn spec_from_code(code: u8) -> BodyType {
        if code == 1 {
            BodyType::Rigid
        } else if code == 2 {
            BodyType::Kinematic
        } else {
            BodyType::Static
        }
    }

    pub fn from_code(code: u8) -> (r: BodyType)
        ensures
            r == BodyType::spec_from_code(code),
    {
        if code == 1 {
            BodyType::Rigid
        } else if code == 2 {
            BodyType::Kinematic
        } else {
            BodyType::Static
        }
    }
}

/// `value` if it is there, `default` otherwise.
pub open spec fn spec_or(value: Option<Fixed>, default: Fixed) -> Fixed {
    match value {
        Some(v) => v,
        None => default,
    }
}

fn or(value: Option<Fixed>, default: Fixed) -> (r: Fixed)
    ensures
        r == spec_or(value, default),
{
    match value {
        Some(v) => v,
        None => default,
    }
}

impl BodySpec {
    /// The description with every missing part replaced by its default: at
    /// the origin, one unit wide and high, static, not the player's, with a
    /// collision box of the body's size at its centre and with empty filters.
    pub open spec fn spec_from_partial(p: PartialBodySpec) -> BodySpec {
        BodySpec {
            is_pc: match p.is_pc {
                Some(b) => b,
                None => false,
            },
            position: Vector2D {
                x: spec_or(p.x, Fixed::spec_zero()),
                y: spec_or(p.y, Fixed::spec_zero()),
            },
            size: Vector2D {
                x: spec_or(p.width, Fixed::spec_one()),
                y: spec_or(p.height, Fixed::spec_one()),
            },
            body_type: match p.body_type {
                Some(code) => BodyType::spec_from_code(code),
                None => BodyType::Static,
            },
            collision_box: CollisionBox {
                enabled: match p.collision_box {
                    Some(b) => b,
                    None => true,
                },
                size_modifier: Vector2D {
                    x: spec_or(p.size_modifier_x, Fixed::spec_one()),
                    y: spec_or(p.size_modifier_y, Fixed::spec_one()),
                },
                offset: Vector2D {
                    x: spec_or(p.offset_x, Fixed::spec_zero()),
                    y: spec_or(p.offset_y, Fixed::spec_zero()),
                },
            },
            masks: match p.masks {
                Some(bits) => spec_vecbool_to_u8(bits@) as u8,
                None => 0,
            },
            layers: match p.layers {
                Some(bits) => spec_vecbool_to_u8(bits@) as u8,
                None => 0,
            },
        }
    }

    /// Fills in the defaults of a scripted description.
    pub fn from_partial(p: &PartialBodySpec) -> (r: BodySpec)
        ensures
            r == BodySpec::spec_from_partial(*p),
    {
        BodySpec {
            is_pc: match p.is_pc {
                Some(b) => b,
                None => false,
            },
            position: Vector2D { x: or(p.x, Fixed::zero()), y: or(p.y, Fixed::zero()) },
            size: Vector2D { x: or(p.width, Fixed::one()), y: or(p.height, Fixed::one()) },
            body_type: match p.body_type {
                Some(code) => BodyType::from_code(code),
                None => BodyType::Static,
            },
            collision_box: CollisionBox {
                enabled: match p.collision_box {
                    Some(b) => b,
                    None => true,
                },
                size_modifier: Vector2D {
                    x: or(p.size_modifier_x, Fixed::one()),
                    y: or(p.size_modifier_y, Fixed::one()),
                },
                offset: Vector2D {
                    x: or(p.offset_x, Fixed::zero()),
                    y: or(p.offset_y, Fixed::zero()),
                },
            },
            masks: match &p.masks {
                Some(bits) => vecbool_to_u8(bits),
                None => 0,
            },
            layers: match &p.layers {
                Some(bits) => vecbool_to_u8(bits),
                None => 0,
            },
        }
    }

    /// The transform of the body: a unit square scaled to the body's size.
    pub open spec fn spec_transform(self) -> Transform2D {
        Transform2D {
            position: self.position,
            shape: Shape2D::Rectangle {
                half_extents: Vector2D { x: Fixed::spec_half(), y: Fixed::spec_half() },
            },
            scale: self.size,
            rotation_radians: Fixed::spec_zero(),
        }
    }

    /// The body: at rest, of unit mass.
    pub open spec fn spec_body(self) -> PhysicsBody2D {
        PhysicsBody2D {
            body_type: self.body_type,
            velocity: Vector2D::spec_zero(),
            mass: Fixed::spec_one(),
            force: Vector2D::spec_zero(),
            impulse: Vector2D::spec_zero(),
        }
    }

    /// The collider: a rectangle of half the body's size times the size
    /// modifiers, switched on.
    pub open spec fn spec_area(self) -> Area2D {
        Area2D {
            shape: Shape2D::Rectangle {
                half_extents: Vector2D {
                    x: Fixed::spec_half().spec_mul(self.collision_box.size_modifier.x).spec_mul(
                        self.size.x,
                    ),
                    y: Fixed::spec_half().spec_mul(self.collision_box.size_modifier.y).spec_mul(
                        self.size.y,
                    ),
                },
            },
            offset: self.collision_box.offset,
            masks: self.masks,
            layers: self.layers,
            active: true,
        }
    }

    /// How many identifiers the body takes.
    pub open spec fn spec_ids_needed(self) -> int {
        if self.collision_box.enabled {
            2
        } else {
            1
        }
    }

    /// Why the body cannot be created in `world`, if it cannot.
    pub open spec fn spec_refusal(self, world: WorldView) -> Option<WorldError> {
        if self.collision_box.enabled && !self.spec_area().wf() {
            Some(WorldError::InvalidArea)
        } else if world.next_id + self.spec_ids_needed() > u32::MAX {
            Some(WorldError::Exhausted)
        } else {
            None
        }
    }
}

impl EngineView {
    /// This engine after the body described by `spec` has been created.
    pub open spec fn spec_with_created(self, spec: BodySpec) -> EngineView {
        let entity = self.world.next_id;
        EngineView {
            player: if spec.is_pc {
                entity
            } else {
                self.player
            },
            world: WorldView {
                next_id: (entity + spec.spec_ids_needed()) as Entity,
                transforms: self.world.transforms.insert(entity, spec.spec_transform()),
                bodies: self.world.bodies.insert(entity, spec.spec_body()),
                colliders: if spec.collision_box.enabled {
                    self.world.colliders.push(
                        Collider {
                            id: (entity + 1) as Entity,
                            info: AreaInfo { parent: entity, role: AreaRole::Physics },
                            area: spec.spec_area(),
                        },
                    )
                } else {
                    self.world.colliders
                },
            },
            ..self
        }
    }
}

impl Engine {
    /// Creates an entity with a transform, a body and, if asked for, a
    /// collider. Either all of it is created or nothing changes.
    pub fn create_body(&mut self, spec: &BodySpec) -> (r: Result<CreatedBody, WorldError>)
        requires
            old(self).wf(),
        ensures
            final(self).wf(),
            match spec.spec_refusal(old(self)@.world) {
                Some(e) => r == Err::<CreatedBody, WorldError>(e) && final(self)@ == old(self)@,
                None => r == Ok::<CreatedBody, WorldError>(
                    CreatedBody {
                        entity: old(self)@.world.next_id,
                        collider: if spec.collision_box.enabled {
                            Some((old(self)@.world.next_id + 1) as Entity)
                        } else {
                            None
                        },
                    },
                ) && final(self)@ == old(self)@.spec_with_created(*spec),
            },
    {
        let half = Fixed::half();
        let area = Area2D {
            shape: Shape2D::Rectangle {
                half_extents: Vector2D {
                    x: half.mul(spec.collision_box.size_modifier.x).mul(spec.size.x),
                    y: half.mul(spec.collision_box.size_modifier.y).mul(spec.size.y),
                },
            },
            offset: spec.collision_box.offset,
            masks: spec.masks,
            layers: spec.layers,
            active: true,
        };
        if spec.collision_box.enabled && !area.is_valid() {
            return Err(WorldError::InvalidArea);
        }
        let needed: u32 = if spec.collision_box.enabled {
            2
        } else {
            1
        };
        if self.world.next_entity > u32::MAX - needed {
            return Err(WorldError::Exhausted);
        }
        let transform = Transform2D {
            position: spec.position,
            shape: Shape2D::Rectangle { half_extents: Vector2D { x: half, y: half } },
            scale: spec.size,
            rotation_radians: Fixed::zero(),
        };
        let body = PhysicsBody2D {
            body_type: spec.body_type,
            velocity: Vector2D::zero(),
            mass: Fixed::one(),
            force: Vector2D::zero(),
            impulse: Vector2D::zero(),
        };
        let entity = match self.world.new_entity() {
            Ok(e) => e,
            Err(e) => {
                return Err(e);
            },
        };
        if spec.is_pc {
            self.player = entity;
        }
        let _ = self.world.insert_transform(entity, transform);
        let _ = self.world.insert_body(entity, body);
        let collider = if spec.collision_box.enabled {
            match self.world.add_area(AreaInfo { parent: entity, role: AreaRole::Physics }, area) {
                Ok(id) => Some(id),
                Err(_) => None,
            }
        } else {
            None
        };
        Ok(CreatedBody { entity, collider })
    }
}

} // verus!
