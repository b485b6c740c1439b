//! The commands that scripts issue between steps.

use crate::area::Entity;
use crate::body::PhysicsBody2D;
use crate::engine::{Engine, EngineView};
use crate::transform::Transform2D;
use crate::vector::Vector2D;
use crate::fixed::Fixed;
use crate::world::{WorldError, WorldView};
use vstd::prelude::*;

verus! {

/// The value of bit `i` when `flag` is set, zero otherwise.
pub open spec fn spec_bit(flag: bool, i: nat) -> int {
    if flag {
        vstd::arithmetic::power2::pow2(i) as int
    } else {
        0
    }
}

/// The byte whose bit `i` is set exactly when `bits[i]` is.
pub open spec fn spec_vecbool_to_u8(bits: Seq<bool>) -> int {
    spec_bit(bits[0], 0) + spec_bit(bits[1], 1) + spec_bit(bits[2], 2) + spec_bit(bits[3], 3)
        + spec_bit(bits[4], 4) + spec_bit(bits[5], 5) + spec_bit(bits[6], 6) + spec_bit(
        bits[7],
        7,
    )
}

/// Packs eight flags into a byte, the first flag into the lowest bit.
pub fn vecbool_to_u8(bits: &[bool; 8]) -> (r: u8)
    ensures
        r == spec_vecbool_to_u8(bits@),
{
    proof {
        vstd::arithmetic::power2::lemma2_to64();
    }
    let mut r: u8 = 0;
    if bits[0] {
        r = r + 1;
    }
    if bits[1] {
        r = r + 2;
    }
    if bits[2] {
        r = r + 4;
    }
    if bits[3] {
        r = r + 8;
    }
    if bits[4] {
        r = r + 16;
    }
    if bits[5] {
        r = r + 32;
    }
    if bits[6] {
        r = r + 64;
    }
    if bits[7] {
        r = r + 128;
    }
    r
}

impl EngineView {
    /// This engine with the body of `id` replaced by `body`.
    pub open spec fn spec_with_body(self, id: Entity, body: PhysicsBody2D) -> EngineView {
        EngineView {
            world: WorldView { bodies: self.world.bodies.insert(id, body), ..self.world },
            ..self
        }
    }

    /// This engine with the transform of `id` replaced by `transform`.
    pub open spec fn spec_with_transform(self, id: Entity, transform: Transform2D) -> EngineView {
        EngineView {
            world: WorldView {
                transforms: self.world.transforms.insert(id, transform),
                ..self.world
            },
            ..self
        }
    }
}

impl Engine {
    /// Adds the force `(fx, fy)` to what the next step applies to the body of
    /// `id`.
    pub fn apply_force_2d(&mut self, id: Entity, fx: Fixed, fy: Fixed) -> (r: Result<
        (),
        WorldError,
    >)
        requires
            old(self).wf(),
        ensures
            final(self).wf(),
            r is Ok <==> old(self)@.world.bodies.dom().contains(id),
            r is Ok ==> final(self)@ == old(self)@.spec_with_body(
                id,
                PhysicsBody2D {
                    force: old(self)@.world.bodies[id].force.spec_add(Vector2D { x: fx, y: fy }),
                    ..old(self)@.world.bodies[id]
                },
            ),
            r is Err ==> r == Err::<(), WorldError>(WorldError::NotFound) && final(self)@ == old(
                self,
            )@,
    {
        match self.world.get_body(id) {
            Some(body) => {
                let mut body = body;
                body.apply_force(Vector2D { x: fx, y: fy });
                self.world.insert_body(id, body)
            },
            None => Err(WorldError::NotFound),
        }
    }

    /// Adds the impulse `(fx, fy)` to what the next step applies to the body
    /// of `id`.
    pub fn apply_impulse_2d(&mut self, id: Entity, fx: Fixed, fy: Fixed) -> (r: Result<
        (),
        WorldError,
    >)
        requires
            old(self).wf(),
        ensures
            final(self).wf(),
            r is Ok <==> old(self)@.world.bodies.dom().contains(id),
            r is Ok ==> final(self)@ == old(self)@.spec_with_body(
                id,
                PhysicsBody2D {
                    impulse: old(self)@.world.bodies[id].impulse.spec_add(
                        Vector2D { x: fx, y: fy },
                    ),
                    ..old(self)@.world.bodies[id]
                },
            ),
            r is Err ==> r == Err::<(), WorldError>(WorldError::NotFound) && final(self)@ == old(
                self,
            )@,
    {
        match self.world.get_body(id) {
            Some(body) => {
                let mut body = body;
                body.apply_impulse(Vector2D { x: fx, y: fy });
                self.world.insert_body(id, body)
            },
            None => Err(WorldError::NotFound),
        }
    }

    /// Gives the body of `id` the velocity `(vx, vy)`.
    pub fn set_velocity_2d(&mut self, id: Entity, vx: Fixed, vy: Fixed) -> (r: Result<
        (),
        WorldError,
    >)
        requires
            old(self).wf(),
        ensures
            final(self).wf(),
            r is Ok <==> old(self)@.world.bodies.dom().contains(id),
            r is Ok ==> final(self)@ == old(self)@.spec_with_body(
                id,
                PhysicsBody2D {
                    velocity: Vector2D { x: vx, y: vy },
                    ..old(self)@.world.bodies[id]
                },
            ),
            r is Err ==> r == Err::<(), WorldError>(WorldError::NotFound) && final(self)@ == old(
                self,
            )@,
    {
        match self.world.get_body(id) {
            Some(body) => {
                let moved = PhysicsBody2D {
                    body_type: body.body_type,
                    velocity: Vector2D { x: vx, y: vy },
                    mass: body.mass,
                    force: body.force,
                    impulse: body.impulse,
                };
                self.world.insert_body(id, moved)
            },
            None => Err(WorldError::NotFound),
        }
    }

    /// The velocity of the body of `id`.
    pub fn get_velocity_2d(&self, id: Entity) -> (r: Result<Vector2D, WorldError>)
        ensures
            self@.world.bodies.dom().contains(id) ==> r == Ok::<Vector2D, WorldError>(
                self@.world.bodies[id].velocity,
            ),
            !self@.world.bodies.dom().contains(id) ==> r == Err::<Vector2D, WorldError>(
                WorldError::NotFound,
            ),
    {
        match self.world.get_body(id) {
            Some(body) => Ok(body.velocity),
            None => Err(WorldError::NotFound),
        }
    }

    /// The position of `id`.
    pub fn get_position_2d(&self, id: Entity) -> (r: Result<Vector2D, WorldError>)
        ensures
            self@.world.transforms.dom().contains(id) ==> r == Ok::<Vector2D, WorldError>(
                self@.world.transforms[id].position,
            ),
            !self@.world.transforms.dom().contains(id) ==> r == Err::<Vector2D, WorldError>(
                WorldError::NotFound,
            ),
    {
        match self.world.get_transform(id) {
            Some(transform) => Ok(transform.position),
            None => Err(WorldError::NotFound),
        }
    }

    /// Gives every area of `id` the filters packed from `masks` and
    /// `layers`.
    pub fn apply_masks_and_layers(&mut self, id: Entity, masks: &[bool; 8], layers: &[bool; 8]) -> (r:
        Result<(), WorldError>)
        requires
            old(self).wf(),
        ensures
            final(self).wf(),
            r is Ok <==> old(self)@.world.spec_owns_area(id),
            r is Err ==> r == Err::<(), WorldError>(WorldError::NotFound),
            final(self)@ == (EngineView {
                world: WorldView {
                    colliders: old(self)@.world.spec_refiltered(
                        id,
                        spec_vecbool_to_u8(masks@) as u8,
                        spec_vecbool_to_u8(layers@) as u8,
                    ),
                    ..old(self)@.world
                },
                ..old(self)@
            }),
    {
        let masks = vecbool_to_u8(masks);
        let layers = vecbool_to_u8(layers);
        self.world.update_area_masks_and_layers(&id, masks, layers)
    }

    /// Switches every area of `id` on or off.
    pub fn toggle_area(&mut self, id: Entity, active: bool) -> (r: Result<(), WorldError>)
        requires
            old(self).wf(),
        ensures
            final(self).wf(),
            r is Ok <==> old(self)@.world.spec_owns_area(id),
            r is Err ==> r == Err::<(), WorldError>(WorldError::NotFound),
            final(self)@ == (EngineView {
                world: WorldView {
                    colliders: old(self)@.world.spec_toggled(id, active),
                    ..old(self)@.world
                },
                ..old(self)@
            }),
    {
        self.world.toggle_area(&id, active)
    }

    /// Draws `entity` mirrored along the axes chosen: the scale of a chosen
    /// axis becomes negative, that of the other positive. An entity without
    /// a transform is left alone.
    pub fn flip(&mut self, entity: Entity, x: bool, y: bool)
        requires
            old(self).wf(),
        ensures
            final(self).wf(),
            !old(self)@.world.transforms.dom().contains(entity) ==> final(self)@ == old(self)@,
            old(self)@.world.transforms.dom().contains(entity) ==> final(self)@ == old(
                self,
            )@.spec_with_transform(
                entity,
                Transform2D {
                    scale: Vector2D {
                        x: if x {
                            old(self)@.world.transforms[entity].scale.x.spec_abs().spec_neg()
                        } else {
                            old(self)@.world.transforms[entity].scale.x.spec_abs()
                        },
                        y: if y {
                            old(self)@.world.transforms[entity].scale.y.spec_abs().spec_neg()
                        } else {
                            old(self)@.world.transforms[entity].scale.y.spec_abs()
                        },
                    },
                    ..old(self)@.world.transforms[entity]
                },
            ),
    {
        match self.world.get_transform(entity) {
            Some(t) => {
                let sx = if x {
                    t.scale.x.abs().neg()
                } else {
                    t.scale.x.abs()
                };
                let sy = if y {
                    t.scale.y.abs().neg()
                } else {
                    t.scale.y.abs()
                };
                let flipped = Transform2D {
                    position: t.position,
                    shape: t.shape,
                    scale: Vector2D { x: sx, y: sy },
                    rotation_radians: t.rotation_radians,
                };
                let _ = self.world.insert_transform(entity, flipped);
            },
            None => {},
        }
    }

    /// Width and height of the window, in pixels.
    pub fn get_window_size(&self) -> (r: [u32; 2])
        ensures
            r[0] == self@.width,
            r[1] == self@.height,
    {
        [self.width, self.height]
    }

    /// Moves `id` by `(x, y)` at once, outside of any step.
    pub fn apply_move_2d(&mut self, id: Entity, x: Fixed, y: Fixed) -> (r: Result<(), WorldError>)
        requires
            old(self).wf(),
        ensures
            final(self).wf(),
            r is Ok <==> old(self)@.world.transforms.dom().contains(id),
            r is Ok ==> final(self)@ == old(self)@.spec_with_transform(
                id,
                old(self)@.world.transforms[id].spec_translated(Vector2D { x, y }),
            ),
            r is Err ==> r == Err::<(), WorldError>(WorldError::NotFound) && final(self)@ == old(
                self,
            )@,
    {
        match self.world.get_transform(id) {
            Some(transform) => {
                let moved = transform.translated(Vector2D { x, y });
                self.world.insert_transform(id, moved)
            },
            None => Err(WorldError::NotFound),
        }
    }
}

} // verus!
