//! Physics bodies and their integration over one time step.

use crate::fixed::{lemma_zero_absorbs, Fixed};
use crate::transform::Transform2D;
use crate::vector::Vector2D;
use vstd::prelude::*;

verus! {

/// How a body takes part in the simulation.
#[derive(Clone, Copy, Debug, PartialEq, Eq, Structural)]
pub enum BodyType {
    /// Never moves and never changes velocity.
    Static,
    /// Fully simulated: forces, impulses and collision response.
    Rigid,
    /// Moves with the velocity it was given; forces and impulses are ignored.
    Kinematic,
}

/// Velocity, mass and the forces and impulses gathered since the last step.
#[derive(Clone, Copy, Debug, PartialEq, Eq, Structural)]
pub struct PhysicsBody2D {
    pub body_type: BodyType,
    pub velocity: Vector2D,
    pub mass: Fixed,
    pub force: Vector2D,
    pub impulse: Vector2D,
}

/// A body together with the transform of its entity.
pub type BodyState = (PhysicsBody2D, Transform2D);

impl PhysicsBody2D {
    /// A body can be integrated when its mass is positive.
    pub open spec fn wf(self) -> bool {
        self.mass@ > 0
    }

    /// The velocity after one step of length `dt`: a rigid body gains its
    /// accumulated impulse and `force / mass * dt`; other bodies keep theirs.
    pub open spec fn spec_next_velocity(self, dt: Fixed) -> Vector2D {
        match self.body_type {
            BodyType::Rigid => self.velocity.spec_add(self.impulse).spec_add(
                self.force.spec_shrink(self.mass).spec_scale(dt),
            ),
            _ => self.velocity,
        }
    }

    /// How far the body moves in one step of length `dt`.
    pub open spec fn spec_displacement(self, dt: Fixed) -> Vector2D {
        match self.body_type {
            BodyType::Static => Vector2D::spec_zero(),
            _ => self.spec_next_velocity(dt).spec_scale(dt),
        }
    }

    /// The body after one step of length `dt`, with its accumulators drained.
    pub open spec fn spec_stepped(self, dt: Fixed) -> PhysicsBody2D {
        PhysicsBody2D {
            velocity: self.spec_next_velocity(dt),
            force: Vector2D::spec_zero(),
            impulse: Vector2D::spec_zero(),
            ..self
        }
    }

    /// The transform after one step of length `dt`.
    pub open spec fn spec_moved(self, dt: Fixed, transform: Transform2D) -> Transform2D {
        match self.body_type {
            BodyType::Static => transform,
            _ => transform.spec_translated(self.spec_displacement(dt)),
        }
    }

    /// A body at rest with empty accumulators, or `None` when `mass` is not
    /// positive.
    pub fn new(body_type: BodyType, velocity: Vector2D, mass: Fixed) -> (r: Option<PhysicsBody2D>)
        ensures
            mass@ > 0 ==> r == Some(
                PhysicsBody2D {
                    body_type,
                    velocity,
                    mass,
                    force: Vector2D::spec_zero(),
                    impulse: Vector2D::spec_zero(),
                },
            ),
            mass@ <= 0 ==> r is None,
    {
        if mass.gt(Fixed::zero()) {
            Some(
                PhysicsBody2D {
                    body_type,
                    velocity,
                    mass,
                    force: Vector2D::zero(),
                    impulse: Vector2D::zero(),
                },
            )
        } else {
            None
        }
    }

    /// Adds `force` to what the next step will apply over its duration.
    pub fn apply_force(&mut self, force: Vector2D)
        ensures
            *final(self) == (PhysicsBody2D { force: old(self).force.spec_add(force), ..*old(self) }),
    {
        self.force = self.force.add(force);
    }

    /// Adds `impulse` to what the next step will apply at once.
    pub fn apply_impulse(&mut self, impulse: Vector2D)
        ensures
            *final(self) == (PhysicsBody2D {
                impulse: old(self).impulse.spec_add(impulse),
                ..*old(self)
            }),
    {
        self.impulse = self.impulse.add(impulse);
    }

    /// Where the body and its transform would be after `dt`, leaving both as
    /// they are.
    pub fn extrapolate(&self, dt: Fixed, transform: &Transform2D) -> (r: (
        PhysicsBody2D,
        Transform2D,
    ))
        requires
            self.wf(),
        ensures
            r.0 == self.spec_stepped(dt),
            r.1 == self.spec_moved(dt, *transform),
    {
        let velocity = match self.body_type {
            BodyType::Rigid => self.velocity.add(self.impulse).add(
                self.force.shrink(self.mass).scale(dt),
            ),
            _ => self.velocity,
        };
        let moved = match self.body_type {
            BodyType::Static => *transform,
            _ => transform.translated(velocity.scale(dt)),
        };
        let stepped = PhysicsBody2D {
            body_type: self.body_type,
            velocity,
            mass: self.mass,
            force: Vector2D::zero(),
            impulse: Vector2D::zero(),
        };
        (stepped, moved)
    }

    /// Advances the body and its transform by `dt` in place.
    pub fn integrate(&mut self, dt: Fixed, transform: &mut Transform2D)
        requires
            old(self).wf(),
        ensures
            *final(self) == old(self).spec_stepped(dt),
            *final(transform) == old(self).spec_moved(dt, *old(transform)),
    {
        let (stepped, moved) = self.extrapolate(dt, transform);
        *self = stepped;
        *transform = moved;
    }
}

/// A valid body that has gathered neither force nor impulse comes out of a
/// step as it went in, so any number of such steps leaves it unchanged; its
/// transform advances by exactly velocity times `dt`, and not at all when
/// the body is static or at rest.
pub proof fn lemma_step_without_force(body: PhysicsBody2D, transform: Transform2D, dt: Fixed)
    requires
        body.wf(),
        body.force == Vector2D::spec_zero(),
        body.impulse == Vector2D::spec_zero(),
    ensures
        body.spec_stepped(dt) == body,
        body.spec_stepped(dt).spec_stepped(dt) == body,
        body.body_type != BodyType::Static ==> body.spec_moved(dt, transform) == (Transform2D {
            position: transform.position.spec_add(body.velocity.spec_scale(dt)),
            ..transform
        }),
        body.body_type == BodyType::Static || body.velocity == Vector2D::spec_zero()
            ==> body.spec_moved(dt, transform) == transform,
{
    lemma_zero_absorbs(body.mass);
    lemma_zero_absorbs(dt);
}

} // verus!
