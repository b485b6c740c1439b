//! Placement of an entity in the plane.

use crate::area::Entity;
use crate::body::BodyState;
use crate::fixed::Fixed;
use crate::shape::Shape2D;
use crate::vector::Vector2D;
use crate::world::{World, WorldView};
use std::collections::HashMap;
use vstd::prelude::*;
use vstd::std_specs::iter::IteratorSpec;

verus! {

/// Where an entity is and how large it is drawn. The sign of `scale` flips
/// the drawing along an axis and has no effect on the size.
#[derive(Clone, Copy, Debug, PartialEq, Eq, Structural)]
pub struct Transform2D {
    pub position: Vector2D,
    pub shape: Shape2D,
    pub scale: Vector2D,
    pub rotation_radians: Fixed,
}

impl Transform2D {
    pub open spec fn spec_scale_abs(self) -> Vector2D {
        self.scale.spec_abs()
    }

    /// Full extents of the shape's bounding box times the absolute scale.
    pub open spec fn spec_size(self) -> Vector2D {
        self.shape.spec_half_extents().spec_scale(Fixed::spec_two()).spec_hadamard(
            self.spec_scale_abs(),
        )
    }

    /// The same transform moved by `delta`.
    pub open spec fn spec_translated(self, delta: Vector2D) -> Transform2D {
        Transform2D { position: self.position.spec_add(delta), ..self }
    }

    pub fn get_scale_abs(&self) -> (r: Vector2D)
        ensures
            r == self.spec_scale_abs(),
    {
        self.scale.abs()
    }

    pub fn get_size(&self) -> (r: Vector2D)
        ensures
            r == self.spec_size(),
    {
        self.shape.half_extents().scale(Fixed::two()).hadamard(self.get_scale_abs())
    }

    pub fn translated(&self, delta: Vector2D) -> (r: Transform2D)
        ensures
            r == self.spec_translated(delta),
    {
        Transform2D {
            position: self.position.add(delta),
            shape: self.shape,
            scale: self.scale,
            rotation_radians: self.rotation_radians,
        }
    }
}

/// Where every body of `world` and its transform would be after `dt`.
pub open spec fn spec_predicted(world: WorldView, dt: Fixed) -> Map<Entity, BodyState> {
    Map::new(
        |e: Entity| world.bodies.dom().contains(e),
        |e: Entity|
            (world.bodies[e].spec_stepped(dt), world.bodies[e].spec_moved(
                dt,
                world.transforms[e],
            )),
    )
}

/// Predicts the state of every body after `dt` without touching the world.
pub fn transform_system_calculate_intended_position(world: &World, dt: Fixed) -> (r: HashMap<
    Entity,
    BodyState,
>)
    requires
        world.wf(),
    ensures
        r@ == spec_predicted(world@, dt),
        world@.spec_accepts(r@),
{
    let mut out: HashMap<Entity, BodyState> = HashMap::new();
    let ghost keys = world.physics_bodies_2d.keys().remaining();
    for k in it: world.physics_bodies_2d.keys()
        invariant
            it.seq() == keys,
            keys.unref().to_set() == world@.bodies.dom(),
            world.wf(),
            forall|j: int| 0 <= j < it.index() ==> out@.dom().contains(#[trigger] keys.unref()[j]),
            forall|e: Entity|
                #![trigger out@.dom().contains(e)]
                out@.dom().contains(e) ==> world@.bodies.dom().contains(e) && out@[e]
                    == spec_predicted(world@, dt)[e],
    {
        proof {
            assert(keys.unref()[it.index() as int] == *k);
            assert(keys.unref().to_set().contains(*k));
            assert(world@.bodies.dom().contains(*k));
            assert(world@.transforms.dom().contains(*k));
            assert(world@.bodies[*k].wf());
        }
        match (world.physics_bodies_2d.get(k), world.transforms_2d.get(k)) {
            (Some(body), Some(transform)) => {
                let state = body.extrapolate(dt, transform);
                out.insert(*k, state);
            },
            _ => {},
        }
    }
    proof {
        assert forall|e: Entity| world@.bodies.dom().contains(e) implies out@.dom().contains(
            e,
        ) by {
            assert(keys.unref().to_set().contains(e));
            let j = choose|j: int| 0 <= j < keys.unref().len() && keys.unref()[j] == e;
            assert(out@.dom().contains(keys.unref()[j]));
        }
        assert(out@ =~= spec_predicted(world@, dt));
    }
    out
}

/// Advances every body of `world` and its transform by `dt` in place.
pub fn transform_system_physics(world: &mut World, dt: Fixed)
    requires
        old(world).wf(),
    ensures
        final(world).wf(),
        final(world)@ == old(world)@.spec_committed(spec_predicted(old(world)@, dt)),
{
    let next = transform_system_calculate_intended_position(world, dt);
    world.commit(&next);
}

/// The size of an entity does not depend on the sign of its scale.
pub proof fn lemma_size_ignores_flip(t: Transform2D, flipped: Transform2D)
    requires
        flipped.shape == t.shape,
        flipped.scale.x == t.scale.x || flipped.scale.x == t.scale.x.spec_neg(),
        flipped.scale.y == t.scale.y || flipped.scale.y == t.scale.y.spec_neg(),
    ensures
        flipped.spec_size() == t.spec_size(),
{
}

} // verus!
