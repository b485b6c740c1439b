//! One fixed step of the simulation: predict, detect, resolve, commit.

use crate::area::Entity;
use crate::body::BodyState;
use crate::body::{BodyType, PhysicsBody2D};
use crate::collision::{
    collision_system, lemma_contacts_obey_filters, lemma_found_contacts_resolvable,
    lemma_only_rigid_bodies_respond, lemma_resolve_changes_only_motion,
    lemma_resolve_keeps_domain, resolve_collisions, spec_contacts, spec_interacts,
    spec_resolvable, spec_resolve_all, CollisionPair,
};
use crate::transform::Transform2D;
use crate::vector::Vector2D;
use crate::world::lemma_sensing_areas_have_overlapping_groups;
use crate::fixed::Fixed;
use crate::transform::{spec_predicted, transform_system_calculate_intended_position};
use crate::world::{World, WorldView};
use vstd::prelude::*;

verus! {

/// The contacts of one step of length `dt`: those among the areas of `world`
/// against the predicted states.
pub open spec fn spec_step_contacts(world: WorldView, dt: Fixed) -> Seq<CollisionPair> {
    spec_contacts(world.colliders, spec_predicted(world, dt))
}

/// The state of every body after one step of length `dt`: the predicted
/// states, with the contacts among them resolved in the order of detection.
pub open spec fn spec_step_states(world: WorldView, dt: Fixed) -> Map<Entity, BodyState> {
    spec_resolve_all(world.colliders, spec_predicted(world, dt), spec_step_contacts(world, dt))
}

/// The world after one step of length `dt`.
pub open spec fn spec_step(world: WorldView, dt: Fixed) -> WorldView {
    world.spec_committed(spec_step_states(world, dt))
}

/// Advances `world` by one step of length `dt` and returns the contacts of
/// that step. Detection sees only predicted states; the world changes once,
/// when the resolved states are stored.
pub fn step(world: &mut World, dt: Fixed) -> (contacts: Vec<CollisionPair>)
    requires
        old(world).wf(),
    ensures
        final(world).wf(),
        contacts@ == spec_step_contacts(old(world)@, dt),
        final(world)@ == spec_step(old(world)@, dt),
{
    let mut next = transform_system_calculate_intended_position(world, dt);
    let contacts = collision_system(world, &next);
    let ghost predicted = next@;
    proof {
        assert forall|k: int| 0 <= k < contacts@.len() implies spec_resolvable(
            world@.colliders,
            predicted,
            #[trigger] contacts@[k],
        ) by {
            lemma_found_contacts_resolvable(world@.colliders, predicted, k);
        }
    }
    let resolved = resolve_collisions(world, &mut next, &contacts);
    proof {
        assert(resolved is Ok);
        lemma_resolve_keeps_domain(world@.colliders, predicted, contacts@);
        assert forall|e: Entity| next@.dom().contains(e) implies world@.bodies.dom().contains(e)
            && next@[e].0.wf() by {
            lemma_resolve_changes_only_motion(world@.colliders, predicted, contacts@, e);
        }
    }
    world.commit(&next);
    contacts
}

/// A step leaves a static body where it is and as fast as it was, whatever
/// runs into it; only its accumulators are emptied.
pub proof fn lemma_static_bodies_stay_put(world: WorldView, dt: Fixed, e: Entity)
    requires
        world.wf(),
        world.bodies.dom().contains(e),
        world.bodies[e].body_type == BodyType::Static,
    ensures
        spec_step(world, dt).transforms[e] == world.transforms[e],
        spec_step(world, dt).bodies[e] == (PhysicsBody2D {
            force: Vector2D::spec_zero(),
            impulse: Vector2D::spec_zero(),
            ..world.bodies[e]
        }),
{
    let predicted = spec_predicted(world, dt);
    lemma_only_rigid_bodies_respond(world.colliders, predicted, spec_step_contacts(world, dt), e);
    lemma_resolve_keeps_domain(world.colliders, predicted, spec_step_contacts(world, dt));
}

/// A step moves a kinematic body by exactly its velocity times `dt` and
/// leaves its velocity alone, whatever it runs into.
pub proof fn lemma_kinematic_bodies_keep_their_course(world: WorldView, dt: Fixed, e: Entity)
    requires
        world.wf(),
        world.bodies.dom().contains(e),
        world.bodies[e].body_type == BodyType::Kinematic,
    ensures
        spec_step(world, dt).transforms[e] == (Transform2D {
            position: world.transforms[e].position.spec_add(
                world.bodies[e].velocity.spec_scale(dt),
            ),
            ..world.transforms[e]
        }),
        spec_step(world, dt).bodies[e].velocity == world.bodies[e].velocity,
{
    let predicted = spec_predicted(world, dt);
    lemma_only_rigid_bodies_respond(world.colliders, predicted, spec_step_contacts(world, dt), e);
    lemma_resolve_keeps_domain(world.colliders, predicted, spec_step_contacts(world, dt));
}

/// A step changes nothing but the bodies and the transforms of entities
/// that have a body: areas, identifiers and the transforms of other
/// entities stay as they are.
pub proof fn lemma_step_touches_bodies_only(world: WorldView, dt: Fixed, e: Entity)
    requires
        world.wf(),
    ensures
        spec_step(world, dt).colliders == world.colliders,
        spec_step(world, dt).next_id == world.next_id,
        spec_step(world, dt).bodies.dom() == world.bodies.dom(),
        spec_step(world, dt).transforms.dom() == world.transforms.dom(),
        world.transforms.dom().contains(e) && !world.bodies.dom().contains(e) ==> spec_step(
            world,
            dt,
        ).transforms[e] == world.transforms[e],
{
    let predicted = spec_predicted(world, dt);
    lemma_resolve_keeps_domain(world.colliders, predicted, spec_step_contacts(world, dt));
    assert(spec_step(world, dt).bodies.dom() =~= world.bodies.dom());
    assert(spec_step(world, dt).transforms.dom() =~= world.transforms.dom());
}

/// Two areas interact in a step only if they are active, the mask of the
/// first meets the layer of the second, and the groups of their owners
/// overlap: every contact of a step comes from such a pair.
pub proof fn lemma_contacts_pass_every_filter(world: WorldView, dt: Fixed, k: int)
    requires
        0 <= k < spec_step_contacts(world, dt).len(),
    ensures
        exists|p: int, q: int|
            0 <= p < world.colliders.len() && 0 <= q < world.colliders.len() && spec_interacts(
                #[trigger] world.colliders[p],
                #[trigger] world.colliders[q],
            ) && world.spec_masks_overlap_layers(world.colliders[p].info, world.colliders[q].info)
                != 0 && spec_step_contacts(world, dt)[k].a_area_collider == world.colliders[p].id
                && spec_step_contacts(world, dt)[k].b_area_collider == world.colliders[q].id,
{
    let colliders = world.colliders;
    let next = spec_predicted(world, dt);
    lemma_contacts_obey_filters(colliders, next, k);
    let (p, q) = choose|p: int, q: int|
        0 <= p < colliders.len() && 0 <= q < colliders.len() && spec_interacts(
            #[trigger] colliders[p],
            #[trigger] colliders[q],
        ) && spec_contacts(colliders, next)[k].a_area_collider == colliders[p].id
            && spec_contacts(colliders, next)[k].b_area_collider == colliders[q].id
            && spec_contacts(colliders, next)[k].entity_a == colliders[p].info.parent
            && spec_contacts(colliders, next)[k].entity_b == colliders[q].info.parent;
    lemma_sensing_areas_have_overlapping_groups(world, p, q);
}

} // verus!
