//! Collision detection between areas and resolution of the contacts found.

use crate::area::{Area2D, AreaInfo, AreaRole, Collider, Entity};
use crate::body::{BodyState, BodyType, PhysicsBody2D};
use crate::fixed::{
    lemma_half_is_no_larger, lemma_product_not_negative, lemma_unit_products,
    lemma_zero_absorbs, Fixed,
};
use crate::transform::Transform2D;
use crate::vector::Vector2D;
use crate::world::{spec_area, World, WorldError};
use std::collections::HashMap;
use vstd::prelude::*;

verus! {

/// One pair of overlapping areas in one step. `normal` is a unit vector along
/// the axis of least overlap and points from side B toward side A;
/// `penetration` is the overlap along that axis.
#[derive(Clone, Copy, Debug, PartialEq, Eq, Structural)]
pub struct CollisionPair {
    pub entity_a: Entity,
    pub entity_b: Entity,
    pub a_area_collider: Entity,
    pub b_area_collider: Entity,
    pub a_size: Vector2D,
    pub b_size: Vector2D,
    pub next_pos_a: Vector2D,
    pub next_pos_b: Vector2D,
    pub velocity_a: Vector2D,
    pub velocity_b: Vector2D,
    pub normal: Vector2D,
    pub penetration: Fixed,
}

/// Whether the intervals `a_pos ± a_half` and `b_pos ± b_half` meet; touching
/// counts.
pub open spec fn spec_axis_intersects(a_pos: Fixed, a_half: Fixed, b_pos: Fixed, b_half: Fixed) -> bool {
    a_pos.spec_sub(a_half)@ <= b_pos.spec_add(b_half)@ && a_pos.spec_add(a_half)@
        >= b_pos.spec_sub(b_half)@
}

/// Whether two axis-aligned boxes, given by centre and half-extents, meet.
pub open spec fn spec_aabb_intersects(
    a_pos: Vector2D,
    b_pos: Vector2D,
    a_half: Vector2D,
    b_half: Vector2D,
) -> bool {
    spec_axis_intersects(a_pos.x, a_half.x, b_pos.x, b_half.x) && spec_axis_intersects(
        a_pos.y,
        a_half.y,
        b_pos.y,
        b_half.y,
    )
}

/// Length of the common part of the intervals `a_pos ± a_half` and
/// `b_pos ± b_half`.
pub open spec fn spec_overlap(a_pos: Fixed, a_half: Fixed, b_pos: Fixed, b_half: Fixed) -> Fixed {
    a_pos.spec_add(a_half).spec_min(b_pos.spec_add(b_half)).spec_sub(
        a_pos.spec_sub(a_half).spec_max(b_pos.spec_sub(b_half)),
    )
}

/// The separation normal: along X when the X overlap is strictly the
/// smaller, along Y otherwise; directed from B toward A by comparing the
/// centres.
pub open spec fn spec_normal(
    a_pos: Vector2D,
    b_pos: Vector2D,
    overlap_x: Fixed,
    overlap_y: Fixed,
) -> Vector2D {
    if overlap_x@ < overlap_y@ {
        if a_pos.x@ < b_pos.x@ {
            Vector2D { x: Fixed::spec_one().spec_neg(), y: Fixed::spec_zero() }
        } else {
            Vector2D { x: Fixed::spec_one(), y: Fixed::spec_zero() }
        }
    } else {
        if a_pos.y@ < b_pos.y@ {
            Vector2D { x: Fixed::spec_zero(), y: Fixed::spec_one().spec_neg() }
        } else {
            Vector2D { x: Fixed::spec_zero(), y: Fixed::spec_one() }
        }
    }
}

/// The smaller of the two overlaps; the Y overlap when they are equal.
pub open spec fn spec_penetration(overlap_x: Fixed, overlap_y: Fixed) -> Fixed {
    if overlap_x@ < overlap_y@ {
        overlap_x
    } else {
        overlap_y
    }
}

/// Half-extents of an area on an entity with transform `t`: those of its
/// shape times the absolute scale.
pub open spec fn spec_scaled_half(area: Area2D, t: Transform2D) -> Vector2D {
    area.shape.spec_half_extents().spec_hadamard(t.spec_scale_abs())
}

/// The contact between the areas `a` and `b` whose owners are in the states
/// `a_state` and `b_state`, or `None` when their boxes do not meet.
pub open spec fn spec_contact(a: Collider, b: Collider, a_state: BodyState, b_state: BodyState) -> Option<
    CollisionPair,
> {
    let a_pos = a_state.1.position;
    let b_pos = b_state.1.position;
    let a_half = spec_scaled_half(a.area, a_state.1);
    let b_half = spec_scaled_half(b.area, b_state.1);
    if spec_aabb_intersects(a_pos, b_pos, a_half, b_half) {
        let overlap_x = spec_overlap(a_pos.x, a_half.x, b_pos.x, b_half.x);
        let overlap_y = spec_overlap(a_pos.y, a_half.y, b_pos.y, b_half.y);
        Some(
            CollisionPair {
                entity_a: a.info.parent,
                entity_b: b.info.parent,
                a_area_collider: a.id,
                b_area_collider: b.id,
                a_size: a_state.1.spec_size(),
                b_size: b_state.1.spec_size(),
                next_pos_a: a_pos,
                next_pos_b: b_pos,
                velocity_a: a_state.0.velocity,
                velocity_b: b_state.0.velocity,
                normal: spec_normal(a_pos, b_pos, overlap_x, overlap_y),
                penetration: spec_penetration(overlap_x, overlap_y),
            },
        )
    } else {
        None
    }
}

/// Whether the ordered pair of areas `(a, b)` is looked at: both are active
/// physics areas, they are not one and the same, and `a` reacts to `b`.
pub open spec fn spec_interacts(a: Collider, b: Collider) -> bool {
    &&& a.info.role == AreaRole::Physics
    &&& b.info.role == AreaRole::Physics
    &&& a.area.active
    &&& b.area.active
    &&& a.id != b.id
    &&& a.area.spec_senses(b.area)
}

/// The contact that the ordered pair `(a, b)` gives against the predicted
/// states `next`, if any.
pub open spec fn spec_pair_contact(a: Collider, b: Collider, next: Map<Entity, BodyState>) -> Option<
    CollisionPair,
> {
    if spec_interacts(a, b) && next.dom().contains(a.info.parent) && next.dom().contains(
        b.info.parent,
    ) {
        spec_contact(a, b, next[a.info.parent], next[b.info.parent])
    } else {
        None
    }
}

/// Contacts of the area `a` against the first `j` areas of `colliders`.
pub open spec fn spec_row_contacts(
    colliders: Seq<Collider>,
    next: Map<Entity, BodyState>,
    a: Collider,
    j: int,
) -> Seq<CollisionPair>
    decreases j,
{
    if j <= 0 {
        Seq::empty()
    } else {
        let rest = spec_row_contacts(colliders, next, a, j - 1);
        match spec_pair_contact(a, colliders[j - 1], next) {
            Some(c) => rest.push(c),
            None => rest,
        }
    }
}

/// Contacts of the first `i` areas of `colliders` against all of them.
pub open spec fn spec_contacts_upto(
    colliders: Seq<Collider>,
    next: Map<Entity, BodyState>,
    i: int,
) -> Seq<CollisionPair>
    decreases i,
{
    if i <= 0 {
        Seq::empty()
    } else {
        spec_contacts_upto(colliders, next, i - 1) + spec_row_contacts(
            colliders,
            next,
            colliders[i - 1],
            colliders.len() as int,
        )
    }
}

/// Every contact among `colliders` against the predicted states `next`: one
/// for each ordered pair of areas that interact and whose boxes meet, side A
/// in the order of the areas, then side B in that order.
pub open spec fn spec_contacts(colliders: Seq<Collider>, next: Map<Entity, BodyState>) -> Seq<
    CollisionPair,
> {
    spec_contacts_upto(colliders, next, colliders.len() as int)
}

/// Every contact in a row comes from the pairing of `a` with one of the
/// areas that the row covers.
pub proof fn lemma_row_sound(
    colliders: Seq<Collider>,
    next: Map<Entity, BodyState>,
    a: Collider,
    j: int,
    k: int,
)
    requires
        0 <= j <= colliders.len(),
        0 <= k < spec_row_contacts(colliders, next, a, j).len(),
    ensures
        exists|q: int|
            0 <= q < j && #[trigger] spec_pair_contact(a, colliders[q], next) == Some(
                spec_row_contacts(colliders, next, a, j)[k],
            ),
    decreases j,
{
    let rest = spec_row_contacts(colliders, next, a, j - 1);
    if k < rest.len() {
        lemma_row_sound(colliders, next, a, j - 1, k);
        let q = choose|q: int|
            0 <= q < j - 1 && #[trigger] spec_pair_contact(a, colliders[q], next) == Some(rest[k]);
        assert(spec_pair_contact(a, colliders[q], next) == Some(
            spec_row_contacts(colliders, next, a, j)[k],
        ));
    } else {
        assert(spec_pair_contact(a, colliders[j - 1], next) == Some(
            spec_row_contacts(colliders, next, a, j)[k],
        ));
    }
}

/// Every pairing of `a` with an area that the row covers, if it gives a
/// contact, gives one that is in the row.
pub proof fn lemma_row_complete(
    colliders: Seq<Collider>,
    next: Map<Entity, BodyState>,
    a: Collider,
    j: int,
    q: int,
)
    requires
        0 <= q < j <= colliders.len(),
        spec_pair_contact(a, colliders[q], next) is Some,
    ensures
        spec_row_contacts(colliders, next, a, j).contains(
            spec_pair_contact(a, colliders[q], next)->0,
        ),
    decreases j,
{
    let c = spec_pair_contact(a, colliders[q], next)->0;
    let rest = spec_row_contacts(colliders, next, a, j - 1);
    let row = spec_row_contacts(colliders, next, a, j);
    if q < j - 1 {
        lemma_row_complete(colliders, next, a, j - 1, q);
        let k = choose|k: int| 0 <= k < rest.len() && rest[k] == c;
        assert(row[k] == c);
    } else {
        assert(row == rest.push(c));
        assert(row[rest.len() as int] == c);
    }
}

/// Every contact found comes from an ordered pair of areas.
pub proof fn lemma_contacts_sound(
    colliders: Seq<Collider>,
    next: Map<Entity, BodyState>,
    i: int,
    k: int,
)
    requires
        0 <= i <= colliders.len(),
        0 <= k < spec_contacts_upto(colliders, next, i).len(),
    ensures
        exists|p: int, q: int|
            0 <= p < i && 0 <= q < colliders.len() && #[trigger] spec_pair_contact(
                colliders[p],
                colliders[q],
                next,
            ) == Some(spec_contacts_upto(colliders, next, i)[k]),
    decreases i,
{
    let before = spec_contacts_upto(colliders, next, i - 1);
    let c = spec_contacts_upto(colliders, next, i)[k];
    if k < before.len() {
        lemma_contacts_sound(colliders, next, i - 1, k);
        let (p, q) = choose|p: int, q: int|
            0 <= p < i - 1 && 0 <= q < colliders.len() && #[trigger] spec_pair_contact(
                colliders[p],
                colliders[q],
                next,
            ) == Some(before[k]);
        assert(spec_pair_contact(colliders[p], colliders[q], next) == Some(c));
    } else {
        let a = colliders[i - 1];
        let n = colliders.len() as int;
        lemma_row_sound(colliders, next, a, n, k - before.len());
        let q = choose|q: int|
            0 <= q < n && #[trigger] spec_pair_contact(a, colliders[q], next) == Some(
                spec_row_contacts(colliders, next, a, n)[k - before.len()],
            );
        assert(spec_pair_contact(colliders[i - 1], colliders[q], next) == Some(c));
    }
}

/// Every ordered pair of areas that gives a contact gives one that is found.
pub proof fn lemma_contacts_complete(
    colliders: Seq<Collider>,
    next: Map<Entity, BodyState>,
    i: int,
    p: int,
    q: int,
)
    requires
        0 <= p < i <= colliders.len(),
        0 <= q < colliders.len(),
        spec_pair_contact(colliders[p], colliders[q], next) is Some,
    ensures
        spec_contacts_upto(colliders, next, i).contains(
            spec_pair_contact(colliders[p], colliders[q], next)->0,
        ),
    decreases i,
{
    let c = spec_pair_contact(colliders[p], colliders[q], next)->0;
    let before = spec_contacts_upto(colliders, next, i - 1);
    let row = spec_row_contacts(colliders, next, colliders[i - 1], colliders.len() as int);
    let all = spec_contacts_upto(colliders, next, i);
    if p < i - 1 {
        lemma_contacts_complete(colliders, next, i - 1, p, q);
        let k = choose|k: int| 0 <= k < before.len() && before[k] == c;
        assert(all[k] == c);
    } else {
        lemma_row_complete(colliders, next, colliders[p], colliders.len() as int, q);
        let k = choose|k: int| 0 <= k < row.len() && row[k] == c;
        assert(all[before.len() + k] == c);
    }
}

/// Whether two boxes meet, from the transforms that hold their centres and
/// from their half-extents.
pub fn check_aabb_intersects(
    a_transform: &Transform2D,
    b_transform: &Transform2D,
    a_half: Vector2D,
    b_half: Vector2D,
) -> (r: bool)
    ensures
        r == spec_aabb_intersects(a_transform.position, b_transform.position, a_half, b_half),
{
    let a_min = a_transform.position.sub(a_half);
    let a_max = a_transform.position.add(a_half);
    let b_min = b_transform.position.sub(b_half);
    let b_max = b_transform.position.add(b_half);
    let overlap_x = a_min.x.le(b_max.x) && a_max.x.ge(b_min.x);
    let overlap_y = a_min.y.le(b_max.y) && a_max.y.ge(b_min.y);
    overlap_x && overlap_y
}

fn overlap_depth(a_pos: Fixed, a_half: Fixed, b_pos: Fixed, b_half: Fixed) -> (r: Fixed)
    ensures
        r == spec_overlap(a_pos, a_half, b_pos, b_half),
{
    a_pos.add(a_half).min(b_pos.add(b_half)).sub(a_pos.sub(a_half).max(b_pos.sub(b_half)))
}

/// The contact between two areas whose owners are in the given states.
pub fn narrow_phase(a: &Collider, b: &Collider, a_state: &BodyState, b_state: &BodyState) -> (r:
    Option<CollisionPair>)
    ensures
        r == spec_contact(*a, *b, *a_state, *b_state),
{
    let a_pos = a_state.1.position;
    let b_pos = b_state.1.position;
    let a_half = a.area.shape.half_extents().hadamard(a_state.1.get_scale_abs());
    let b_half = b.area.shape.half_extents().hadamard(b_state.1.get_scale_abs());
    if check_aabb_intersects(&a_state.1, &b_state.1, a_half, b_half) {
        let overlap_x = overlap_depth(a_pos.x, a_half.x, b_pos.x, b_half.x);
        let overlap_y = overlap_depth(a_pos.y, a_half.y, b_pos.y, b_half.y);
        let along_x = overlap_x.lt(overlap_y);
        let normal = if along_x {
            if a_pos.x.lt(b_pos.x) {
                Vector2D { x: Fixed::one().neg(), y: Fixed::zero() }
            } else {
                Vector2D { x: Fixed::one(), y: Fixed::zero() }
            }
        } else {
            if a_pos.y.lt(b_pos.y) {
                Vector2D { x: Fixed::zero(), y: Fixed::one().neg() }
            } else {
                Vector2D { x: Fixed::zero(), y: Fixed::one() }
            }
        };
        let penetration = if along_x {
            overlap_x
        } else {
            overlap_y
        };
        Some(
            CollisionPair {
                entity_a: a.info.parent,
                entity_b: b.info.parent,
                a_area_collider: a.id,
                b_area_collider: b.id,
                a_size: a_state.1.get_size(),
                b_size: b_state.1.get_size(),
                next_pos_a: a_pos,
                next_pos_b: b_pos,
                velocity_a: a_state.0.velocity,
                velocity_b: b_state.0.velocity,
                normal,
                penetration,
            },
        )
    } else {
        None
    }
}

fn is_physics(role: AreaRole) -> (r: bool)
    ensures
        r == (role == AreaRole::Physics),
{
    match role {
        AreaRole::Physics => true,
        AreaRole::Trigger => false,
    }
}

/// The contact of the ordered pair `(a, b)` against the predicted states.
fn detect_pair(a: &Collider, b: &Collider, next: &HashMap<Entity, BodyState>) -> (r: Option<
    CollisionPair,
>)
    ensures
        r == spec_pair_contact(*a, *b, next@),
{
    if !is_physics(a.info.role) || !is_physics(b.info.role) || !a.area.active || !b.area.active
        || a.id == b.id || !a.area.senses(&b.area) {
        return None;
    }
    match (next.get(&a.info.parent), next.get(&b.info.parent)) {
        (Some(a_next), Some(b_next)) => narrow_phase(a, b, a_next, b_next),
        _ => None,
    }
}

/// Finds every contact among the areas of `world`, testing each against the
/// predicted states `next` of the owners.
pub fn collision_system(world: &World, next: &HashMap<Entity, BodyState>) -> (r: Vec<
    CollisionPair,
>)
    ensures
        r@ == spec_contacts(world@.colliders, next@),
{
    let n = world.area_count();
    let mut out: Vec<CollisionPair> = Vec::new();
    let mut i: usize = 0;
    while i < n
        invariant
            i <= n,
            n == world.colliders().len(),
            out@ == spec_contacts_upto(world.colliders(), next@, i as int),
        decreases n - i,
    {
        let a = world.area_at(i);
        let ghost before = out@;
        let mut j: usize = 0;
        while j < n
            invariant
                j <= n,
                i < n,
                n == world.colliders().len(),
                a == world.colliders()[i as int],
                out@ == before + spec_row_contacts(world.colliders(), next@, a, j as int),
            decreases n - j,
        {
            let b = world.area_at(j);
            match detect_pair(&a, &b, next) {
                Some(c) => {
                    out.push(c);
                },
                None => {},
            }
            j = j + 1;
        }
        i = i + 1;
    }
    out
}

/// Raw value of the slop: a tenth of a unit.
pub const SLOP: i64 = 100_000;

/// Corrections that do not exceed this on either axis are not applied.
pub open spec fn spec_slop() -> Fixed {
    Fixed { raw: SLOP }
}

/// The translation that separates side A of `c` from a body of type `other`:
/// the whole of `normal * penetration` against a static body, half of it
/// otherwise.
pub open spec fn spec_mtv(c: CollisionPair, other: BodyType) -> Vector2D {
    let whole = c.normal.spec_scale(c.penetration);
    match other {
        BodyType::Static => whole,
        _ => whole.spec_scale(Fixed::spec_half()),
    }
}

/// Whether a correction is large enough on some axis to be applied.
pub open spec fn spec_exceeds_slop(mtv: Vector2D) -> bool {
    mtv.x.spec_abs()@ > spec_slop()@ || mtv.y.spec_abs()@ > spec_slop()@
}

/// `v` without its component along `n`.
pub open spec fn spec_slide(v: Vector2D, n: Vector2D) -> Vector2D {
    v.spec_sub(n.spec_scale(v.spec_dot(n)))
}

/// Whether the contact policy moves a body of type `a` that met one of type
/// `b`, given the areas through which they met.
pub open spec fn spec_responds(a_area: Area2D, b_area: Area2D, a: BodyType, b: BodyType) -> bool {
    &&& a_area.spec_senses(b_area)
    &&& a == BodyType::Rigid
    &&& (b == BodyType::Rigid || b == BodyType::Static)
}

/// The state of side A after the response to `c` against a body of type
/// `other`: moved by the separating translation if that exceeds the slop, and
/// with the velocity along the normal removed.
pub open spec fn spec_response(a: BodyState, other: BodyType, c: CollisionPair) -> BodyState {
    let mtv = spec_mtv(c, other);
    let transform = if spec_exceeds_slop(mtv) {
        a.1.spec_translated(mtv)
    } else {
        a.1
    };
    (PhysicsBody2D { velocity: spec_slide(a.0.velocity, c.normal), ..a.0 }, transform)
}

/// Whether everything that `c` names exists: both areas among `colliders`
/// and both owners in `states`.
pub open spec fn spec_resolvable(
    colliders: Seq<Collider>,
    states: Map<Entity, BodyState>,
    c: CollisionPair,
) -> bool {
    &&& spec_area(
        colliders,
        c.a_area_collider,
        AreaInfo { parent: c.entity_a, role: AreaRole::Physics },
    ) is Some
    &&& spec_area(
        colliders,
        c.b_area_collider,
        AreaInfo { parent: c.entity_b, role: AreaRole::Physics },
    ) is Some
    &&& states.dom().contains(c.entity_a)
    &&& states.dom().contains(c.entity_b)
}

/// The states after the contact `c` has been resolved. Only side A can
/// change.
pub open spec fn spec_resolve_one(
    colliders: Seq<Collider>,
    states: Map<Entity, BodyState>,
    c: CollisionPair,
) -> Map<
    Entity,
    BodyState,
> {
    if spec_resolvable(colliders, states, c) {
        let a_area = spec_area(
            colliders,
            c.a_area_collider,
            AreaInfo { parent: c.entity_a, role: AreaRole::Physics },
        )->0;
        let b_area = spec_area(
            colliders,
            c.b_area_collider,
            AreaInfo { parent: c.entity_b, role: AreaRole::Physics },
        )->0;
        let a = states[c.entity_a];
        let b = states[c.entity_b];
        if spec_responds(a_area, b_area, a.0.body_type, b.0.body_type) {
            states.insert(c.entity_a, spec_response(a, b.0.body_type, c))
        } else {
            states
        }
    } else {
        states
    }
}

/// The states after the contacts have been resolved one after the other, in
/// their order.
pub open spec fn spec_resolve_all(
    colliders: Seq<Collider>,
    states: Map<Entity, BodyState>,
    contacts: Seq<CollisionPair>,
) -> Map<Entity, BodyState>
    decreases contacts.len(),
{
    if contacts.len() == 0 {
        states
    } else {
        spec_resolve_one(
            colliders,
            spec_resolve_all(colliders, states, contacts.drop_last()),
            contacts.last(),
        )
    }
}

/// Resolving contacts changes no key of the states.
pub proof fn lemma_resolve_keeps_domain(
    colliders: Seq<Collider>,
    states: Map<Entity, BodyState>,
    contacts: Seq<CollisionPair>,
)
    ensures
        spec_resolve_all(colliders, states, contacts).dom() =~= states.dom(),
    decreases contacts.len(),
{
    if contacts.len() > 0 {
        lemma_resolve_keeps_domain(colliders, states, contacts.drop_last());
    }
}

/// Resolving contacts changes only velocities and positions: every entry
/// keeps its body type, mass, accumulators, shape, scale and rotation.
pub proof fn lemma_resolve_changes_only_motion(
    colliders: Seq<Collider>,
    states: Map<Entity, BodyState>,
    contacts: Seq<CollisionPair>,
    e: Entity,
)
    requires
        states.dom().contains(e),
    ensures
        spec_resolve_all(colliders, states, contacts).dom().contains(e),
        spec_resolve_all(colliders, states, contacts)[e].0 == (PhysicsBody2D {
            velocity: spec_resolve_all(colliders, states, contacts)[e].0.velocity,
            ..states[e].0
        }),
        spec_resolve_all(colliders, states, contacts)[e].1 == (Transform2D {
            position: spec_resolve_all(colliders, states, contacts)[e].1.position,
            ..states[e].1
        }),
    decreases contacts.len(),
{
    if contacts.len() > 0 {
        lemma_resolve_changes_only_motion(colliders, states, contacts.drop_last(), e);
    }
}

/// Every contact that detection finds names areas and owners that exist.
pub proof fn lemma_found_contacts_resolvable(
    colliders: Seq<Collider>,
    next: Map<Entity, BodyState>,
    k: int,
)
    requires
        0 <= k < spec_contacts(colliders, next).len(),
    ensures
        spec_resolvable(colliders, next, spec_contacts(colliders, next)[k]),
{
    let c = spec_contacts(colliders, next)[k];
    lemma_contacts_sound(colliders, next, colliders.len() as int, k);
    let (p, q) = choose|p: int, q: int|
        0 <= p < colliders.len() && 0 <= q < colliders.len() && #[trigger] spec_pair_contact(
            colliders[p],
            colliders[q],
            next,
        ) == Some(c);
    assert(colliders[p].id == c.a_area_collider && colliders[p].info == AreaInfo {
        parent: c.entity_a,
        role: AreaRole::Physics,
    });
    assert(colliders[q].id == c.b_area_collider && colliders[q].info == AreaInfo {
        parent: c.entity_b,
        role: AreaRole::Physics,
    });
}

fn is_rigid(t: BodyType) -> (r: bool)
    ensures
        r == (t == BodyType::Rigid),
{
    match t {
        BodyType::Rigid => true,
        _ => false,
    }
}

fn is_static(t: BodyType) -> (r: bool)
    ensures
        r == (t == BodyType::Static),
{
    match t {
        BodyType::Static => true,
        _ => false,
    }
}

/// The response of side A to one contact.
pub fn respond(a: &BodyState, other: BodyType, c: &CollisionPair) -> (r: BodyState)
    ensures
        r == spec_response(*a, other, *c),
{
    let whole = c.normal.scale(c.penetration);
    let mtv = if is_static(other) {
        whole
    } else {
        whole.scale(Fixed::half())
    };
    let slop = Fixed::from_raw(SLOP);
    let transform = if mtv.x.abs().gt(slop) || mtv.y.abs().gt(slop) {
        a.1.translated(mtv)
    } else {
        a.1
    };
    let along = a.0.velocity.dot(c.normal);
    let velocity = a.0.velocity.sub(c.normal.scale(along));
    (
        PhysicsBody2D {
            body_type: a.0.body_type,
            velocity,
            mass: a.0.mass,
            force: a.0.force,
            impulse: a.0.impulse,
        },
        transform,
    )
}

fn resolvable(world: &World, states: &HashMap<Entity, BodyState>, c: &CollisionPair) -> (r: bool)
    requires
        world.wf(),
    ensures
        r == spec_resolvable(world@.colliders, states@, *c),
{
    let a_info = AreaInfo { parent: c.entity_a, role: AreaRole::Physics };
    let b_info = AreaInfo { parent: c.entity_b, role: AreaRole::Physics };
    world.get_area_by_info(&c.a_area_collider, a_info).is_some() && world.get_area_by_info(
        &c.b_area_collider,
        b_info,
    ).is_some() && states.contains_key(&c.entity_a) && states.contains_key(&c.entity_b)
}

/// Resolves the contacts in their order, changing the states of the rigid
/// sides only. Fails, changing nothing, when a contact names an area or an
/// owner that does not exist.
pub fn resolve_collisions(
    world: &World,
    next: &mut HashMap<Entity, BodyState>,
    collisions: &Vec<CollisionPair>,
) -> (r: Result<(), WorldError>)
    requires
        world.wf(),
    ensures
        r is Ok <==> forall|k: int|
            0 <= k < collisions@.len() ==> spec_resolvable(
                world@.colliders,
                old(next)@,
                #[trigger] collisions@[k],
            ),
        r is Ok ==> final(next)@ == spec_resolve_all(world@.colliders, old(next)@, collisions@),
        r is Err ==> r == Err::<(), WorldError>(WorldError::NotFound) && final(next)@ == old(
            next,
        )@,
{
    let n = collisions.len();
    let mut k: usize = 0;
    while k < n
        invariant
            k <= n,
            n == collisions@.len(),
            world.wf(),
            next@ == old(next)@,
            forall|i: int|
                0 <= i < k ==> spec_resolvable(world@.colliders, next@, #[trigger] collisions@[i]),
        decreases n - k,
    {
        if !resolvable(world, next, &collisions[k]) {
            return Err(WorldError::NotFound);
        }
        k = k + 1;
    }
    k = 0;
    while k < n
        invariant
            k <= n,
            n == collisions@.len(),
            world.wf(),
            next@.dom() == old(next)@.dom(),
            forall|i: int|
                0 <= i < n ==> spec_resolvable(
                    world@.colliders,
                    old(next)@,
                    #[trigger] collisions@[i],
                ),
            next@ == spec_resolve_all(world@.colliders, old(next)@, collisions@.take(k as int)),
        decreases n - k,
    {
        let c = collisions[k];
        proof {
            assert(collisions@.take(k as int + 1).drop_last() =~= collisions@.take(k as int));
            assert(collisions@.take(k as int + 1).last() == c);
            assert(spec_resolvable(world@.colliders, old(next)@, collisions@[k as int]));
        }
        let a_area = world.get_area_by_info(
            &c.a_area_collider,
            AreaInfo { parent: c.entity_a, role: AreaRole::Physics },
        );
        let b_area = world.get_area_by_info(
            &c.b_area_collider,
            AreaInfo { parent: c.entity_b, role: AreaRole::Physics },
        );
        let a_state = next.get(&c.entity_a);
        let b_state = next.get(&c.entity_b);
        match (a_area, b_area, a_state, b_state) {
            (Some(a_area), Some(b_area), Some(a), Some(b)) => {
                let a: BodyState = *a;
                let b_type = b.0.body_type;
                if a_area.senses(&b_area) && is_rigid(a.0.body_type) && (is_rigid(b_type)
                    || is_static(b_type)) {
                    let moved = respond(&a, b_type, &c);
                    next.insert(c.entity_a, moved);
                }
            },
            _ => {},
        }
        k = k + 1;
    }
    proof {
        assert(collisions@.take(n as int) =~= collisions@);
    }
    Ok(())
}

/// Filtering is directional. Where the mask of one area does not meet the
/// layer of another, no contact has the first as side A and the second as
/// side B, whatever the second's mask and the first's layer are.
pub proof fn lemma_unsensed_pair_gives_no_contact(
    colliders: Seq<Collider>,
    next: Map<Entity, BodyState>,
    p: int,
    q: int,
    k: int,
)
    requires
        forall|i: int, j: int|
            0 <= i < j < colliders.len() ==> (#[trigger] colliders[i]).id != (
            #[trigger] colliders[j]).id,
        0 <= p < colliders.len(),
        0 <= q < colliders.len(),
        !colliders[p].area.spec_senses(colliders[q].area),
        0 <= k < spec_contacts(colliders, next).len(),
    ensures
        !(spec_contacts(colliders, next)[k].a_area_collider == colliders[p].id && spec_contacts(
            colliders,
            next,
        )[k].b_area_collider == colliders[q].id),
{
    let c = spec_contacts(colliders, next)[k];
    lemma_contacts_sound(colliders, next, colliders.len() as int, k);
    let (i, j) = choose|i: int, j: int|
        0 <= i < colliders.len() && 0 <= j < colliders.len() && #[trigger] spec_pair_contact(
            colliders[i],
            colliders[j],
            next,
        ) == Some(c);
    if c.a_area_collider == colliders[p].id && c.b_area_collider == colliders[q].id {
        assert(colliders[i].id == colliders[p].id);
        assert(colliders[j].id == colliders[q].id);
        if i < p {
            assert(colliders[i].id != colliders[p].id);
        } else if p < i {
            assert(colliders[p].id != colliders[i].id);
        }
        if j < q {
            assert(colliders[j].id != colliders[q].id);
        } else if q < j {
            assert(colliders[q].id != colliders[j].id);
        }
        assert(spec_interacts(colliders[p], colliders[q]));
    }
}

/// Every contact that detection finds obeys the filters: side A and side B
/// are two different active physics areas, and the mask of A meets the layer
/// of B.
pub proof fn lemma_contacts_obey_filters(
    colliders: Seq<Collider>,
    next: Map<Entity, BodyState>,
    k: int,
)
    requires
        0 <= k < spec_contacts(colliders, next).len(),
    ensures
        exists|p: int, q: int|
            0 <= p < colliders.len() && 0 <= q < colliders.len() && spec_interacts(
                #[trigger] colliders[p],
                #[trigger] colliders[q],
            ) && spec_contacts(colliders, next)[k].a_area_collider == colliders[p].id
                && spec_contacts(colliders, next)[k].b_area_collider == colliders[q].id
                && spec_contacts(colliders, next)[k].entity_a == colliders[p].info.parent
                && spec_contacts(colliders, next)[k].entity_b == colliders[q].info.parent,
{
    let c = spec_contacts(colliders, next)[k];
    lemma_contacts_sound(colliders, next, colliders.len() as int, k);
    let (p, q) = choose|p: int, q: int|
        0 <= p < colliders.len() && 0 <= q < colliders.len() && #[trigger] spec_pair_contact(
            colliders[p],
            colliders[q],
            next,
        ) == Some(c);
    assert(spec_interacts(colliders[p], colliders[q]));
}

/// A body that is not rigid comes out of resolution as it went in: contacts
/// move and slow rigid bodies only.
pub proof fn lemma_only_rigid_bodies_respond(
    colliders: Seq<Collider>,
    states: Map<Entity, BodyState>,
    contacts: Seq<CollisionPair>,
    e: Entity,
)
    requires
        states.dom().contains(e),
        states[e].0.body_type != BodyType::Rigid,
    ensures
        spec_resolve_all(colliders, states, contacts)[e] == states[e],
    decreases contacts.len(),
{
    if contacts.len() > 0 {
        lemma_only_rigid_bodies_respond(colliders, states, contacts.drop_last(), e);
    }
}

/// A contact changes at most the state of its side A.
pub proof fn lemma_contact_changes_side_a_only(
    colliders: Seq<Collider>,
    states: Map<Entity, BodyState>,
    c: CollisionPair,
    e: Entity,
)
    requires
        states.dom().contains(e),
        e != c.entity_a,
    ensures
        spec_resolve_one(colliders, states, c)[e] == states[e],
{
}

/// A rigid body that meets a static one through areas that sense each other
/// takes the whole separating translation, `normal * penetration`, when that
/// exceeds the slop, and loses its velocity along the normal.
pub proof fn lemma_rigid_against_static_takes_whole_translation(
    colliders: Seq<Collider>,
    states: Map<Entity, BodyState>,
    c: CollisionPair,
)
    requires
        spec_resolvable(colliders, states, c),
        states[c.entity_a].0.body_type == BodyType::Rigid,
        states[c.entity_b].0.body_type == BodyType::Static,
        spec_area(
            colliders,
            c.a_area_collider,
            AreaInfo { parent: c.entity_a, role: AreaRole::Physics },
        )->0.spec_senses(
            spec_area(
                colliders,
                c.b_area_collider,
                AreaInfo { parent: c.entity_b, role: AreaRole::Physics },
            )->0,
        ),
        spec_exceeds_slop(c.normal.spec_scale(c.penetration)),
    ensures
        spec_resolve_one(colliders, states, c)[c.entity_a].1.position
            == states[c.entity_a].1.position.spec_add(c.normal.spec_scale(c.penetration)),
        spec_resolve_one(colliders, states, c)[c.entity_a].0.velocity == spec_slide(
            states[c.entity_a].0.velocity,
            c.normal,
        ),
        spec_resolve_one(colliders, states, c)[c.entity_b] == states[c.entity_b],
{
}

/// A contact whose separating translation stays within the slop on both
/// axes moves nothing.
pub proof fn lemma_within_slop_keeps_positions(
    colliders: Seq<Collider>,
    states: Map<Entity, BodyState>,
    c: CollisionPair,
    e: Entity,
)
    requires
        states.dom().contains(e),
        !spec_exceeds_slop(c.normal.spec_scale(c.penetration)),
    ensures
        spec_resolve_one(colliders, states, c).dom().contains(e),
        spec_resolve_one(colliders, states, c)[e].1 == states[e].1,
{
    let whole = c.normal.spec_scale(c.penetration);
    lemma_half_is_no_larger(whole.x);
    lemma_half_is_no_larger(whole.y);
}

/// Whether `n` is one of the four unit vectors along an axis.
pub open spec fn spec_is_axis_unit(n: Vector2D) -> bool {
    ||| n == Vector2D { x: Fixed::spec_one(), y: Fixed::spec_zero() }
    ||| n == Vector2D { x: Fixed::spec_one().spec_neg(), y: Fixed::spec_zero() }
    ||| n == Vector2D { x: Fixed::spec_zero(), y: Fixed::spec_one() }
    ||| n == Vector2D { x: Fixed::spec_zero(), y: Fixed::spec_one().spec_neg() }
}

/// A contact between valid areas has a penetration that is not negative and
/// a unit normal along an axis.
pub proof fn lemma_contact_geometry(a: Collider, b: Collider, a_state: BodyState, b_state: BodyState)
    requires
        a.area.wf(),
        b.area.wf(),
        spec_contact(a, b, a_state, b_state) is Some,
    ensures
        spec_contact(a, b, a_state, b_state)->0.penetration@ >= 0,
        spec_is_axis_unit(spec_contact(a, b, a_state, b_state)->0.normal),
{
    let a_shape = a.area.shape.spec_half_extents();
    let b_shape = b.area.shape.spec_half_extents();
    let a_scale = a_state.1.spec_scale_abs();
    let b_scale = b_state.1.spec_scale_abs();
    lemma_product_not_negative(a_shape.x, a_scale.x);
    lemma_product_not_negative(a_shape.y, a_scale.y);
    lemma_product_not_negative(b_shape.x, b_scale.x);
    lemma_product_not_negative(b_shape.y, b_scale.y);
}

/// Sliding along a unit normal on an axis removes the velocity along that
/// axis and keeps the velocity along the other. The one velocity left out is
/// the most negative number that the scalar type holds, whose negation it
/// cannot hold.
pub proof fn lemma_slide_along_axis(v: Vector2D, n: Vector2D)
    requires
        spec_is_axis_unit(n),
        v.x@ > i64::MIN,
        v.y@ > i64::MIN,
    ensures
        n.x@ != 0 ==> spec_slide(v, n) == (Vector2D { x: Fixed::spec_zero(), y: v.y }),
        n.y@ != 0 ==> spec_slide(v, n) == (Vector2D { x: v.x, y: Fixed::spec_zero() }),
{
    lemma_unit_products(v.x);
    lemma_unit_products(v.y);
    lemma_zero_absorbs(v.x);
    lemma_zero_absorbs(v.y);
    let d = v.spec_dot(n);
    lemma_unit_products(d);
    lemma_zero_absorbs(d);
}

/// Among valid areas, every contact that detection finds has a penetration
/// that is not negative and a unit normal along an axis.
pub proof fn lemma_found_contacts_are_sound(
    colliders: Seq<Collider>,
    next: Map<Entity, BodyState>,
    k: int,
)
    requires
        forall|i: int| 0 <= i < colliders.len() ==> (#[trigger] colliders[i]).area.wf(),
        0 <= k < spec_contacts(colliders, next).len(),
    ensures
        spec_contacts(colliders, next)[k].penetration@ >= 0,
        spec_is_axis_unit(spec_contacts(colliders, next)[k].normal),
{
    let c = spec_contacts(colliders, next)[k];
    lemma_contacts_sound(colliders, next, colliders.len() as int, k);
    let (p, q) = choose|p: int, q: int|
        0 <= p < colliders.len() && 0 <= q < colliders.len() && #[trigger] spec_pair_contact(
            colliders[p],
            colliders[q],
            next,
        ) == Some(c);
    assert(colliders[p].area.wf());
    assert(colliders[q].area.wf());
    lemma_contact_geometry(
        colliders[p],
        colliders[q],
        next[colliders[p].info.parent],
        next[colliders[q].info.parent],
    );
}

} // verus!
