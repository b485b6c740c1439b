//! The entity store: transforms, bodies and areas keyed by entity.

use crate::area::{Area2D, AreaInfo, Collider, Entity};
use crate::body::{BodyState, PhysicsBody2D};
use crate::transform::Transform2D;
use std::collections::HashMap;
use vstd::prelude::*;
use vstd::std_specs::iter::IteratorSpec;

verus! {

/// Why an operation on the world was refused.
#[derive(Clone, Copy, Debug, PartialEq, Eq, Structural)]
pub enum WorldError {
    /// The entity, or the component asked for, does not exist.
    NotFound,
    /// The body's mass is not positive.
    InvalidBody,
    /// The area's shape has a negative half-extent.
    InvalidArea,
    /// Every identifier has been handed out.
    Exhausted,
}

/// Owner of every component. Areas are kept in the order in which they were
/// added, which is also the ascending order of their identifiers.
pub struct World {
    pub(crate) next_entity: Entity,
    pub(crate) transforms_2d: HashMap<Entity, Transform2D>,
    pub(crate) physics_bodies_2d: HashMap<Entity, PhysicsBody2D>,
    pub(crate) areas: Vec<Collider>,
}

/// What a world holds, as mathematical maps and a sequence.
pub struct WorldView {
    /// The identifier that the next spawn returns.
    pub next_id: Entity,
    pub transforms: Map<Entity, Transform2D>,
    pub bodies: Map<Entity, PhysicsBody2D>,
    /// The areas in the order in which they were added.
    pub colliders: Seq<Collider>,
}

/// Position of the area with identifier `id` and tag `info` in `areas`, if
/// there is one.
pub open spec fn spec_area_position(areas: Seq<Collider>, id: Entity, info: AreaInfo) -> Option<
    int,
> {
    if exists|i: int| 0 <= i < areas.len() && areas[i].id == id && areas[i].info == info {
        Some(choose|i: int| 0 <= i < areas.len() && areas[i].id == id && areas[i].info == info)
    } else {
        None
    }
}

/// Union of the masks of the active areas tagged `info`.
pub open spec fn spec_group_masks(areas: Seq<Collider>, info: AreaInfo) -> u8
    decreases areas.len(),
{
    if areas.len() == 0 {
        0
    } else {
        let rest = spec_group_masks(areas.drop_last(), info);
        let last = areas.last();
        if last.info == info && last.area.active {
            rest | last.area.masks
        } else {
            rest
        }
    }
}

/// Union of the layers of the active areas tagged `info`.
pub open spec fn spec_group_layers(areas: Seq<Collider>, info: AreaInfo) -> u8
    decreases areas.len(),
{
    if areas.len() == 0 {
        0
    } else {
        let rest = spec_group_layers(areas.drop_last(), info);
        let last = areas.last();
        if last.info == info && last.area.active {
            rest | last.area.layers
        } else {
            rest
        }
    }
}

/// The areas of `areas` that do not belong to `entity`, in their order.
pub open spec fn spec_areas_without(areas: Seq<Collider>, entity: Entity) -> Seq<Collider>
    decreases areas.len(),
{
    if areas.len() == 0 {
        areas
    } else {
        let rest = spec_areas_without(areas.drop_last(), entity);
        if areas.last().info.parent != entity {
            rest.push(areas.last())
        } else {
            rest
        }
    }
}

/// The area of `areas` with identifier `id` and tag `info`, if there is one.
pub open spec fn spec_area(areas: Seq<Collider>, id: Entity, info: AreaInfo) -> Option<Area2D> {
    match spec_area_position(areas, id, info) {
        Some(i) => Some(areas[i].area),
        None => None,
    }
}

impl WorldView {
    /// Every body has a positive mass and a transform, every area is valid,
    /// no component belongs to an identifier that was never handed out, and
    /// the areas stand in ascending order of their identifiers.
    pub open spec fn wf(self) -> bool {
        &&& forall|e: Entity|
            #![trigger self.bodies.dom().contains(e)]
            self.bodies.dom().contains(e) ==> self.transforms.dom().contains(e)
                && self.bodies[e].wf()
        &&& forall|e: Entity|
            #![trigger self.transforms.dom().contains(e)]
            self.transforms.dom().contains(e) ==> e < self.next_id
        &&& forall|i: int|
            #![trigger self.colliders[i]]
            0 <= i < self.colliders.len() ==> self.colliders[i].id < self.next_id
                && self.colliders[i].info.parent < self.next_id && self.colliders[i].area.wf()
        &&& forall|i: int, j: int|
            #![trigger self.colliders[i], self.colliders[j]]
            0 <= i < j < self.colliders.len() ==> self.colliders[i].id < self.colliders[j].id
    }

    /// Whether some area belongs to `entity`.
    pub open spec fn spec_owns_area(self, entity: Entity) -> bool {
        exists|i: int|
            0 <= i < self.colliders.len() && (#[trigger] self.colliders[i]).info.parent == entity
    }

    /// Bits shared by the masks of the group `a` and the layers of the group
    /// `b`, each taken over its active areas.
    pub open spec fn spec_masks_overlap_layers(self, a: AreaInfo, b: AreaInfo) -> u8 {
        spec_group_masks(self.colliders, a) & spec_group_layers(self.colliders, b)
    }

    /// The areas after every area of `entity` has been given the filters
    /// `masks` and `layers`.
    pub open spec fn spec_refiltered(self, entity: Entity, masks: u8, layers: u8) -> Seq<
        Collider,
    > {
        Seq::new(
            self.colliders.len(),
            |i: int|
                if self.colliders[i].info.parent == entity {
                    Collider {
                        area: Area2D { masks, layers, ..self.colliders[i].area },
                        ..self.colliders[i]
                    }
                } else {
                    self.colliders[i]
                },
        )
    }

    /// The areas after every area of `entity` has been switched on or off.
    pub open spec fn spec_toggled(self, entity: Entity, active: bool) -> Seq<Collider> {
        Seq::new(
            self.colliders.len(),
            |i: int|
                if self.colliders[i].info.parent == entity {
                    Collider {
                        area: Area2D { active, ..self.colliders[i].area },
                        ..self.colliders[i]
                    }
                } else {
                    self.colliders[i]
                },
        )
    }

    /// This world without the components of `entity`: its transform, its
    /// body and its areas.
    pub open spec fn spec_without(self, entity: Entity) -> WorldView {
        WorldView {
            next_id: self.next_id,
            transforms: self.transforms.remove(entity),
            bodies: self.bodies.remove(entity),
            colliders: spec_areas_without(self.colliders, entity),
        }
    }

    /// Whether `states` can replace the stored state of this world: each
    /// entry belongs to an entity that has a body, and holds a valid body.
    pub open spec fn spec_accepts(self, states: Map<Entity, BodyState>) -> bool {
        forall|e: Entity|
            #![trigger states.dom().contains(e)]
            states.dom().contains(e) ==> self.bodies.dom().contains(e) && states[e].0.wf()
    }

    /// This world after `states` has replaced the stored body and transform
    /// of every entity that `states` holds.
    pub open spec fn spec_committed(self, states: Map<Entity, BodyState>) -> WorldView {
        WorldView {
            bodies: Map::new(
                |e: Entity| self.bodies.dom().contains(e),
                |e: Entity|
                    if states.dom().contains(e) {
                        states[e].0
                    } else {
                        self.bodies[e]
                    },
            ),
            transforms: Map::new(
                |e: Entity| self.transforms.dom().contains(e),
                |e: Entity|
                    if states.dom().contains(e) {
                        states[e].1
                    } else {
                        self.transforms[e]
                    },
            ),
            ..self
        }
    }
}

impl View for World {
    type V = WorldView;

    open spec fn view(&self) -> WorldView {
        WorldView {
            next_id: self.next_id(),
            transforms: self.transforms(),
            bodies: self.bodies(),
            colliders: self.colliders(),
        }
    }
}

impl World {
    /// The identifier that the next spawn returns.
    pub open(crate) spec fn next_id(&self) -> Entity {
        self.next_entity
    }

    pub open(crate) spec fn transforms(&self) -> Map<Entity, Transform2D> {
        self.transforms_2d@
    }

    pub open(crate) spec fn bodies(&self) -> Map<Entity, PhysicsBody2D> {
        self.physics_bodies_2d@
    }

    /// The areas in the order in which they were added.
    pub open(crate) spec fn colliders(&self) -> Seq<Collider> {
        self.areas@
    }

    /// The invariant of the store, stated on its view.
    pub open spec fn wf(&self) -> bool {
        self@.wf()
    }

    /// An empty world.
    pub fn new() -> (w: World)
        ensures
            w.wf(),
            w@.next_id == 0,
            w@.transforms == Map::<Entity, Transform2D>::empty(),
            w@.bodies == Map::<Entity, PhysicsBody2D>::empty(),
            w@.colliders == Seq::<Collider>::empty(),
    {
        World {
            next_entity: 0,
            transforms_2d: HashMap::new(),
            physics_bodies_2d: HashMap::new(),
            areas: Vec::new(),
        }
    }

    /// An empty world whose first identifier is `first`.
    pub fn with_first_id(first: Entity) -> (w: World)
        ensures
            w.wf(),
            w@.next_id == first,
            w@.transforms == Map::<Entity, Transform2D>::empty(),
            w@.bodies == Map::<Entity, PhysicsBody2D>::empty(),
            w@.colliders == Seq::<Collider>::empty(),
    {
        World {
            next_entity: first,
            transforms_2d: HashMap::new(),
            physics_bodies_2d: HashMap::new(),
            areas: Vec::new(),
        }
    }

    /// Hands out an identifier that no component uses and that was never
    /// handed out before.
    pub fn new_entity(&mut self) -> (r: Result<Entity, WorldError>)
        requires
            old(self).wf(),
        ensures
            final(self).wf(),
            final(self)@.transforms == old(self)@.transforms,
            final(self)@.bodies == old(self)@.bodies,
            final(self)@.colliders == old(self)@.colliders,
            old(self)@.next_id < u32::MAX ==> r == Ok::<Entity, WorldError>(old(self)@.next_id)
                && final(self)@.next_id == old(self)@.next_id + 1,
            r is Ok ==> !final(self)@.transforms.dom().contains(r->Ok_0) && !final(self)@.bodies.dom().contains(r->Ok_0) && forall|i: int|
                0 <= i < final(self)@.colliders.len() ==> (#[trigger] final(self)@.colliders[i]).id != r->Ok_0 && final(self)@.colliders[i].info.parent != r->Ok_0,
            old(self)@.next_id == u32::MAX ==> r == Err::<Entity, WorldError>(
                WorldError::Exhausted,
            ) && final(self)@.next_id == old(self)@.next_id,
    {
        if self.next_entity == u32::MAX {
            Err(WorldError::Exhausted)
        } else {
            let id = self.next_entity;
            self.next_entity = id + 1;
            assert(self.transforms() == old(self)@.transforms);
            assert(self.bodies() == old(self)@.bodies);
            Ok(id)
        }
    }

    /// Gives `entity` the transform `transform`, replacing the one it had.
    pub fn insert_transform(&mut self, entity: Entity, transform: Transform2D) -> (r: Result<
        (),
        WorldError,
    >)
        requires
            old(self).wf(),
        ensures
            final(self).wf(),
            final(self)@.next_id == old(self)@.next_id,
            final(self)@.bodies == old(self)@.bodies,
            final(self)@.colliders == old(self)@.colliders,
            entity < old(self)@.next_id ==> r is Ok && final(self)@.transforms == old(self)@.transforms.insert(entity, transform),
            entity >= old(self)@.next_id ==> r == Err::<(), WorldError>(WorldError::NotFound)
                && final(self)@.transforms == old(self)@.transforms,
    {
        if entity < self.next_entity {
            self.transforms_2d.insert(entity, transform);
            proof {
                assert(self.bodies() == old(self)@.bodies);
                assert forall|e: Entity| self.transforms().dom().contains(e) implies e
                    < self.next_id() by {
                    if e != entity {
                        assert(old(self)@.transforms.dom().contains(e));
                    }
                }
                assert forall|e: Entity| self.bodies().dom().contains(e) implies self.transforms().dom().contains(
                    e,
                ) && self.bodies()[e].wf() by {
                    assert(old(self)@.bodies.dom().contains(e));
                }
            }
            Ok(())
        } else {
            Err(WorldError::NotFound)
        }
    }

    /// Gives `entity` the body `body`, replacing the one it had. The entity
    /// needs a transform first.
    pub fn insert_body(&mut self, entity: Entity, body: PhysicsBody2D) -> (r: Result<
        (),
        WorldError,
    >)
        requires
            old(self).wf(),
        ensures
            final(self).wf(),
            final(self)@.next_id == old(self)@.next_id,
            final(self)@.transforms == old(self)@.transforms,
            final(self)@.colliders == old(self)@.colliders,
            r is Ok <==> old(self)@.transforms.contains_key(entity) && body.wf(),
            r is Ok ==> final(self)@.bodies == old(self)@.bodies.insert(entity, body),
            r is Err ==> final(self)@.bodies == old(self)@.bodies,
            !old(self)@.transforms.contains_key(entity) ==> r == Err::<(), WorldError>(
                WorldError::NotFound,
            ),
            old(self)@.transforms.contains_key(entity) && !body.wf() ==> r == Err::<
                (),
                WorldError,
            >(WorldError::InvalidBody),
    {
        if !self.transforms_2d.contains_key(&entity) {
            Err(WorldError::NotFound)
        } else if body.mass.raw <= 0 {
            Err(WorldError::InvalidBody)
        } else {
            self.physics_bodies_2d.insert(entity, body);
            proof {
                assert(self.transforms() == old(self)@.transforms);
                assert forall|e: Entity| self.bodies().dom().contains(e) implies self.transforms().dom().contains(
                    e,
                ) && self.bodies()[e].wf() by {
                    if e != entity {
                        assert(old(self)@.bodies.dom().contains(e));
                    }
                }
            }
            Ok(())
        }
    }

    /// Attaches `area` to the entity `info.parent` under a fresh identifier,
    /// after every area the world already holds.
    pub fn add_area(&mut self, info: AreaInfo, area: Area2D) -> (r: Result<Entity, WorldError>)
        requires
            old(self).wf(),
        ensures
            final(self).wf(),
            final(self)@.transforms == old(self)@.transforms,
            final(self)@.bodies == old(self)@.bodies,
            r is Ok <==> info.parent < old(self)@.next_id && area.wf() && old(self)@.next_id
                < u32::MAX,
            r is Ok ==> r == Ok::<Entity, WorldError>(old(self)@.next_id),
            info.parent >= old(self)@.next_id ==> r == Err::<Entity, WorldError>(
                WorldError::NotFound,
            ),
            info.parent < old(self)@.next_id && !area.wf() ==> r == Err::<Entity, WorldError>(
                WorldError::InvalidArea,
            ),
            info.parent < old(self)@.next_id && area.wf() && old(self)@.next_id == u32::MAX
                ==> r == Err::<Entity, WorldError>(WorldError::Exhausted),
            r is Err ==> final(self)@.colliders == old(self)@.colliders && final(self)@.next_id
                == old(self)@.next_id,
            r is Ok ==> final(self)@.next_id == old(self)@.next_id + 1 && final(self)@.colliders == old(self)@.colliders.push(
                Collider { id: old(self)@.next_id, info, area },
            ),
    {
        if info.parent >= self.next_entity {
            Err(WorldError::NotFound)
        } else if !area.is_valid() {
            Err(WorldError::InvalidArea)
        } else if self.next_entity == u32::MAX {
            Err(WorldError::Exhausted)
        } else {
            let id = self.next_entity;
            self.next_entity = id + 1;
            self.areas.push(Collider { id, info, area });
            assert(self.transforms() == old(self)@.transforms);
            assert(self.bodies() == old(self)@.bodies);
            Ok(id)
        }
    }

    /// The transform of `entity`, if it has one.
    pub fn get_transform(&self, entity: Entity) -> (r: Option<Transform2D>)
        ensures
            r == self@.transforms.get(entity),
    {
        match self.transforms_2d.get(&entity) {
            Some(t) => Some(*t),
            None => None,
        }
    }

    /// The body of `entity`, if it has one.
    pub fn get_body(&self, entity: Entity) -> (r: Option<PhysicsBody2D>)
        ensures
            r == self@.bodies.get(entity),
    {
        match self.physics_bodies_2d.get(&entity) {
            Some(b) => Some(*b),
            None => None,
        }
    }

    /// The area with identifier `area_id` and tag `info`, if the world holds
    /// it.
    pub fn get_area_by_info(&self, area_id: &Entity, info: AreaInfo) -> (r: Option<Area2D>)
        requires
            self.wf(),
        ensures
            r == spec_area(self@.colliders, *area_id, info),
    {
        let n = self.areas.len();
        let mut k: usize = 0;
        while k < n
            invariant
                k <= n,
                n == self.colliders().len(),
                self.wf(),
                forall|i: int|
                    0 <= i < k ==> !(self.colliders()[i].id == *area_id && self.colliders()[i].info
                        == info),
            decreases n - k,
        {
            let c = self.areas[k];
            if c.id == *area_id && c.info == info {
                proof {
                    let found = spec_area_position(self.colliders(), *area_id, info);
                    assert(self.colliders()[k as int].id == *area_id);
                    assert(found is Some);
                    let i = found->0;
                    if i < k {
                        assert(self.colliders()[i].id < self.colliders()[k as int].id);
                    } else if i > k {
                        assert(self.colliders()[k as int].id < self.colliders()[i].id);
                    }
                }
                return Some(c.area);
            }
            k = k + 1;
        }
        None
    }

    /// Replaces the stored body and transform of every entity in `states` by
    /// the entry of `states`. Nothing else changes.
    pub fn commit(&mut self, states: &HashMap<Entity, BodyState>)
        requires
            old(self).wf(),
            old(self)@.spec_accepts(states@),
        ensures
            final(self).wf(),
            final(self)@ == old(self)@.spec_committed(states@),
    {
        let ghost keys = states.keys().remaining();
        let ghost mut done: Set<Entity> = Set::empty();
        for k in it: states.keys()
            invariant
                it.seq() == keys,
                keys.unref().to_set() == states@.dom(),
                old(self).wf(),
                old(self)@.spec_accepts(states@),
                self.next_id() == old(self)@.next_id,
                self.colliders() == old(self)@.colliders,
                self.bodies().dom() == old(self)@.bodies.dom(),
                self.transforms().dom() == old(self)@.transforms.dom(),
                forall|j: int| 0 <= j < it.index() ==> done.contains(#[trigger] keys.unref()[j]),
                forall|e: Entity| #[trigger] done.contains(e) ==> states@.dom().contains(e),
                forall|e: Entity|
                    #![trigger self.bodies()[e]]
                    self.bodies().dom().contains(e) ==> self.bodies()[e] == if done.contains(e) {
                        states@[e].0
                    } else {
                        old(self)@.bodies[e]
                    },
                forall|e: Entity|
                    #![trigger self.transforms()[e]]
                    self.transforms().dom().contains(e) ==> self.transforms()[e] == if done.contains(
                        e,
                    ) {
                        states@[e].1
                    } else {
                        old(self)@.transforms[e]
                    },
        {
            let ghost seen = done;
            proof {
                assert(keys.unref()[it.index() as int] == *k);
                assert(keys.unref().to_set().contains(*k));
            }
            match states.get(k) {
                Some(state) => {
                    self.physics_bodies_2d.insert(*k, state.0);
                    self.transforms_2d.insert(*k, state.1);
                    proof {
                        done = seen.insert(*k);
                        assert(old(self)@.bodies.dom().contains(*k));
                        assert(old(self)@.transforms.dom().contains(*k));
                        assert(self.bodies().dom() =~= old(self)@.bodies.dom());
                        assert(self.transforms().dom() =~= old(self)@.transforms.dom());
                    }
                },
                None => {},
            }
        }
        proof {
            assert forall|e: Entity| states@.dom().contains(e) implies done.contains(e) by {
                assert(keys.unref().to_set().contains(e));
                let j = choose|j: int| 0 <= j < keys.unref().len() && keys.unref()[j] == e;
                assert(done.contains(keys.unref()[j]));
            }
            assert(self.bodies() =~= old(self)@.spec_committed(states@).bodies);
            assert(self.transforms() =~= old(self)@.spec_committed(states@).transforms);
            assert forall|e: Entity| self.bodies().dom().contains(e) implies self.transforms().dom().contains(
                e,
            ) && self.bodies()[e].wf() by {
                assert(old(self)@.bodies.dom().contains(e));
            }
            assert forall|e: Entity| self.transforms().dom().contains(e) implies e
                < self.next_id() by {
                assert(old(self)@.transforms.dom().contains(e));
            }
        }
    }

    /// Bits shared by the masks of the group `a` and the layers of the group
    /// `b`; zero when no area of `a` can react to an area of `b`.
    pub fn masks_overlap_layers(&self, a: AreaInfo, b: AreaInfo) -> (r: u8)
        ensures
            r == self@.spec_masks_overlap_layers(a, b),
    {
        let n = self.areas.len();
        let mut masks: u8 = 0;
        let mut layers: u8 = 0;
        let mut k: usize = 0;
        while k < n
            invariant
                k <= n,
                n == self.colliders().len(),
                masks == spec_group_masks(self.colliders().take(k as int), a),
                layers == spec_group_layers(self.colliders().take(k as int), b),
            decreases n - k,
        {
            let c = self.areas[k];
            proof {
                assert(self.colliders().take(k as int + 1).drop_last() =~= self.colliders().take(
                    k as int,
                ));
            }
            if c.area.active && c.info == a {
                masks = masks | c.area.masks;
            }
            if c.area.active && c.info == b {
                layers = layers | c.area.layers;
            }
            k = k + 1;
        }
        proof {
            assert(self.colliders().take(n as int) =~= self.colliders());
        }
        masks & layers
    }

    /// Gives every area of `id` the filters `masks` and `layers`.
    pub fn update_area_masks_and_layers(&mut self, id: &Entity, masks: u8, layers: u8) -> (r:
        Result<(), WorldError>)
        requires
            old(self).wf(),
        ensures
            final(self).wf(),
            r is Ok <==> old(self)@.spec_owns_area(*id),
            r is Err ==> r == Err::<(), WorldError>(WorldError::NotFound),
            final(self)@ == (WorldView {
                colliders: old(self)@.spec_refiltered(*id, masks, layers),
                ..old(self)@
            }),
    {
        let n = self.areas.len();
        let mut found = false;
        let mut k: usize = 0;
        while k < n
            invariant
                k <= n,
                n == self.colliders().len(),
                n == old(self)@.colliders.len(),
                old(self).wf(),
                self.next_id() == old(self)@.next_id,
                self.transforms() == old(self)@.transforms,
                self.bodies() == old(self)@.bodies,
                found <==> exists|i: int|
                    0 <= i < k && (#[trigger] old(self)@.colliders[i]).info.parent == *id,
                forall|i: int|
                    0 <= i < k ==> #[trigger] self.colliders()[i] == old(self)@.spec_refiltered(
                        *id,
                        masks,
                        layers,
                    )[i],
                forall|i: int|
                    k <= i < n ==> #[trigger] self.colliders()[i] == old(self)@.colliders[i],
            decreases n - k,
        {
            let c = self.areas[k];
            if c.info.parent == *id {
                found = true;
                self.areas.set(
                    k,
                    Collider {
                        id: c.id,
                        info: c.info,
                        area: Area2D {
                            shape: c.area.shape,
                            offset: c.area.offset,
                            masks,
                            layers,
                            active: c.area.active,
                        },
                    },
                );
            }
            proof {
                assert(old(self)@.colliders[k as int].info.parent == *id ==> found);
            }
            k = k + 1;
        }
        proof {
            assert(self.colliders() =~= old(self)@.spec_refiltered(*id, masks, layers));
            assert forall|i: int| 0 <= i < self.colliders().len() implies (
            #[trigger] self.colliders()[i]).id == old(self)@.colliders[i].id
                && self.colliders()[i].info == old(self)@.colliders[i].info
                && self.colliders()[i].area.wf() by {
                assert(old(self)@.colliders[i].area.wf());
            }
        }
        if found {
            Ok(())
        } else {
            Err(WorldError::NotFound)
        }
    }

    /// Switches every area of `id` on or off.
    pub fn toggle_area(&mut self, id: &Entity, active: bool) -> (r: Result<(), WorldError>)
        requires
            old(self).wf(),
        ensures
            final(self).wf(),
            r is Ok <==> old(self)@.spec_owns_area(*id),
            r is Err ==> r == Err::<(), WorldError>(WorldError::NotFound),
            final(self)@ == (WorldView {
                colliders: old(self)@.spec_toggled(*id, active),
                ..old(self)@
            }),
    {
        let n = self.areas.len();
        let mut found = false;
        let mut k: usize = 0;
        while k < n
            invariant
                k <= n,
                n == self.colliders().len(),
                n == old(self)@.colliders.len(),
                old(self).wf(),
                self.next_id() == old(self)@.next_id,
                self.transforms() == old(self)@.transforms,
                self.bodies() == old(self)@.bodies,
                found <==> exists|i: int|
                    0 <= i < k && (#[trigger] old(self)@.colliders[i]).info.parent == *id,
                forall|i: int|
                    0 <= i < k ==> #[trigger] self.colliders()[i] == old(self)@.spec_toggled(
                        *id,
                        active,
                    )[i],
                forall|i: int|
                    k <= i < n ==> #[trigger] self.colliders()[i] == old(self)@.colliders[i],
            decreases n - k,
        {
            let c = self.areas[k];
            if c.info.parent == *id {
                found = true;
                self.areas.set(
                    k,
                    Collider {
                        id: c.id,
                        info: c.info,
                        area: Area2D {
                            shape: c.area.shape,
                            offset: c.area.offset,
                            masks: c.area.masks,
                            layers: c.area.layers,
                            active,
                        },
                    },
                );
            }
            proof {
                assert(old(self)@.colliders[k as int].info.parent == *id ==> found);
            }
            k = k + 1;
        }
        proof {
            assert(self.colliders() =~= old(self)@.spec_toggled(*id, active));
            assert forall|i: int| 0 <= i < self.colliders().len() implies (
            #[trigger] self.colliders()[i]).id == old(self)@.colliders[i].id
                && self.colliders()[i].info == old(self)@.colliders[i].info
                && self.colliders()[i].area.wf() by {
                assert(old(self)@.colliders[i].area.wf());
            }
        }
        if found {
            Ok(())
        } else {
            Err(WorldError::NotFound)
        }
    }

    /// Drops every component of `entity`: its transform, its body and its
    /// areas. The identifier is not handed out again.
    pub fn remove_entity(&mut self, entity: Entity)
        requires
            old(self).wf(),
        ensures
            final(self).wf(),
            final(self)@ == old(self)@.spec_without(entity),
    {
        self.transforms_2d.remove(&entity);
        self.physics_bodies_2d.remove(&entity);
        let n = self.areas.len();
        let mut kept: Vec<Collider> = Vec::new();
        let mut k: usize = 0;
        while k < n
            invariant
                k <= n,
                n == old(self)@.colliders.len(),
                self.colliders() == old(self)@.colliders,
                old(self).wf(),
                kept@ == spec_areas_without(old(self)@.colliders.take(k as int), entity),
                forall|i: int|
                    0 <= i < kept@.len() ==> (#[trigger] kept@[i]).id < old(self)@.next_id
                        && kept@[i].info.parent < old(self)@.next_id && kept@[i].area.wf(),
                forall|i: int, j: int|
                    0 <= i < j < kept@.len() ==> (#[trigger] kept@[i]).id < (#[trigger] kept@[j]).id,
                forall|i: int, j: int|
                    0 <= i < kept@.len() && k <= j < n ==> (#[trigger] kept@[i]).id < (
                    #[trigger] old(self)@.colliders[j]).id,
            decreases n - k,
        {
            let c = self.areas[k];
            proof {
                assert(old(self)@.colliders.take(k as int + 1).drop_last() =~= old(
                    self,
                )@.colliders.take(k as int));
                assert(old(self)@.colliders.take(k as int + 1).last() == c);
                assert(old(self)@.colliders[k as int] == c);
            }
            if c.info.parent != entity {
                kept.push(c);
            }
            k = k + 1;
        }
        proof {
            assert(old(self)@.colliders.take(n as int) =~= old(self)@.colliders);
        }
        self.areas = kept;
        proof {
            assert(self.transforms() == old(self)@.transforms.remove(entity));
            assert(self.bodies() == old(self)@.bodies.remove(entity));
            assert forall|e: Entity| self.bodies().dom().contains(e) implies self.transforms().dom().contains(
                e,
            ) && self.bodies()[e].wf() by {
                assert(old(self)@.bodies.dom().contains(e));
            }
            assert forall|e: Entity| self.transforms().dom().contains(e) implies e
                < self.next_id() by {
                assert(old(self)@.transforms.dom().contains(e));
            }
        }
    }

    /// The number of areas in the world.
    pub fn area_count(&self) -> (n: usize)
        ensures
            n == self@.colliders.len(),
    {
        self.areas.len()
    }

    /// The area at position `index` in the order of insertion.
    pub fn area_at(&self, index: usize) -> (c: Collider)
        requires
            index < self@.colliders.len(),
        ensures
            c == self@.colliders[index as int],
    {
        self.areas[index]
    }
}

proof fn lemma_union_holds_both(rest: u8, last: u8, part: u8)
    by (bit_vector)
    ensures
        (rest | last) & last == last,
        rest & part == part ==> (rest | last) & part == part,
{
}

proof fn lemma_larger_sets_meet(group_masks: u8, group_layers: u8, masks: u8, layers: u8)
    by (bit_vector)
    requires
        group_masks & masks == masks,
        group_layers & layers == layers,
        masks & layers != 0,
    ensures
        group_masks & group_layers != 0,
{
}

/// The masks of a group hold the masks of each of its active areas, and its
/// layers hold their layers.
pub proof fn lemma_group_holds_member(areas: Seq<Collider>, i: int)
    requires
        0 <= i < areas.len(),
        areas[i].area.active,
    ensures
        spec_group_masks(areas, areas[i].info) & areas[i].area.masks == areas[i].area.masks,
        spec_group_layers(areas, areas[i].info) & areas[i].area.layers == areas[i].area.layers,
    decreases areas.len(),
{
    let info = areas[i].info;
    let last = areas.last();
    let rest_masks = spec_group_masks(areas.drop_last(), info);
    let rest_layers = spec_group_layers(areas.drop_last(), info);
    if i < areas.len() - 1 {
        lemma_group_holds_member(areas.drop_last(), i);
        lemma_union_holds_both(rest_masks, last.area.masks, areas[i].area.masks);
        lemma_union_holds_both(rest_layers, last.area.layers, areas[i].area.layers);
    } else {
        lemma_union_holds_both(rest_masks, last.area.masks, last.area.masks);
        lemma_union_holds_both(rest_layers, last.area.layers, last.area.layers);
    }
}

/// Where an active area reacts to another active area, the group of the
/// first overlaps the group of the second: the check between groups never
/// hides a pair that the check between areas lets through.
pub proof fn lemma_sensing_areas_have_overlapping_groups(world: WorldView, p: int, q: int)
    requires
        0 <= p < world.colliders.len(),
        0 <= q < world.colliders.len(),
        world.colliders[p].area.active,
        world.colliders[q].area.active,
        world.colliders[p].area.spec_senses(world.colliders[q].area),
    ensures
        world.spec_masks_overlap_layers(world.colliders[p].info, world.colliders[q].info) != 0,
{
    lemma_group_holds_member(world.colliders, p);
    lemma_group_holds_member(world.colliders, q);
    lemma_larger_sets_meet(
        spec_group_masks(world.colliders, world.colliders[p].info),
        spec_group_layers(world.colliders, world.colliders[q].info),
        world.colliders[p].area.masks,
        world.colliders[q].area.layers,
    );
}

} // verus!
