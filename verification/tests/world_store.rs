use physics2d::area::{Area2D, AreaInfo, AreaRole};
use physics2d::body::{BodyType, PhysicsBody2D};
use physics2d::fixed::Fixed;
use physics2d::shape::Shape2D;
use physics2d::transform::Transform2D;
use physics2d::vector::Vector2D;
use physics2d::world::{World, WorldError};
use std::collections::HashMap;

fn raw(v: i64) -> Fixed {
    Fixed::from_raw(v)
}

fn v(x: i64, y: i64) -> Vector2D {
    Vector2D::new(raw(x), raw(y))
}

fn square(at: Vector2D) -> Transform2D {
    Transform2D {
        position: at,
        shape: Shape2D::Rectangle { half_extents: v(500_000, 500_000) },
        scale: v(1_000_000, 1_000_000),
        rotation_radians: Fixed::zero(),
    }
}

fn area(half: Vector2D) -> Area2D {
    Area2D {
        shape: Shape2D::Rectangle { half_extents: half },
        offset: Vector2D::zero(),
        masks: 1,
        layers: 1,
        active: true,
    }
}

fn physics(parent: u32) -> AreaInfo {
    AreaInfo { parent, role: AreaRole::Physics }
}

#[test]
fn identifiers_are_handed_out_in_order() {
    let mut world = World::new();
    assert_eq!(world.new_entity(), Ok(0));
    assert_eq!(world.new_entity(), Ok(1));
    assert_eq!(world.add_area(physics(0), area(v(1, 1))), Ok(2));
    assert_eq!(world.new_entity(), Ok(3));
    assert_eq!(world.area_count(), 1);
    assert_eq!(world.area_at(0).id, 2);
}

#[test]
fn identifiers_run_out() {
    let mut world = World::with_first_id(u32::MAX);
    assert_eq!(world.new_entity(), Err(WorldError::Exhausted));
    let mut world = World::with_first_id(u32::MAX - 1);
    assert_eq!(world.new_entity(), Ok(u32::MAX - 1));
    assert_eq!(world.add_area(physics(u32::MAX - 1), area(v(1, 1))), Err(WorldError::Exhausted));
    assert_eq!(world.area_count(), 0);
}

#[test]
fn components_need_a_known_entity() {
    let mut world = World::new();
    assert_eq!(world.insert_transform(0, square(v(0, 0))), Err(WorldError::NotFound));
    assert_eq!(world.add_area(physics(0), area(v(1, 1))), Err(WorldError::NotFound));
    let body = PhysicsBody2D::new(BodyType::Rigid, Vector2D::zero(), Fixed::one()).unwrap();
    assert_eq!(world.insert_body(0, body), Err(WorldError::NotFound));
    let e = world.new_entity().unwrap();
    assert_eq!(world.insert_body(e, body), Err(WorldError::NotFound));
    assert_eq!(world.insert_transform(e, square(v(0, 0))), Ok(()));
    assert_eq!(world.insert_body(e, body), Ok(()));
    assert_eq!(world.get_body(e), Some(body));
    assert_eq!(world.get_transform(e), Some(square(v(0, 0))));
    assert_eq!(world.get_body(e + 1), None);
    assert_eq!(world.get_transform(e + 1), None);
}

#[test]
fn a_body_without_mass_is_refused() {
    let mut world = World::new();
    let e = world.new_entity().unwrap();
    world.insert_transform(e, square(v(0, 0))).unwrap();
    let weightless = PhysicsBody2D {
        body_type: BodyType::Rigid,
        velocity: Vector2D::zero(),
        mass: Fixed::zero(),
        force: Vector2D::zero(),
        impulse: Vector2D::zero(),
    };
    assert_eq!(world.insert_body(e, weightless), Err(WorldError::InvalidBody));
    assert_eq!(world.get_body(e), None);
}

#[test]
fn an_area_with_a_negative_extent_is_refused() {
    let mut world = World::new();
    let e = world.new_entity().unwrap();
    assert_eq!(world.add_area(physics(e), area(v(-1, 1))), Err(WorldError::InvalidArea));
    assert_eq!(world.add_area(physics(e), area(v(1, -1))), Err(WorldError::InvalidArea));
    let round = Area2D { shape: Shape2D::Circle { radius: raw(-1) }, ..area(v(1, 1)) };
    assert_eq!(world.add_area(physics(e), round), Err(WorldError::InvalidArea));
    assert!(!round.is_valid());
    assert!(area(v(0, 0)).is_valid());
    assert_eq!(world.area_count(), 0);
    assert_eq!(world.new_entity(), Ok(1));
}

#[test]
fn areas_are_found_by_identifier_and_tag() {
    let mut world = World::new();
    let e = world.new_entity().unwrap();
    let first = world.add_area(physics(e), area(v(1, 1))).unwrap();
    let second = world
        .add_area(AreaInfo { parent: e, role: AreaRole::Trigger }, area(v(2, 2)))
        .unwrap();
    assert_eq!(world.get_area_by_info(&first, physics(e)), Some(area(v(1, 1))));
    assert_eq!(world.get_area_by_info(&second, physics(e)), None);
    assert_eq!(
        world.get_area_by_info(&second, AreaInfo { parent: e, role: AreaRole::Trigger }),
        Some(area(v(2, 2)))
    );
    assert_eq!(world.get_area_by_info(&first, physics(e + 1)), None);
    assert_eq!(world.get_area_by_info(&99, physics(e)), None);
}

#[test]
fn filters_and_switches_reach_every_area_of_the_owner() {
    let mut world = World::new();
    let a = world.new_entity().unwrap();
    let b = world.new_entity().unwrap();
    world.add_area(physics(a), area(v(1, 1))).unwrap();
    world.add_area(physics(b), area(v(2, 2))).unwrap();
    world.add_area(AreaInfo { parent: a, role: AreaRole::Trigger }, area(v(3, 3))).unwrap();
    assert_eq!(world.update_area_masks_and_layers(&a, 0b1010, 0b0101), Ok(()));
    assert_eq!(world.area_at(0).area.masks, 0b1010);
    assert_eq!(world.area_at(0).area.layers, 0b0101);
    assert_eq!(world.area_at(1).area.masks, 1);
    assert_eq!(world.area_at(2).area.masks, 0b1010);
    assert_eq!(world.toggle_area(&a, false), Ok(()));
    assert!(!world.area_at(0).area.active);
    assert!(world.area_at(1).area.active);
    assert!(!world.area_at(2).area.active);
    assert_eq!(world.area_at(0).area.shape, Shape2D::Rectangle { half_extents: v(1, 1) });
    assert_eq!(world.toggle_area(&7, false), Err(WorldError::NotFound));
    assert_eq!(world.update_area_masks_and_layers(&7, 1, 1), Err(WorldError::NotFound));
}

#[test]
fn removing_an_entity_drops_its_components_and_keeps_its_identifier_retired() {
    let mut world = World::new();
    let a = world.new_entity().unwrap();
    let b = world.new_entity().unwrap();
    let body = PhysicsBody2D::new(BodyType::Rigid, Vector2D::zero(), Fixed::one()).unwrap();
    world.insert_transform(a, square(v(0, 0))).unwrap();
    world.insert_transform(b, square(v(1, 1))).unwrap();
    world.insert_body(a, body).unwrap();
    world.insert_body(b, body).unwrap();
    world.add_area(physics(a), area(v(1, 1))).unwrap();
    let kept = world.add_area(physics(b), area(v(2, 2))).unwrap();
    world.add_area(physics(a), area(v(3, 3))).unwrap();
    world.remove_entity(a);
    assert_eq!(world.get_transform(a), None);
    assert_eq!(world.get_body(a), None);
    assert_eq!(world.get_transform(b), Some(square(v(1, 1))));
    assert_eq!(world.get_body(b), Some(body));
    assert_eq!(world.area_count(), 1);
    assert_eq!(world.area_at(0).id, kept);
    assert_eq!(world.new_entity(), Ok(5));
}

#[test]
fn committing_replaces_the_stored_state() {
    let mut world = World::new();
    let a = world.new_entity().unwrap();
    let b = world.new_entity().unwrap();
    let body = PhysicsBody2D::new(BodyType::Rigid, Vector2D::zero(), Fixed::one()).unwrap();
    world.insert_transform(a, square(v(0, 0))).unwrap();
    world.insert_transform(b, square(v(1, 1))).unwrap();
    world.insert_body(a, body).unwrap();
    world.insert_body(b, body).unwrap();
    let mut moved = body;
    moved.velocity = v(5, 5);
    let mut states = HashMap::new();
    states.insert(a, (moved, square(v(9, 9))));
    world.commit(&states);
    assert_eq!(world.get_body(a), Some(moved));
    assert_eq!(world.get_transform(a), Some(square(v(9, 9))));
    assert_eq!(world.get_body(b), Some(body));
    assert_eq!(world.get_transform(b), Some(square(v(1, 1))));
}
