use physics2d::body::{BodyType, PhysicsBody2D};
use physics2d::fixed::Fixed;
use physics2d::shape::Shape2D;
use physics2d::transform::{
    transform_system_calculate_intended_position, transform_system_physics, Transform2D,
};
use physics2d::vector::Vector2D;
use physics2d::world::World;

fn raw(v: i64) -> Fixed {
    Fixed::from_raw(v)
}

fn v(x: i64, y: i64) -> Vector2D {
    Vector2D::new(raw(x), raw(y))
}

fn unit_square_at(position: Vector2D) -> Transform2D {
    Transform2D {
        position,
        shape: Shape2D::Rectangle { half_extents: v(500_000, 500_000) },
        scale: v(1_000_000, 1_000_000),
        rotation_radians: Fixed::zero(),
    }
}

fn body(kind: BodyType, velocity: Vector2D, mass: i64) -> PhysicsBody2D {
    PhysicsBody2D::new(kind, velocity, raw(mass)).unwrap()
}

#[test]
fn a_body_needs_a_positive_mass() {
    assert!(PhysicsBody2D::new(BodyType::Rigid, Vector2D::zero(), raw(0)).is_none());
    assert!(PhysicsBody2D::new(BodyType::Rigid, Vector2D::zero(), raw(-1)).is_none());
    let made = PhysicsBody2D::new(BodyType::Rigid, v(1, 2), raw(3)).unwrap();
    assert_eq!(made.velocity, v(1, 2));
    assert_eq!(made.mass, raw(3));
    assert_eq!(made.force, Vector2D::zero());
    assert_eq!(made.impulse, Vector2D::zero());
}

#[test]
fn without_force_velocity_stays_and_position_advances_by_velocity_times_dt() {
    let dt = Fixed::from_ratio(1, 60);
    let mut b = body(BodyType::Rigid, v(5_000_000, 0), 1_000_000);
    let before = b;
    let mut t = unit_square_at(v(0, 0));
    b.integrate(dt, &mut t);
    assert_eq!(b, before);
    assert_eq!(t.position, v(83_330, 0));
    b.integrate(dt, &mut t);
    b.integrate(dt, &mut t);
    assert_eq!(b, before);
    assert_eq!(t.position, v(249_990, 0));
}

#[test]
fn a_body_at_rest_without_force_does_not_move() {
    let mut b = body(BodyType::Rigid, Vector2D::zero(), 1_000_000);
    let before = b;
    let mut t = unit_square_at(v(3_000_000, -4_000_000));
    b.integrate(Fixed::from_ratio(1, 60), &mut t);
    assert_eq!(b, before);
    assert_eq!(t, unit_square_at(v(3_000_000, -4_000_000)));
}

#[test]
fn force_changes_velocity_by_force_over_mass_times_dt() {
    let mut b = body(BodyType::Rigid, Vector2D::zero(), 2_000_000);
    b.apply_force(v(6_000_000, 0));
    assert_eq!(b.force, v(6_000_000, 0));
    let mut t = unit_square_at(v(0, 0));
    b.integrate(Fixed::half(), &mut t);
    assert_eq!(b.velocity, v(1_500_000, 0));
    assert_eq!(t.position, v(750_000, 0));
    assert_eq!(b.force, Vector2D::zero());
    assert_eq!(b.impulse, Vector2D::zero());
}

#[test]
fn impulse_changes_velocity_at_once() {
    let mut b = body(BodyType::Rigid, v(1_000_000, 1_000_000), 4_000_000);
    b.apply_impulse(v(2_000_000, -1_000_000));
    b.apply_impulse(v(500_000, 0));
    assert_eq!(b.impulse, v(2_500_000, -1_000_000));
    let mut t = unit_square_at(v(0, 0));
    b.integrate(Fixed::one(), &mut t);
    assert_eq!(b.velocity, v(3_500_000, 0));
    assert_eq!(t.position, v(3_500_000, 0));
    assert_eq!(b.impulse, Vector2D::zero());
}

#[test]
fn a_static_body_neither_moves_nor_changes_velocity() {
    let mut b = body(BodyType::Static, v(1_000_000, 1_000_000), 1_000_000);
    b.apply_force(v(9_000_000, 9_000_000));
    b.apply_impulse(v(9_000_000, 9_000_000));
    let mut t = unit_square_at(v(2_000_000, 2_000_000));
    b.integrate(Fixed::one(), &mut t);
    assert_eq!(b.velocity, v(1_000_000, 1_000_000));
    assert_eq!(t.position, v(2_000_000, 2_000_000));
    assert_eq!(b.force, Vector2D::zero());
    assert_eq!(b.impulse, Vector2D::zero());
}

#[test]
fn a_kinematic_body_moves_with_its_velocity_and_ignores_force() {
    let mut b = body(BodyType::Kinematic, v(1_000_000, 0), 1_000_000);
    b.apply_force(v(9_000_000, 9_000_000));
    let mut t = unit_square_at(v(0, 0));
    b.integrate(Fixed::two(), &mut t);
    assert_eq!(b.velocity, v(1_000_000, 0));
    assert_eq!(t.position, v(2_000_000, 0));
    assert_eq!(b.force, Vector2D::zero());
}

#[test]
fn extrapolation_leaves_the_body_and_the_transform_alone() {
    let mut b = body(BodyType::Rigid, v(1_000_000, 0), 1_000_000);
    b.apply_impulse(v(0, 1_000_000));
    let kept = b;
    let t = unit_square_at(v(0, 0));
    let (next_body, next_transform) = b.extrapolate(Fixed::one(), &t);
    assert_eq!(b, kept);
    assert_eq!(t, unit_square_at(v(0, 0)));
    assert_eq!(next_body.velocity, v(1_000_000, 1_000_000));
    assert_eq!(next_body.impulse, Vector2D::zero());
    assert_eq!(next_transform.position, v(1_000_000, 1_000_000));
}

#[test]
fn size_is_extent_times_absolute_scale() {
    let mut t = unit_square_at(v(0, 0));
    t.scale = v(-2_000_000, 3_000_000);
    assert_eq!(t.get_scale_abs(), v(2_000_000, 3_000_000));
    assert_eq!(t.get_size(), v(2_000_000, 3_000_000));
    t.scale = v(2_000_000, -3_000_000);
    assert_eq!(t.get_size(), v(2_000_000, 3_000_000));
    let circle = Transform2D {
        position: v(0, 0),
        shape: Shape2D::Circle { radius: raw(1_500_000) },
        scale: v(2_000_000, -1_000_000),
        rotation_radians: Fixed::zero(),
    };
    assert_eq!(circle.get_size(), v(6_000_000, 3_000_000));
    assert_eq!(circle.shape.half_extents(), v(1_500_000, 1_500_000));
}

#[test]
fn the_physics_system_advances_every_body_in_place() {
    let mut world = World::new();
    let moving = world.new_entity().unwrap();
    let scenery = world.new_entity().unwrap();
    world.insert_transform(moving, unit_square_at(v(0, 0))).unwrap();
    world.insert_transform(scenery, unit_square_at(v(7_000_000, 7_000_000))).unwrap();
    world.insert_body(moving, body(BodyType::Rigid, v(2_000_000, 0), 1_000_000)).unwrap();
    transform_system_physics(&mut world, Fixed::half());
    assert_eq!(world.get_transform(moving).unwrap().position, v(1_000_000, 0));
    assert_eq!(world.get_transform(scenery).unwrap().position, v(7_000_000, 7_000_000));
    assert_eq!(world.get_body(moving).unwrap().velocity, v(2_000_000, 0));
    assert!(world.get_body(scenery).is_none());
}

#[test]
fn prediction_does_not_touch_the_world() {
    let mut world = World::new();
    let moving = world.new_entity().unwrap();
    world.insert_transform(moving, unit_square_at(v(0, 0))).unwrap();
    let mut b = body(BodyType::Rigid, v(2_000_000, 0), 1_000_000);
    b.apply_force(v(1_000_000, 0));
    world.insert_body(moving, b).unwrap();
    let next = transform_system_calculate_intended_position(&world, Fixed::one());
    assert_eq!(next.len(), 1);
    let (next_body, next_transform) = next[&moving];
    assert_eq!(next_body.velocity, v(3_000_000, 0));
    assert_eq!(next_transform.position, v(3_000_000, 0));
    assert_eq!(world.get_transform(moving).unwrap().position, v(0, 0));
    assert_eq!(world.get_body(moving).unwrap(), b);
}
