use physics2d::body::BodyType;
use physics2d::engine::{CameraOption, Dimensions, Engine, EngineConfig};
use physics2d::fixed::Fixed;
use physics2d::simulation::step;
use physics2d::spawn::{BodySpec, CollisionBox};
use physics2d::vector::Vector2D;

fn fx(millis: i64) -> Fixed {
    Fixed::from_raw(millis * 1000)
}

fn v(x: i64, y: i64) -> Vector2D {
    Vector2D::new(fx(x), fx(y))
}

fn engine() -> Engine {
    Engine::new(EngineConfig {
        fps: "auto".to_string(),
        debug_enabled: false,
        width: 1000,
        height: 1000,
        dimensions: Dimensions::Two,
        camera: CameraOption::Follow,
    })
}

fn unit_box(at: Vector2D, kind: BodyType) -> BodySpec {
    BodySpec {
        is_pc: false,
        position: at,
        size: v(1000, 1000),
        body_type: kind,
        collision_box: CollisionBox {
            enabled: true,
            size_modifier: v(1000, 1000),
            offset: Vector2D::zero(),
        },
        masks: 1,
        layers: 1,
    }
}

#[test]
fn three_short_frames_run_one_step() {
    let mut e = engine();
    assert_eq!(e.tick_rate(), Fixed::from_raw(16_666));
    assert_eq!(e.accumulator(), Fixed::zero());
    assert_eq!(e.update(fx(10)).len(), 0);
    assert_eq!(e.accumulator(), Fixed::from_raw(10_000));
    assert_eq!(e.update(fx(10)).len(), 1);
    assert_eq!(e.accumulator(), Fixed::from_raw(3_334));
    assert_eq!(e.update(fx(10)).len(), 0);
    assert_eq!(e.accumulator(), Fixed::from_raw(13_334));
}

#[test]
fn a_long_frame_runs_every_step_it_holds() {
    let mut e = engine();
    assert_eq!(e.update(fx(50)).len(), 3);
    assert_eq!(e.accumulator(), Fixed::from_raw(2));
    assert_eq!(e.update(Fixed::from_raw(16_664)).len(), 1);
    assert_eq!(e.accumulator(), Fixed::zero());
    assert_eq!(e.update(Fixed::zero()).len(), 0);
}

#[test]
fn splitting_the_time_over_frames_changes_nothing() {
    let mut whole = engine();
    let mut split = engine();
    let spec = unit_box(v(0, 0), BodyType::Kinematic);
    let a = whole.create_body(&spec).unwrap().entity;
    split.create_body(&spec).unwrap();
    whole.set_velocity_2d(a, fx(3000), fx(0)).unwrap();
    split.set_velocity_2d(a, fx(3000), fx(0)).unwrap();
    let steps = whole.update(fx(100)).len();
    let mut steps_split = 0;
    for dt in [7, 13, 29, 1, 50] {
        steps_split += split.update(fx(dt)).len();
    }
    assert_eq!(steps, 6);
    assert_eq!(steps_split, 6);
    assert_eq!(whole.accumulator(), split.accumulator());
    assert_eq!(whole.get_position_2d(a), split.get_position_2d(a));
    assert_eq!(whole.get_position_2d(a), Ok(Vector2D::new(Fixed::from_raw(299_988), fx(0))));
}

#[test]
fn a_tick_runs_only_when_a_step_is_owed() {
    let mut e = engine();
    assert!(e.tick().is_none());
    e.accumulate(fx(40));
    assert!(e.tick().is_some());
    assert!(e.tick().is_some());
    assert!(e.tick().is_none());
    assert_eq!(e.accumulator(), Fixed::from_raw(6_668));
}

#[test]
fn a_slow_body_comes_to_rest_against_a_wall() {
    let mut e = engine();
    let a = e.create_body(&unit_box(v(0, 0), BodyType::Rigid)).unwrap().entity;
    let wall = e.create_body(&unit_box(v(1000, 0), BodyType::Static)).unwrap().entity;
    e.set_velocity_2d(a, fx(5000), fx(0)).unwrap();
    let batches = e.update(Fixed::from_raw(16_666));
    assert_eq!(batches.len(), 1);
    assert_eq!(batches[0].len(), 2);
    assert_eq!(batches[0][0].entity_a, a);
    assert_eq!(batches[0][0].penetration, Fixed::from_raw(83_330));
    assert_eq!(e.get_velocity_2d(a), Ok(v(0, 0)));
    assert_eq!(e.get_position_2d(a), Ok(Vector2D::new(Fixed::from_raw(83_330), fx(0))));
    for _ in 0..10 {
        e.update(Fixed::from_raw(16_666));
    }
    let position = e.get_position_2d(a).unwrap();
    let right_edge = position.x.add(fx(500));
    let left_edge_of_wall = fx(500);
    assert!(right_edge.sub(left_edge_of_wall).abs().le(fx(100)));
    assert_eq!(e.get_velocity_2d(a), Ok(v(0, 0)));
    assert_eq!(e.get_position_2d(wall), Ok(v(1000, 0)));
    assert_eq!(e.get_velocity_2d(wall), Ok(v(0, 0)));
}

#[test]
fn a_fast_body_is_pushed_back_to_the_wall() {
    let mut e = engine();
    let a = e.create_body(&unit_box(v(0, 0), BodyType::Rigid)).unwrap().entity;
    e.create_body(&unit_box(v(1000, 0), BodyType::Static)).unwrap();
    e.set_velocity_2d(a, fx(30_000), fx(0)).unwrap();
    e.update(Fixed::from_raw(16_666));
    assert_eq!(e.get_position_2d(a), Ok(v(0, 0)));
    assert_eq!(e.get_velocity_2d(a), Ok(v(0, 0)));
}

#[test]
fn a_step_returns_its_contacts_and_stores_the_resolved_state() {
    let mut e = engine();
    let a = e.create_body(&unit_box(v(0, 0), BodyType::Rigid)).unwrap().entity;
    let b = e.create_body(&unit_box(v(600, 0), BodyType::Rigid)).unwrap().entity;
    e.apply_impulse_2d(a, fx(1000), fx(0)).unwrap();
    e.accumulate(fx(20));
    let contacts = e.tick().unwrap();
    assert_eq!(contacts.len(), 2);
    assert_eq!(contacts[0].entity_a, a);
    assert_eq!(contacts[0].entity_b, b);
    assert_eq!(contacts[0].next_pos_a, Vector2D::new(Fixed::from_raw(16_666), fx(0)));
    assert_eq!(contacts[0].penetration, Fixed::from_raw(416_666));
    assert_eq!(e.get_position_2d(a), Ok(Vector2D::new(Fixed::from_raw(16_666 - 208_333), fx(0))));
    assert_eq!(e.get_position_2d(b), Ok(Vector2D::new(Fixed::from_raw(600_000 + 208_333), fx(0))));
    assert_eq!(e.get_velocity_2d(a), Ok(v(0, 0)));
    assert_eq!(e.world().get_body(a).unwrap().impulse, v(0, 0));
}

#[test]
fn stepping_a_world_directly() {
    let mut e = engine();
    let a = e.create_body(&unit_box(v(0, 0), BodyType::Rigid)).unwrap().entity;
    e.set_velocity_2d(a, fx(2000), fx(-1000)).unwrap();
    let mut world = physics2d::world::World::new();
    let id = world.new_entity().unwrap();
    world.insert_transform(id, e.world().get_transform(a).unwrap()).unwrap();
    world.insert_body(id, e.world().get_body(a).unwrap()).unwrap();
    let contacts = step(&mut world, Fixed::half());
    assert!(contacts.is_empty());
    assert_eq!(world.get_transform(id).unwrap().position, v(1000, -500));
}
