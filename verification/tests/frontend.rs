use physics2d::bindings::{
    parse_camera_action, parse_keycode, BindingError, CameraAction, CameraConfig, CameraKey,
    CameraKeyBinding,
};
use physics2d::camera::CameraInfo;
use physics2d::engine::{CameraOption, Dimensions, Engine, EngineConfig};
use physics2d::fixed::Fixed;
use physics2d::pacing::{FrameAction, FramePacer, FRAME_LIMIT};
use physics2d::vector::Vector2D;

fn fx(millis: i64) -> Fixed {
    Fixed::from_raw(millis * 1000)
}

#[test]
fn keys_are_read_by_their_exact_names() {
    assert_eq!(parse_keycode("W"), Ok(CameraKey::KeyW));
    assert_eq!(parse_keycode("A"), Ok(CameraKey::KeyA));
    assert_eq!(parse_keycode("S"), Ok(CameraKey::KeyS));
    assert_eq!(parse_keycode("D"), Ok(CameraKey::KeyD));
    assert_eq!(parse_keycode("Q"), Ok(CameraKey::KeyQ));
    assert_eq!(parse_keycode("E"), Ok(CameraKey::KeyE));
    assert_eq!(parse_keycode("Up"), Ok(CameraKey::ArrowUp));
    assert_eq!(parse_keycode("Down"), Ok(CameraKey::ArrowDown));
    assert_eq!(parse_keycode("Left"), Ok(CameraKey::ArrowLeft));
    assert_eq!(parse_keycode("Right"), Ok(CameraKey::ArrowRight));
    assert_eq!(parse_keycode("w"), Err(BindingError::UnknownKey));
    assert_eq!(parse_keycode("up"), Err(BindingError::UnknownKey));
    assert_eq!(parse_keycode(""), Err(BindingError::UnknownKey));
}

#[test]
fn camera_actions_are_read_by_their_exact_names() {
    let names = [
        ("MoveForward", CameraAction::MoveForward),
        ("MoveBackward", CameraAction::MoveBackward),
        ("MoveLeft", CameraAction::MoveLeft),
        ("MoveRight", CameraAction::MoveRight),
        ("MoveUp", CameraAction::MoveUp),
        ("MoveDown", CameraAction::MoveDown),
        ("YawLeft", CameraAction::YawLeft),
        ("YawRight", CameraAction::YawRight),
        ("PitchUp", CameraAction::PitchUp),
        ("PitchDown", CameraAction::PitchDown),
        ("RollLeft", CameraAction::RollLeft),
        ("RollRight", CameraAction::RollRight),
    ];
    for (name, action) in names {
        assert_eq!(parse_camera_action(name), Ok(action));
    }
    assert_eq!(parse_camera_action("moveforward"), Err(BindingError::UnknownAction));
    assert_eq!(parse_camera_action("Jump"), Err(BindingError::UnknownAction));
}

#[test]
fn a_camera_configuration_follows_unless_told_otherwise() {
    let keys = vec![CameraKeyBinding { key: "W".to_string(), action: "MoveUp".to_string() }];
    let config = CameraConfig::from_parts(Some("INDEPENDENT"), fx(2500), keys);
    assert_eq!(config.mode, CameraOption::Independent);
    assert_eq!(config.speed, fx(2500));
    assert_eq!(config.keys.len(), 1);
    assert_eq!(config.keys[0].key, "W");
    assert_eq!(config.keys[0].action, "MoveUp");
    assert_eq!(CameraConfig::from_parts(None, fx(1), vec![]).mode, CameraOption::Follow);
    assert_eq!(CameraConfig::from_parts(Some("orbit"), fx(1), vec![]).mode, CameraOption::Follow);
    assert_eq!(CameraConfig::from_parts(Some("Follow"), fx(1), vec![]).mode, CameraOption::Follow);
}

#[test]
fn configuring_the_camera_changes_nothing() {
    let mut engine = Engine::new(EngineConfig::from_partial(None, None, None, None));
    let config = CameraConfig::from_parts(Some("independent"), fx(1000), vec![]);
    engine.configure_camera(&config);
    assert!(engine.follows_player());
    assert_eq!(engine.get_window_size(), [1000, 1000]);
    assert_eq!(engine.world().area_count(), 0);
}

#[test]
fn a_configuration_left_empty_takes_the_defaults() {
    let config = EngineConfig::from_partial(None, None, None, None);
    assert_eq!(config.fps, "auto");
    assert_eq!(config.width, 1000);
    assert_eq!(config.height, 1000);
    assert!(!config.debug_enabled);
    assert_eq!(config.dimensions, Dimensions::Two);
    assert_eq!(config.camera, CameraOption::Follow);
    let config = EngineConfig::from_partial(Some("30".to_string()), Some(640), Some(480), Some(true));
    assert_eq!(config.fps, "30");
    assert_eq!(config.width, 640);
    assert_eq!(config.height, 480);
    assert!(config.debug_enabled);
    let engine = Engine::new(config);
    assert_eq!(engine.get_window_size(), [640, 480]);
    assert_eq!(engine.target_rate_millis(), Some(33));
    assert!(engine.follows_player());
}

#[test]
fn the_pointer_is_mapped_like_any_screen_point() {
    let mut engine = Engine::new(EngineConfig::from_partial(None, None, None, None));
    let camera = CameraInfo { position: Vector2D::new(fx(1000), fx(1000)), zoom: fx(10_000) };
    assert_eq!(engine.mouse_world_position(Some(camera)), Vector2D::new(fx(-9000), fx(11_000)));
    engine.set_mouse_position(fx(1_000_000), fx(1_000_000));
    assert_eq!(engine.mouse_world_position(Some(camera)), Vector2D::new(fx(11_000), fx(-9000)));
    assert_eq!(engine.mouse_world_position(None), Vector2D::zero());
}

#[test]
fn without_a_frame_rate_every_call_runs_a_frame() {
    let mut pacer = FramePacer::new(5_000, None);
    assert_eq!(pacer.last_frame, 5_000);
    assert_eq!(
        pacer.about_to_wait(5_000),
        FrameAction::Run { dt: Fixed::zero(), fps_report: None, exit: false }
    );
    assert_eq!(
        pacer.about_to_wait(21_000),
        FrameAction::Run { dt: Fixed::from_raw(16_000), fps_report: None, exit: false }
    );
    assert_eq!(pacer.last_frame, 21_000);
    assert_eq!(pacer.count, 2);
    assert_eq!(pacer.frame_count, 2);
    assert_eq!(pacer.time_accum, 16_000);
}

#[test]
fn with_a_frame_rate_early_calls_wait() {
    let mut pacer = FramePacer::new(100_000, Some(16));
    assert_eq!(pacer.target_rate, Some(16_000));
    assert_eq!(pacer.last_frame, 84_000);
    assert_eq!(
        pacer.about_to_wait(100_000),
        FrameAction::Run { dt: Fixed::from_raw(16_000), fps_report: None, exit: false }
    );
    assert_eq!(
        pacer.about_to_wait(110_000),
        FrameAction::WaitUntil { target: 116_000, fps_report: None }
    );
    assert_eq!(pacer.last_frame, 100_000);
    assert_eq!(pacer.count, 1);
    assert_eq!(pacer.frame_count, 2);
    assert_eq!(pacer.time_accum, 26_000);
    assert_eq!(
        pacer.about_to_wait(116_000),
        FrameAction::Run { dt: Fixed::from_raw(16_000), fps_report: None, exit: false }
    );
    assert_eq!(pacer.count, 2);
    let early = FramePacer::new(5, Some(16));
    assert_eq!(early.last_frame, 0);
}

#[test]
fn the_frame_rate_is_reported_once_a_second_has_gone_by() {
    let mut pacer = FramePacer::new(0, None);
    for frame in 1..=2u64 {
        assert_eq!(
            pacer.about_to_wait(frame * 500_000),
            FrameAction::Run { dt: Fixed::from_raw(500_000), fps_report: None, exit: false }
        );
    }
    assert_eq!(pacer.time_accum, 1_000_000);
    assert_eq!(
        pacer.about_to_wait(1_000_001),
        FrameAction::Run { dt: Fixed::from_raw(1), fps_report: Some(3), exit: false }
    );
    assert_eq!(pacer.frame_count, 0);
    assert_eq!(pacer.time_accum, 0);
}

#[test]
fn the_run_ends_after_the_frame_limit() {
    assert_eq!(FRAME_LIMIT, 10_000);
    let mut pacer = FramePacer::new(0, None);
    pacer.count = FRAME_LIMIT - 1;
    assert_eq!(
        pacer.about_to_wait(1),
        FrameAction::Run { dt: Fixed::from_raw(1), fps_report: None, exit: false }
    );
    assert_eq!(
        pacer.about_to_wait(2),
        FrameAction::Run { dt: Fixed::from_raw(1), fps_report: None, exit: true }
    );
}

#[test]
fn a_clock_that_jumps_back_gives_no_time() {
    let mut pacer = FramePacer::new(1_000, None);
    assert_eq!(
        pacer.about_to_wait(400),
        FrameAction::Run { dt: Fixed::zero(), fps_report: None, exit: false }
    );
    assert_eq!(pacer.last_frame, 400);
}
