//! Names of keys and camera actions as scripts write them.

use crate::engine::CameraOption;
use crate::fixed::Fixed;
use crate::text::spec_lowercase;
use vstd::prelude::*;

verus! {

/// A key that can move the camera.
#[derive(Clone, Copy, Debug, PartialEq, Eq, Structural)]
pub enum CameraKey {
    KeyW,
    KeyA,
    KeyS,
    KeyD,
    KeyQ,
    KeyE,
    ArrowUp,
    ArrowDown,
    ArrowLeft,
    ArrowRight,
}

/// A movement of the camera.
#[derive(Clone, Copy, Debug, PartialEq, Eq, Structural)]
pub enum CameraAction {
    MoveForward,
    MoveBackward,
    MoveLeft,
    MoveRight,
    MoveUp,
    MoveDown,
    YawLeft,
    YawRight,
    PitchUp,
    PitchDown,
    RollLeft,
    RollRight,
}

/// Why a binding was refused.
#[derive(Clone, Copy, Debug, PartialEq, Eq, Structural)]
pub enum BindingError {
    UnknownKey,
    UnknownAction,
}

/// A key and the action it triggers, both by name.
#[derive(Clone, Debug)]
pub struct CameraKeyBinding {
    pub key: String,
    pub action: String,
}

/// How the camera is set up.
#[derive(Clone, Debug)]
pub struct CameraConfig {
    pub mode: CameraOption,
    pub speed: Fixed,
    pub keys: Vec<CameraKeyBinding>,
}

/// The key with the name `s`.
pub open spec fn spec_parse_keycode(s: Seq<char>) -> Option<CameraKey> {
    if s == "W"@ {
        Some(CameraKey::KeyW)
    } else if s == "A"@ {
        Some(CameraKey::KeyA)
    } else if s == "S"@ {
        Some(CameraKey::KeyS)
    } else if s == "D"@ {
        Some(CameraKey::KeyD)
    } else if s == "Q"@ {
        Some(CameraKey::KeyQ)
    } else if s == "E"@ {
        Some(CameraKey::KeyE)
    } else if s == "Up"@ {
        Some(CameraKey::ArrowUp)
    } else if s == "Down"@ {
        Some(CameraKey::ArrowDown)
    } else if s == "Left"@ {
        Some(CameraKey::ArrowLeft)
    } else if s == "Right"@ {
        Some(CameraKey::ArrowRight)
    } else {
        None
    }
}

/// The camera action with the name `s`.
pub open spec fn spec_parse_camera_action(s: Seq<char>) -> Option<CameraAction> {
    if s == "MoveForward"@ {
        Some(CameraAction::MoveForward)
    } else if s == "MoveBackward"@ {
        Some(CameraAction::MoveBackward)
    } else if s == "MoveLeft"@ {
        Some(CameraAction::MoveLeft)
    } else if s == "MoveRight"@ {
        Some(CameraAction::MoveRight)
    } else if s == "MoveUp"@ {
        Some(CameraAction::MoveUp)
    } else if s == "MoveDown"@ {
        Some(CameraAction::MoveDown)
    } else if s == "YawLeft"@ {
        Some(CameraAction::YawLeft)
    } else if s == "YawRight"@ {
        Some(CameraAction::YawRight)
    } else if s == "PitchUp"@ {
        Some(CameraAction::PitchUp)
    } else if s == "PitchDown"@ {
        Some(CameraAction::PitchDown)
    } else if s == "RollLeft"@ {
        Some(CameraAction::RollLeft)
    } else if s == "RollRight"@ {
        Some(CameraAction::RollRight)
    } else {
        None
    }
}

fn is(text: &String, name: &str) -> (r: bool)
    ensures
        r == (text@ == name@),
{
    *text == name.to_owned()
}

/// Reads the name of a key. Names are case-sensitive.
pub fn parse_keycode(s: &str) -> (r: Result<CameraKey, BindingError>)
    ensures
        match spec_parse_keycode(s@) {
            Some(key) => r == Ok::<CameraKey, BindingError>(key),
            None => r == Err::<CameraKey, BindingError>(BindingError::UnknownKey),
        },
{
    let text = s.to_owned();
    if is(&text, "W") {
        Ok(CameraKey::KeyW)
    } else if is(&text, "A") {
        Ok(CameraKey::KeyA)
    } else if is(&text, "S") {
        Ok(CameraKey::KeyS)
    } else if is(&text, "D") {
        Ok(CameraKey::KeyD)
    } else if is(&text, "Q") {
        Ok(CameraKey::KeyQ)
    } else if is(&text, "E") {
        Ok(CameraKey::KeyE)
    } else if is(&text, "Up") {
        Ok(CameraKey::ArrowUp)
    } else if is(&text, "Down") {
        Ok(CameraKey::ArrowDown)
    } else if is(&text, "Left") {
        Ok(CameraKey::ArrowLeft)
    } else if is(&text, "Right") {
        Ok(CameraKey::ArrowRight)
    } else {
        Err(BindingError::UnknownKey)
    }
}

/// Reads the name of a camera action. Names are case-sensitive.
pub fn parse_camera_action(s: &str) -> (r: Result<CameraAction, BindingError>)
    ensures
        match spec_parse_camera_action(s@) {
            Some(action) => r == Ok::<CameraAction, BindingError>(action),
            None => r == Err::<CameraAction, BindingError>(BindingError::UnknownAction),
        },
{
    let text = s.to_owned();
    if is(&text, "MoveForward") {
        Ok(CameraAction::MoveForward)
    } else if is(&text, "MoveBackward") {
        Ok(CameraAction::MoveBackward)
    } else if is(&text, "MoveLeft") {
        Ok(CameraAction::MoveLeft)
    } else if is(&text, "MoveRight") {
        Ok(CameraAction::MoveRight)
    } else if is(&text, "MoveUp") {
        Ok(CameraAction::MoveUp)
    } else if is(&text, "MoveDown") {
        Ok(CameraAction::MoveDown)
    } else if is(&text, "YawLeft") {
        Ok(CameraAction::YawLeft)
    } else if is(&text, "YawRight") {
        Ok(CameraAction::YawRight)
    } else if is(&text, "PitchUp") {
        Ok(CameraAction::PitchUp)
    } else if is(&text, "PitchDown") {
        Ok(CameraAction::PitchDown)
    } else if is(&text, "RollLeft") {
        Ok(CameraAction::RollLeft)
    } else if is(&text, "RollRight") {
        Ok(CameraAction::RollRight)
    } else {
        Err(BindingError::UnknownAction)
    }
}

impl CameraConfig {
    /// The camera mode that a configuration names: the one that the name
    /// reads as in any case, and following the player where the name is
    /// missing or unknown.
    pub open spec fn spec_mode(mode: Option<Seq<char>>) -> CameraOption {
        match mode {
            Some(name) => match CameraOption::spec_from_lowercase(spec_lowercase(name)) {
                Some(option) => option,
                None => CameraOption::Follow,
            },
            None => CameraOption::Follow,
        }
    }

    /// A camera configuration from what a script gave.
    pub fn from_parts(mode: Option<&str>, speed: Fixed, keys: Vec<CameraKeyBinding>) -> (r:
        CameraConfig)
        ensures
            r.mode == CameraConfig::spec_mode(
                match mode {
                    Some(name) => Some(name@),
                    None => None,
                },
            ),
            r.speed == speed,
            r.keys == keys,
    {
        let mode = match mode {
            Some(name) => match CameraOption::parse(name) {
                Some(option) => option,
                None => CameraOption::Follow,
            },
            None => CameraOption::Follow,
        };
        CameraConfig { mode, speed, keys }
    }
}

} // verus!
