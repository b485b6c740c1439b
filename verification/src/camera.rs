//! What the engine tells the camera, and how screen points map to the world.

use crate::bindings::CameraConfig;
use crate::engine::{CameraOption, Engine, EngineView};
use crate::fixed::{Fixed, SCALE};
use crate::vector::Vector2D;
use vstd::prelude::*;

verus! {

/// Where a camera looks and how much it shows: `zoom` is half the height of
/// the view in world units.
#[derive(Clone, Copy, Debug, PartialEq, Eq, Structural)]
pub struct CameraInfo {
    pub position: Vector2D,
    pub zoom: Fixed,
}

/// What a camera that follows the player is told.
#[derive(Clone, Copy, Debug, PartialEq, Eq, Structural)]
pub struct CameraFollow {
    pub position: Vector2D,
    pub velocity: Vector2D,
}

impl EngineView {
    /// Position and velocity of the player, if the player has a transform and
    /// a body.
    pub open spec fn spec_follow_target(self) -> Option<CameraFollow> {
        if self.world.transforms.dom().contains(self.player) && self.world.bodies.dom().contains(
            self.player,
        ) {
            Some(
                CameraFollow {
                    position: self.world.transforms[self.player].position,
                    velocity: self.world.bodies[self.player].velocity,
                },
            )
        } else {
            None
        }
    }

    /// The world point shown at the screen point `loc`, in pixels from the
    /// top left corner, by a camera `camera`; the origin without a camera or
    /// for a window without height. The screen's Y axis points down, the
    /// world's up.
    pub open spec fn spec_screen_to_world(self, loc: Vector2D, camera: Option<CameraInfo>) -> Vector2D {
        match camera {
            Some(cam) => if self.height == 0 {
                Vector2D::spec_zero()
            } else {
                let width = Fixed { raw: (self.width * SCALE) as i64 };
                let height = Fixed { raw: (self.height * SCALE) as i64 };
                let half_screen = Vector2D {
                    x: width.spec_mul(Fixed::spec_half()),
                    y: height.spec_mul(Fixed::spec_half()),
                };
                let offset = loc.spec_sub(half_screen);
                let units_per_pixel = cam.zoom.spec_mul(Fixed::spec_two()).spec_div(height);
                let world_offset = offset.spec_scale(units_per_pixel);
                Vector2D {
                    x: cam.position.x.spec_add(world_offset.x),
                    y: cam.position.y.spec_sub(world_offset.y),
                }
            },
            None => Vector2D::spec_zero(),
        }
    }
}

impl Engine {
    /// Whether the camera follows the player.
    pub fn follows_player(&self) -> (r: bool)
        ensures
            r == (self@.camera_mode == CameraOption::Follow),
    {
        match self.camera_mode {
            CameraOption::Follow => true,
            CameraOption::Independent => false,
        }
    }

    /// Takes a camera configuration. The engine has no use for one yet: the
    /// configuration is accepted and nothing changes.
    pub fn configure_camera(&mut self, config: &CameraConfig)
        ensures
            final(self)@ == old(self)@,
    {
    }

    /// What to tell a camera that follows the player.
    pub fn update_camera_follow_player(&self) -> (r: Option<CameraFollow>)
        ensures
            r == self@.spec_follow_target(),
    {
        match (self.world.get_transform(self.player), self.world.get_body(self.player)) {
            (Some(transform), Some(body)) => Some(
                CameraFollow { position: transform.position, velocity: body.velocity },
            ),
            _ => None,
        }
    }

    /// The world point under the pointer.
    pub fn mouse_world_position(&self, camera: Option<CameraInfo>) -> (r: Vector2D)
        ensures
            r == self@.spec_screen_to_world(self@.mouse_pos, camera),
    {
        self.screen_to_world(self.mouse_pos, camera)
    }

    /// The world point under a screen point.
    pub fn screen_to_world(&self, loc: Vector2D, camera: Option<CameraInfo>) -> (r: Vector2D)
        ensures
            r == self@.spec_screen_to_world(loc, camera),
    {
        match camera {
            Some(cam) => {
                if self.height == 0 {
                    return Vector2D::zero();
                }
                let width = Fixed::from_u32(self.width);
                let height = Fixed::from_u32(self.height);
                let half_screen = Vector2D {
                    x: width.mul(Fixed::half()),
                    y: height.mul(Fixed::half()),
                };
                let offset = loc.sub(half_screen);
                let units_per_pixel = cam.zoom.mul(Fixed::two()).div(height);
                let world_offset = offset.scale(units_per_pixel);
                Vector2D {
                    x: cam.position.x.add(world_offset.x),
                    y: cam.position.y.sub(world_offset.y),
                }
            },
            None => Vector2D::zero(),
        }
    }
}

} // verus!
