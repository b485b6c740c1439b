//! The engine: its configuration, its fixed-step clock and the stepping of the
//! world.

use crate::area::Entity;
use crate::collision::CollisionPair;
use crate::fixed::Fixed;
use crate::vector::Vector2D;
use crate::simulation::{spec_step, spec_step_contacts, step};
use crate::text::{
    eq_ignore_ascii_case, lowercase, parse_u64, spec_eq_ignore_ascii_case, spec_lowercase,
    spec_parse_u64, spec_trim, trim,
};
use crate::world::{World, WorldView};
use vstd::prelude::*;

verus! {

/// The number of dimensions that the engine simulates.
#[derive(Clone, Copy, Debug, PartialEq, Eq, Structural)]
pub enum Dimensions {
    Two,
}

/// How the camera moves.
#[derive(Clone, Copy, Debug, PartialEq, Eq, Structural)]
pub enum CameraOption {
    /// The camera follows the player.
    Follow,
    /// The camera is moved by input.
    Independent,
}

impl CameraOption {
    /// The option that the lower-case name `lower` stands for.
    pub open spec fn spec_from_lowercase(lower: Seq<char>) -> Option<CameraOption> {
        if lower == "follow"@ {
            Some(CameraOption::Follow)
        } else if lower == "independent"@ {
            Some(CameraOption::Independent)
        } else {
            None
        }
    }

    /// Reads an option from a name already in lower case.
    pub fn from_lowercase(lower: &String) -> (r: Option<CameraOption>)
        ensures
            r == CameraOption::spec_from_lowercase(lower@),
    {
        if *lower == "follow".to_owned() {
            Some(CameraOption::Follow)
        } else if *lower == "independent".to_owned() {
            Some(CameraOption::Independent)
        } else {
            None
        }
    }

    /// Reads an option from its name, whatever the case of its letters.
    pub fn parse(s: &str) -> (r: Option<CameraOption>)
        ensures
            r == CameraOption::spec_from_lowercase(spec_lowercase(s@)),
    {
        let lower = lowercase(s);
        CameraOption::from_lowercase(&lower)
    }
}

impl std::str::FromStr for CameraOption {
    type Err = ();

    /// Reads an option from its name, whatever the case of its letters; a
    /// name that is neither option is an error.
    fn from_str(s: &str) -> (r: Result<CameraOption, ()>)
        ensures
            match CameraOption::spec_from_lowercase(spec_lowercase(s@)) {
                Some(option) => r == Ok::<CameraOption, ()>(option),
                None => r == Err::<CameraOption, ()>(()),
            },
    {
        match CameraOption::parse(s) {
            Some(option) => Ok(option),
            None => Err(()),
        }
    }
}

/// The frame rate that the setting `fps` asks for, from what the standard
/// library made of the text: none when the trimmed text is `auto` in any
/// case, otherwise the number that the text parses as, if it does.
pub open spec fn spec_target_fps(is_auto: bool, parsed: Option<u64>) -> Option<u64> {
    if is_auto {
        None
    } else {
        parsed
    }
}

/// Milliseconds per frame at the rate `fps`; none for no rate or a rate of
/// zero.
pub open spec fn spec_target_rate(fps: Option<u64>) -> Option<u64> {
    match fps {
        Some(f) => if f > 0 {
            Some(1000u64 / f)
        } else {
            None
        },
        None => None,
    }
}

/// Whether the setting `fps` asks for no particular frame rate: trimmed, it
/// reads `auto` in any case.
pub fn fps_is_auto(fps: &str) -> (r: bool)
    ensures
        r == spec_eq_ignore_ascii_case(spec_trim(fps@), "auto"@),
{
    eq_ignore_ascii_case(trim(fps), "auto")
}

/// The frame rate to aim for, given whether the setting was `auto` and what
/// it parsed as.
pub fn target_fps(is_auto: bool, parsed: Option<u64>) -> (r: Option<u64>)
    ensures
        r == spec_target_fps(is_auto, parsed),
{
    if is_auto {
        None
    } else {
        parsed
    }
}

/// Milliseconds per frame at the rate `fps`.
pub fn target_rate(fps: Option<u64>) -> (r: Option<u64>)
    ensures
        r == spec_target_rate(fps),
{
    match fps {
        Some(f) => if f > 0 {
            Some(1000 / f)
        } else {
            None
        },
        None => None,
    }
}

/// What the engine is started with.
#[derive(Clone, Debug)]
pub struct EngineConfig {
    pub fps: String,
    pub debug_enabled: bool,
    pub width: u32,
    pub height: u32,
    pub dimensions: Dimensions,
    pub camera: CameraOption,
}

impl EngineConfig {
    /// The configuration that a script gave, with what it left out replaced:
    /// no particular frame rate, a window of a thousand pixels each way, no
    /// debugging. The engine has two dimensions and a camera that follows.
    pub fn from_partial(
        fps: Option<String>,
        width: Option<u32>,
        height: Option<u32>,
        debug_enabled: Option<bool>,
    ) -> (r: EngineConfig)
        ensures
            r.fps@ == (match fps {
                Some(text) => text@,
                None => "auto"@,
            }),
            r.width == (match width {
                Some(w) => w,
                None => 1000,
            }),
            r.height == (match height {
                Some(h) => h,
                None => 1000,
            }),
            r.debug_enabled == (match debug_enabled {
                Some(d) => d,
                None => false,
            }),
            r.dimensions == Dimensions::Two,
            r.camera == CameraOption::Follow,
    {
        EngineConfig {
            fps: match fps {
                Some(text) => text,
                None => "auto".to_owned(),
            },
            debug_enabled: match debug_enabled {
                Some(d) => d,
                None => false,
            },
            width: match width {
                Some(w) => w,
                None => 1000,
            },
            height: match height {
                Some(h) => h,
                None => 1000,
            },
            dimensions: Dimensions::Two,
            camera: CameraOption::Follow,
        }
    }
}

/// The simulation with its fixed-step clock.
pub struct Engine {
    pub(crate) player: Entity,
    pub(crate) mouse_pos: Vector2D,
    pub(crate) physics_tick_rate: Fixed,
    pub(crate) physics_accumulator: Fixed,
    pub(crate) camera_mode: CameraOption,
    pub(crate) dimensions: Dimensions,
    pub(crate) fps_specified: bool,
    pub(crate) target_rate_millis: Option<u64>,
    pub(crate) world: World,
    pub(crate) width: u32,
    pub(crate) height: u32,
}

/// What an engine holds, over the view of its world.
pub struct EngineView {
    pub player: Entity,
    /// Where the pointer is on the screen, in pixels.
    pub mouse_pos: Vector2D,
    /// Length of one step, in seconds.
    pub tick_rate: Fixed,
    /// Time received and not yet simulated, in seconds.
    pub accumulator: Fixed,
    pub camera_mode: CameraOption,
    pub dimensions: Dimensions,
    pub fps_specified: bool,
    /// Shortest time between two frames, in milliseconds, if one was asked for.
    pub target_rate_millis: Option<u64>,
    pub world: WorldView,
    pub width: u32,
    pub height: u32,
}

/// The number of whole steps of length `rate` in the time `total`.
pub open spec fn spec_substeps(total: int, rate: int) -> int {
    total / rate
}

/// What is left of the time `total` after its whole steps of length `rate`.
pub open spec fn spec_leftover(total: int, rate: int) -> int {
    total % rate
}

/// The world after `n` steps of length `dt`.
pub open spec fn spec_advance(world: WorldView, dt: Fixed, n: nat) -> WorldView
    decreases n,
{
    if n == 0 {
        world
    } else {
        spec_step(spec_advance(world, dt, (n - 1) as nat), dt)
    }
}

/// A count of steps and a remainder below one step account for a time in
/// exactly one way.
pub proof fn lemma_steps_unique(total: int, rate: int, n: int, rest: int)
    by (nonlinear_arith)
    requires
        rate > 0,
        0 <= rest < rate,
        total == n * rate + rest,
    ensures
        n == spec_substeps(total, rate),
        rest == spec_leftover(total, rate),
{
}

/// Time is neither lost nor counted twice across frames: feeding the clock
/// two elapsed times one after the other runs as many steps, and leaves as
/// much time over, as feeding it their sum at once.
pub proof fn lemma_frames_add_up(acc: int, first: int, second: int, rate: int)
    requires
        acc >= 0,
        first >= 0,
        second >= 0,
        rate > 0,
    ensures
        spec_substeps(acc + first, rate) + spec_substeps(
            spec_leftover(acc + first, rate) + second,
            rate,
        ) == spec_substeps(acc + first + second, rate),
        spec_leftover(spec_leftover(acc + first, rate) + second, rate) == spec_leftover(
            acc + first + second,
            rate,
        ),
        0 <= spec_leftover(acc + first + second, rate) < rate,
{
    let n1 = (acc + first) / rate;
    let r1 = (acc + first) % rate;
    let n2 = (r1 + second) / rate;
    let r2 = (r1 + second) % rate;
    vstd::arithmetic::div_mod::lemma_fundamental_div_mod(acc + first, rate);
    vstd::arithmetic::div_mod::lemma_fundamental_div_mod(r1 + second, rate);
    assert(acc + first + second == (n1 + n2) * rate + r2) by (nonlinear_arith)
        requires
            acc + first == rate * n1 + r1,
            r1 + second == rate * n2 + r2,
    ;
    lemma_steps_unique(acc + first + second, rate, n1 + n2, r2);
}

/// Running steps one after the other is the same as running them at once.
pub proof fn lemma_advance_splits(world: WorldView, dt: Fixed, n: nat, m: nat)
    ensures
        spec_advance(spec_advance(world, dt, n), dt, m) == spec_advance(world, dt, n + m),
    decreases m,
{
    if m > 0 {
        lemma_advance_splits(world, dt, n, (m - 1) as nat);
        assert(n + m - 1 == n + (m - 1) as nat);
    }
}

impl EngineView {
    /// The world is valid, a step takes time, and the time not yet simulated
    /// is not negative.
    pub open spec fn wf(self) -> bool {
        &&& self.world.wf()
        &&& self.tick_rate@ > 0
        &&& self.accumulator@ >= 0
    }
}

impl View for Engine {
    type V = EngineView;

    open spec fn view(&self) -> EngineView {
        EngineView {
            player: self.spec_player(),
            mouse_pos: self.spec_mouse_pos(),
            tick_rate: self.spec_tick_rate(),
            accumulator: self.spec_accumulator(),
            camera_mode: self.spec_camera_mode(),
            dimensions: self.spec_dimensions(),
            fps_specified: self.spec_fps_specified(),
            target_rate_millis: self.spec_target_rate_millis(),
            world: self.spec_world(),
            width: self.spec_width(),
            height: self.spec_height(),
        }
    }
}

impl Engine {
    pub open(crate) spec fn spec_player(&self) -> Entity {
        self.player
    }

    pub open(crate) spec fn spec_mouse_pos(&self) -> Vector2D {
        self.mouse_pos
    }

    pub open(crate) spec fn spec_tick_rate(&self) -> Fixed {
        self.physics_tick_rate
    }

    pub open(crate) spec fn spec_accumulator(&self) -> Fixed {
        self.physics_accumulator
    }

    pub open(crate) spec fn spec_camera_mode(&self) -> CameraOption {
        self.camera_mode
    }

    pub open(crate) spec fn spec_dimensions(&self) -> Dimensions {
        self.dimensions
    }

    pub open(crate) spec fn spec_fps_specified(&self) -> bool {
        self.fps_specified
    }

    pub open(crate) spec fn spec_target_rate_millis(&self) -> Option<u64> {
        self.target_rate_millis
    }

    pub open(crate) spec fn spec_world(&self) -> WorldView {
        self.world@
    }

    pub open(crate) spec fn spec_width(&self) -> u32 {
        self.width
    }

    pub open(crate) spec fn spec_height(&self) -> u32 {
        self.height
    }

    /// The invariant of the engine, stated on its view.
    pub open spec fn wf(&self) -> bool {
        self@.wf()
    }

    /// An engine with an empty world, a clock at zero and sixty steps to the
    /// second.
    pub fn new(config: EngineConfig) -> (engine: Engine)
        ensures
            engine.wf(),
            engine@.player == 0,
            engine@.mouse_pos == Vector2D::spec_zero(),
            engine@.tick_rate == Fixed::spec_from_raw(16_666),
            engine@.accumulator == Fixed::spec_zero(),
            engine@.camera_mode == config.camera,
            engine@.dimensions == config.dimensions,
            engine@.width == config.width,
            engine@.height == config.height,
            engine@.world.next_id == 0,
            engine@.world.transforms == Map::<Entity, crate::transform::Transform2D>::empty(),
            engine@.world.bodies == Map::<Entity, crate::body::PhysicsBody2D>::empty(),
            engine@.world.colliders == Seq::<crate::area::Collider>::empty(),
            engine@.fps_specified == (spec_target_fps(
                spec_eq_ignore_ascii_case(spec_trim(config.fps@), "auto"@),
                spec_parse_u64(config.fps@),
            ) is Some),
            engine@.target_rate_millis == spec_target_rate(
                spec_target_fps(
                    spec_eq_ignore_ascii_case(spec_trim(config.fps@), "auto"@),
                    spec_parse_u64(config.fps@),
                ),
            ),
    {
        let is_auto = fps_is_auto(config.fps.as_str());
        let fps = target_fps(is_auto, parse_u64(config.fps.as_str()));
        Engine {
            player: 0,
            mouse_pos: Vector2D::zero(),
            physics_tick_rate: Fixed::from_ratio(1, 60),
            physics_accumulator: Fixed::zero(),
            camera_mode: config.camera,
            dimensions: config.dimensions,
            fps_specified: fps.is_some(),
            target_rate_millis: target_rate(fps),
            world: World::new(),
            width: config.width,
            height: config.height,
        }
    }

    /// The entity that the camera follows.
    pub fn player(&self) -> (r: Entity)
        ensures
            r == self@.player,
    {
        self.player
    }

    /// Length of one step, in seconds.
    pub fn tick_rate(&self) -> (r: Fixed)
        ensures
            r == self@.tick_rate,
    {
        self.physics_tick_rate
    }

    /// Time received and not yet simulated, in seconds.
    pub fn accumulator(&self) -> (r: Fixed)
        ensures
            r == self@.accumulator,
    {
        self.physics_accumulator
    }

    /// Whether a frame rate was asked for.
    pub fn is_targetting_fps(&self) -> (r: bool)
        ensures
            r == self@.fps_specified,
    {
        self.fps_specified
    }

    /// Shortest time between two frames, in milliseconds, if a frame rate was
    /// asked for.
    pub fn target_rate_millis(&self) -> (r: Option<u64>)
        ensures
            r == self@.target_rate_millis,
    {
        self.target_rate_millis
    }

    /// The world that the engine simulates.
    pub fn world(&self) -> (r: &World)
        ensures
            r@ == self@.world,
    {
        &self.world
    }

    /// Takes the new place of the pointer on the screen, in pixels.
    pub fn set_mouse_position(&mut self, x: Fixed, y: Fixed)
        ensures
            final(self)@ == (EngineView { mouse_pos: Vector2D { x, y }, ..old(self)@ }),
    {
        self.mouse_pos = Vector2D { x, y };
    }

    /// Takes the new size of the window, in pixels.
    pub fn resize(&mut self, width: u32, height: u32)
        ensures
            final(self)@ == (EngineView { width, height, ..old(self)@ }),
    {
        self.width = width;
        self.height = height;
    }

    /// Adds the elapsed time `dt`, in seconds, to the time not yet simulated.
    pub fn accumulate(&mut self, dt: Fixed)
        requires
            old(self).wf(),
            dt@ >= 0,
        ensures
            final(self).wf(),
            final(self)@ == (EngineView {
                accumulator: old(self)@.accumulator.spec_add(dt),
                ..old(self)@
            }),
    {
        self.physics_accumulator = self.physics_accumulator.add(dt);
    }

    /// Runs one step if a whole step of time is owed, and returns its
    /// contacts; otherwise changes nothing.
    pub fn tick(&mut self) -> (r: Option<Vec<CollisionPair>>)
        requires
            old(self).wf(),
        ensures
            final(self).wf(),
            old(self)@.accumulator@ < old(self)@.tick_rate@ ==> r is None && final(self)@ == old(
                self,
            )@,
            old(self)@.accumulator@ >= old(self)@.tick_rate@ ==> r is Some && r->0@
                == spec_step_contacts(old(self)@.world, old(self)@.tick_rate) && final(self)@ == (
            EngineView {
                accumulator: old(self)@.accumulator.spec_sub(old(self)@.tick_rate),
                world: spec_step(old(self)@.world, old(self)@.tick_rate),
                ..old(self)@
            }),
    {
        if self.physics_accumulator.ge(self.physics_tick_rate) {
            self.physics_accumulator = self.physics_accumulator.sub(self.physics_tick_rate);
            let contacts = step(&mut self.world, self.physics_tick_rate);
            Some(contacts)
        } else {
            None
        }
    }

    /// Takes the elapsed time `dt`, in seconds, and runs every whole step
    /// that is then owed. Returns the contacts of each step, in order. What
    /// is left of the time stays for the next call.
    pub fn update(&mut self, dt: Fixed) -> (batches: Vec<Vec<CollisionPair>>)
        requires
            old(self).wf(),
            dt@ >= 0,
        ensures
            final(self).wf(),
            batches@.len() == spec_substeps(
                old(self)@.accumulator.spec_add(dt)@,
                old(self)@.tick_rate@,
            ),
            forall|k: int|
                0 <= k < batches@.len() ==> (#[trigger] batches@[k])@ == spec_step_contacts(
                    spec_advance(old(self)@.world, old(self)@.tick_rate, k as nat),
                    old(self)@.tick_rate,
                ),
            final(self)@ == (EngineView {
                accumulator: Fixed::spec_from_raw(
                    spec_leftover(
                        old(self)@.accumulator.spec_add(dt)@,
                        old(self)@.tick_rate@,
                    ),
                ),
                world: spec_advance(
                    old(self)@.world,
                    old(self)@.tick_rate,
                    batches@.len(),
                ),
                ..old(self)@
            }),
            final(self)@.accumulator@ < final(self)@.tick_rate@,
    {
        self.accumulate(dt);
        let ghost total = self.physics_accumulator@;
        let ghost rate = self.physics_tick_rate@;
        let mut batches: Vec<Vec<CollisionPair>> = Vec::new();
        while self.physics_accumulator.ge(self.physics_tick_rate)
            invariant
                self.wf(),
                rate == self.physics_tick_rate@,
                self.physics_tick_rate == old(self).physics_tick_rate,
                total == batches@.len() * rate + self.physics_accumulator@,
                self@ == (EngineView {
                    accumulator: self.physics_accumulator,
                    world: spec_advance(old(self)@.world, old(self)@.tick_rate, batches@.len()),
                    ..old(self)@
                }),
                forall|k: int|
                    0 <= k < batches@.len() ==> (#[trigger] batches@[k])@ == spec_step_contacts(
                        spec_advance(old(self)@.world, old(self)@.tick_rate, k as nat),
                        old(self)@.tick_rate,
                    ),
            decreases self.physics_accumulator@,
        {
            let ghost done = batches@.len();
            assert(total == done * rate + self.physics_accumulator@);
            match self.tick() {
                Some(contacts) => {
                    batches.push(contacts);
                },
                None => {},
            }
            assert(total == (done + 1) * rate + self.physics_accumulator@) by (nonlinear_arith)
                requires
                    total == done * rate + (self.physics_accumulator@ + rate),
            ;
        }
        proof {
            lemma_steps_unique(total, rate, batches@.len() as int, self.physics_accumulator@);
        }
        batches
    }
}

} // verus!
