//! The host-facing state of the game: the game clock with pause and debug
//! speed, and the scenes, one of which is current.
use vstd::prelude::*;
use crate::fixed::{UNIT, fx_add, fx_mul, fx_sub, sadd, smul, ssub};
use crate::infotext::FontMetrics;
use crate::player::Keys;
use crate::random::Entropy;
use crate::scene::{FrameInput, FrameOutput, SceneStage, frame_done};

verus! {

pub const CANVAS_WIDTH: i64 = 480_000_000;

pub const CANVAS_HEIGHT: i64 = 270_000_000;

/// A tenth: the step and the lower bound of the debug speed.
pub const SPEED_STEP: i64 = 100_000;

/// The console scene. It shows nothing yet.
#[derive(Clone, Copy, Debug, PartialEq, Eq, Structural)]
pub struct SceneConsole {}

impl SceneConsole {
    pub fn _new() -> (scene: SceneConsole)
        ensures
            scene == (SceneConsole {  }),
    {
        SceneConsole {  }
    }

    pub fn update_and_draw(&mut self)
        ensures
            *final(self) == *old(self),
    {
    }
}

/// The skill tree scene. It shows nothing yet.
#[derive(Clone, Copy, Debug, PartialEq, Eq, Structural)]
pub struct SceneSkilltree {}

impl SceneSkilltree {
    pub fn new() -> (scene: SceneSkilltree)
        ensures
            scene == (SceneSkilltree {  }),
    {
        SceneSkilltree {  }
    }

    pub fn update_and_draw(&mut self)
        ensures
            *final(self) == *old(self),
    {
    }
}

#[derive(Clone, Copy, Debug, PartialEq, Eq, Structural)]
pub enum SceneKind {
    Stage,
    Console,
    Skilltree,
}

/// What the host reports besides the keys of the ship.
#[derive(Clone, Copy, Debug, PartialEq, Eq, Structural)]
pub struct HostInput {
    /// Seconds that a frame is meant to take.
    pub target_deltatime: i64,
    /// Start the game over.
    pub reload: bool,
    /// Raise the debug speed by a tenth.
    pub speed_up: bool,
    /// Lower the debug speed by a tenth.
    pub slow_down: bool,
    pub toggle_pause: bool,
    /// While paused, advance by this one frame.
    pub step: bool,
    pub keys: Keys,
    pub spawn_ammo: bool,
    pub any_key_pressed: bool,
    pub font: FontMetrics,
}

/// The debug speed after the speed keys: up by a tenth, down by a tenth,
/// but never below a tenth.
pub open spec fn speed_next(factor: i64, host: HostInput) -> i64 {
    let raised = if host.speed_up { sadd(factor, SPEED_STEP) } else { factor };
    if host.slow_down {
        if ssub(raised, SPEED_STEP) < SPEED_STEP { SPEED_STEP } else { ssub(raised, SPEED_STEP) }
    } else {
        raised
    }
}

/// Whether the game is paused after the pause key.
pub open spec fn paused_next(paused: bool, host: HostInput) -> bool {
    if host.toggle_pause { !paused } else { paused }
}

/// The time that a frame advances the game by: the target time at the
/// debug speed, or nothing while the game is paused and not stepped,
/// scaled by the speed of the game.
pub open spec fn frame_time(factor: i64, paused: bool, speed: i64, host: HostInput) -> i64 {
    let run = smul(host.target_deltatime, speed_next(factor, host));
    smul(if paused_next(paused, host) && !host.step { 0 } else { run }, speed)
}

pub struct GameState {
    pub debug_deltatime_factor: i64,
    pub is_paused: bool,
    /// Speed of the game as a share of the normal one.
    pub deltatime_speed_factor: i64,
    /// The time that the last frame advanced the game by.
    pub deltatime: i64,
    pub scene_current: SceneKind,
    pub scene_stage: SceneStage,
    pub scene_console: SceneConsole,
    pub scene_skilltree: SceneSkilltree,
}

impl GameState {
    /// The stage is well formed, no entity but the player's is a ship, the
    /// pools of the ship and the hit points of the enemies are within
    /// their bounds, and nothing is queued that would bring another ship
    /// or an enemy into the game.
    pub open spec fn wf(&self) -> bool {
        &&& self.scene_stage.wf()
        &&& self.scene_stage.ships_ok()
        &&& self.scene_stage.enemies_ok()
        &&& crate::commands::all_harmless(self.scene_stage.commands@)
    }

    /// A fresh game: the stage is current and at its start, the clock runs
    /// at normal speed.
    pub open spec fn is_fresh(&self) -> bool {
        &&& self.debug_deltatime_factor == UNIT
        &&& !self.is_paused
        &&& self.deltatime_speed_factor == UNIT
        &&& self.scene_current == SceneKind::Stage
        &&& self.scene_stage.is_new(CANVAS_WIDTH, CANVAS_HEIGHT)
    }

    /// The frame is the first one of a stage at its start.
    pub open spec fn first_frame(after: SceneStage, output: FrameOutput, input: FrameInput) -> bool {
        exists|fresh: SceneStage|
            fresh.is_new(CANVAS_WIDTH, CANVAS_HEIGHT) && #[trigger] frame_done(fresh, after, output, input)
    }

    /// A fresh game, with the first round of its stage planned by the next
    /// 32 words.
    pub fn new(entropy: &mut Entropy) -> (game: GameState)
        ensures
            game.wf(),
            game.is_fresh(),
            game.deltatime == 0,
            crate::director::is_planned_by(
                game.scene_stage.director.round_enemies_and_spawntimes@,
                1,
                crate::director::ROUND_DURATION,
                *old(entropy),
            ),
            old(entropy).drawn(final(entropy), 32),
    {
        GameState {
            debug_deltatime_factor: UNIT,
            is_paused: false,
            deltatime_speed_factor: UNIT,
            deltatime: 0,
            scene_current: SceneKind::Stage,
            scene_stage: SceneStage::new(entropy, CANVAS_WIDTH, CANVAS_HEIGHT),
            scene_console: SceneConsole::_new(),
            scene_skilltree: SceneSkilltree::new(),
        }
    }

    /// The input that the stage gets for a frame.
    pub open spec fn stage_input(deltatime: i64, host: HostInput) -> FrameInput {
        FrameInput {
            deltatime,
            canvas_width: CANVAS_WIDTH,
            canvas_height: CANVAS_HEIGHT,
            keys: host.keys,
            spawn_ammo: host.spawn_ammo,
            any_key_pressed: host.any_key_pressed,
            font: host.font,
        }
    }

    /// The frame is one that the stage `before` ran, whatever became of the
    /// stage afterwards.
    pub open spec fn frame_of(before: SceneStage, output: FrameOutput, input: FrameInput) -> bool {
        exists|after: SceneStage| #[trigger] frame_done(before, after, output, input)
    }

    /// Runs one frame of the current scene on the game clock. The reload
    /// key starts the whole game over first, so that the frame is the first
    /// one of a new stage. The stage starts anew after the frame when its
    /// round is over and a key asks for a new one. Returns what the stage
    /// hands back, if the stage is current.
    pub fn update(&mut self, host: &HostInput, entropy: &mut Entropy) -> (output: Option<FrameOutput>)
        requires
            old(self).wf(),
        ensures
            final(self).wf(),
            final(self).debug_deltatime_factor == speed_next(
                if host.reload { UNIT } else { old(self).debug_deltatime_factor },
                *host,
            ),
            final(self).is_paused == paused_next(if host.reload { false } else { old(self).is_paused }, *host),
            final(self).deltatime == frame_time(
                if host.reload { UNIT } else { old(self).debug_deltatime_factor },
                if host.reload { false } else { old(self).is_paused },
                if host.reload { UNIT } else { old(self).deltatime_speed_factor },
                *host,
            ),
            final(self).scene_current == (if host.reload { SceneKind::Stage } else { old(self).scene_current }),
            output is Some == (final(self).scene_current == SceneKind::Stage),
            !host.reload && output is Some && !output->0.restart ==> frame_done(
                old(self).scene_stage,
                final(self).scene_stage,
                output->0,
                Self::stage_input(final(self).deltatime, *host),
            ),
            host.reload && !output->0.restart ==> Self::first_frame(
                final(self).scene_stage,
                output->0,
                Self::stage_input(final(self).deltatime, *host),
            ),
            output is Some && output->0.restart ==> final(self).scene_stage.is_new(CANVAS_WIDTH, CANVAS_HEIGHT),
            !host.reload && output is Some && output->0.restart ==> Self::frame_of(
                old(self).scene_stage,
                output->0,
                Self::stage_input(final(self).deltatime, *host),
            ),
            host.reload ==> output is Some && !output->0.restart,
            output is None ==> final(self).scene_stage == old(self).scene_stage,
    {
        if host.reload {
            *self = GameState::new(entropy);
        }
        if host.speed_up {
            self.debug_deltatime_factor = fx_add(self.debug_deltatime_factor, SPEED_STEP);
        }
        if host.slow_down {
            self.debug_deltatime_factor = fx_sub(self.debug_deltatime_factor, SPEED_STEP);
            if self.debug_deltatime_factor < SPEED_STEP {
                self.debug_deltatime_factor = SPEED_STEP;
            }
        }
        if host.toggle_pause {
            self.is_paused = !self.is_paused;
        }
        let mut deltatime: i64 = fx_mul(host.target_deltatime, self.debug_deltatime_factor);
        if self.is_paused && !host.step {
            deltatime = 0;
        }
        self.deltatime = fx_mul(deltatime, self.deltatime_speed_factor);
        let mut output: Option<FrameOutput> = None;
        let mut restart: bool = false;
        match self.scene_current {
            SceneKind::Stage => {
                let input: FrameInput = FrameInput {
                    deltatime: self.deltatime,
                    canvas_width: CANVAS_WIDTH,
                    canvas_height: CANVAS_HEIGHT,
                    keys: host.keys,
                    spawn_ammo: host.spawn_ammo,
                    any_key_pressed: host.any_key_pressed,
                    font: host.font,
                };
                let ghost before = self.scene_stage;
                let frame: FrameOutput = self.scene_stage.update_and_draw(&input, entropy);
                assert(host.reload ==> Self::first_frame(self.scene_stage, frame, input) || frame.restart) by {
                    if host.reload {
                        assert(before.is_new(CANVAS_WIDTH, CANVAS_HEIGHT));
                        assert(frame_done(before, self.scene_stage, frame, input));
                    }
                }
                assert(!host.reload ==> Self::frame_of(before, frame, input)) by {
                    if !host.reload {
                        assert(frame_done(before, self.scene_stage, frame, input));
                    }
                }
                assert(host.reload ==> !frame.restart) by {
                    if host.reload {
                        reveal(frame_done);
                    }
                }
                restart = frame.restart;
                output = Some(frame);
            },
            SceneKind::Console => {
                self.scene_console.update_and_draw();
            },
            SceneKind::Skilltree => {
                self.scene_skilltree.update_and_draw();
            },
        }
        if restart {
            self.scene_stage = SceneStage::new(entropy, CANVAS_WIDTH, CANVAS_HEIGHT);
            self.scene_current = SceneKind::Stage;
        }
        output
    }
}

} // verus!
