use vstd::prelude::*;

use crate::components::{CInput, CTransform, integrated};
use crate::geometry::{PIXEL, Vec2, clamp_i64, clamp_to_i64, div_toward_zero, div_trunc, signum};

verus! {

/// The constants of the player's motion, fixed-point where they are
/// lengths, speeds or fractions (`PIXEL` is one).
#[derive(Clone, Copy, Debug, PartialEq, Eq, Structural)]
pub struct MovementConfig {
    /// Downward acceleration added every frame.
    pub gravity: i64,
    /// Vertical velocity of a ground jump.
    pub jump_velocity: i64,
    /// Vertical velocity of a wall jump.
    pub wall_jump_velocity: i64,
    /// An upward velocity is divided by this when the jump button is released.
    pub fall_cancel_divisor: i64,
    /// Horizontal velocity added per frame in wall-jump mode, per unit of input.
    pub wall_jump_nudge: i64,
    /// Frames a jump press stays buffered.
    pub jump_input_duration: u32,
    /// Frames a landing keeps a ground jump available.
    pub grounded_duration: u32,
    /// Frames a wall contact keeps a wall jump available.
    pub wall_contact_duration: i32,
    /// Fraction of the speed gap closed per frame: `x` with input held,
    /// `y` without; `y` is the smaller.
    pub acceleration_scale: Vec2,
}

/// The tuning of the game: gravity 2.4525 pixels per frame squared, jumps
/// of 30 (ground) and 40 (wall) pixels per frame, the rise divided by 3 on
/// release, a jump buffer and grounded window of 6 frames, a wall-contact
/// window of 10 frames, and half (input held) or a fifth (no input) of the
/// speed gap closed per frame: deceleration is the gentler of the two.
pub open spec fn standard_config() -> MovementConfig {
    MovementConfig {
        gravity: 24_525,
        jump_velocity: -300_000i64,
        wall_jump_velocity: -400_000i64,
        fall_cancel_divisor: 3,
        wall_jump_nudge: 10_000,
        jump_input_duration: 6,
        grounded_duration: 6,
        wall_contact_duration: 10,
        acceleration_scale: Vec2 { x: 5_000, y: 2_000 },
    }
}

impl MovementConfig {
    pub open spec fn wf(&self) -> bool {
        &&& self.fall_cancel_divisor > 0
        &&& self.wall_contact_duration >= 0
        &&& 0 <= self.acceleration_scale.x <= PIXEL
        &&& 0 <= self.acceleration_scale.y <= self.acceleration_scale.x <= PIXEL
    }

    /// The tuning of the game.
    pub fn standard() -> (r: MovementConfig)
        ensures
            r.wf(),
            r == standard_config(),
    {
        MovementConfig {
            gravity: 24_525,
            jump_velocity: -30 * PIXEL,
            wall_jump_velocity: -40 * PIXEL,
            fall_cancel_divisor: 3,
            wall_jump_nudge: PIXEL,
            jump_input_duration: 6,
            grounded_duration: 6,
            wall_contact_duration: 10,
            acceleration_scale: Vec2 { x: 5_000, y: 2_000 },
        }
    }
}

/// The three countdowns of the player's motion and the wall-jump mode.
/// `wall_contact_timer` is signed: its sign tells on which side the wall is.
#[derive(Clone, Copy, Debug, PartialEq, Eq, Structural)]
pub struct PlayerTimers {
    pub jump_input_timer: u32,
    pub grounded_timer: u32,
    pub wall_contact_timer: i32,
    pub wall_jump_physics: bool,
}

impl PlayerTimers {
    pub fn new() -> (r: PlayerTimers)
        ensures
            r.is_clear(),
    {
        PlayerTimers {
            jump_input_timer: 0,
            grounded_timer: 0,
            wall_contact_timer: 0,
            wall_jump_physics: false,
        }
    }

    /// No timer runs and the wall-jump mode is off.
    pub open spec fn is_clear(&self) -> bool {
        &&& self.jump_input_timer == 0
        &&& self.grounded_timer == 0
        &&& self.wall_contact_timer == 0
        &&& !self.wall_jump_physics
    }

    pub open spec fn ticked(&self) -> PlayerTimers {
        PlayerTimers {
            jump_input_timer: if self.jump_input_timer > 0 {
                (self.jump_input_timer - 1) as u32
            } else {
                0
            },
            grounded_timer: if self.grounded_timer > 0 {
                (self.grounded_timer - 1) as u32
            } else {
                0
            },
            wall_contact_timer: (self.wall_contact_timer - signum(self.wall_contact_timer as int)) as i32,
            wall_jump_physics: self.wall_jump_physics,
        }
    }

    /// One frame passes: each timer moves one step toward zero.
    pub fn tick(&mut self)
        ensures
            *final(self) == old(self).ticked(),
    {
        if self.jump_input_timer > 0 {
            self.jump_input_timer = self.jump_input_timer - 1;
        }
        if self.grounded_timer > 0 {
            self.grounded_timer = self.grounded_timer - 1;
        }
        if self.wall_contact_timer > 0 {
            self.wall_contact_timer = self.wall_contact_timer - 1;
        } else if self.wall_contact_timer < 0 {
            self.wall_contact_timer = self.wall_contact_timer + 1;
        }
    }

    /// Clears every timer and leaves wall-jump mode.
    pub fn clear(&mut self)
        ensures
            final(self).is_clear(),
    {
        self.jump_input_timer = 0;
        self.grounded_timer = 0;
        self.wall_contact_timer = 0;
        self.wall_jump_physics = false;
    }
}

/// `v` times the sign of `s`.
pub open spec fn signed(v: int, s: int) -> int {
    if s > 0 {
        v
    } else if s < 0 {
        -v
    } else {
        0
    }
}

/// Horizontal input: 1 for right, -1 for left, 0 for both or neither.
pub open spec fn input_axis(input: CInput) -> int {
    (if input.right.held {
        1int
    } else {
        0
    }) - (if input.left.held {
        1int
    } else {
        0
    })
}

/// The timers once a press of the jump button is buffered.
pub open spec fn buffered(timers: PlayerTimers, input: CInput, cfg: MovementConfig) -> PlayerTimers {
    if input.space.pressed {
        PlayerTimers { jump_input_timer: cfg.jump_input_duration, ..timers }
    } else {
        timers
    }
}

/// A buffered jump while grounded.
pub open spec fn ground_jump_due(timers: PlayerTimers) -> bool {
    timers.jump_input_timer > 0 && timers.grounded_timer > 0
}

/// A buffered jump off a wall.
pub open spec fn wall_jump_due(timers: PlayerTimers) -> bool {
    timers.jump_input_timer > 0 && timers.grounded_timer == 0 && timers.wall_contact_timer != 0
}

/// Transform after gravity and a jump, if one is due.
pub open spec fn jumped_transform(t: CTransform, timers: PlayerTimers, cfg: MovementConfig) -> CTransform {
    let g = CTransform { acceleration: Vec2 { y: cfg.gravity, ..t.acceleration }, ..t };
    if ground_jump_due(timers) {
        CTransform { velocity: Vec2 { y: cfg.jump_velocity, ..g.velocity }, ..g }
    } else if wall_jump_due(timers) {
        CTransform {
            velocity: Vec2 {
                x: clamp_i64(signed(t.max_speed as int, -timers.wall_contact_timer)) as i64,
                y: cfg.wall_jump_velocity,
            },
            ..g
        }
    } else {
        g
    }
}

/// Timers after a jump, if one is due.
pub open spec fn jumped_timers(timers: PlayerTimers) -> PlayerTimers {
    if ground_jump_due(timers) {
        PlayerTimers { grounded_timer: 0, jump_input_timer: 0, ..timers }
    } else if wall_jump_due(timers) {
        PlayerTimers {
            grounded_timer: 0,
            jump_input_timer: 0,
            wall_contact_timer: 0,
            wall_jump_physics: true,
        }
    } else {
        timers
    }
}

/// Releasing the jump button while rising divides the upward speed.
pub open spec fn fall_cancelled(t: CTransform, input: CInput, cfg: MovementConfig) -> CTransform {
    if input.space.released && t.velocity.y < 0 {
        CTransform {
            velocity: Vec2 {
                y: div_toward_zero(t.velocity.y as int, cfg.fall_cancel_divisor as int) as i64,
                ..t.velocity
            },
            ..t
        }
    } else {
        t
    }
}

/// Horizontal steering. In normal mode the acceleration closes a fraction
/// of the gap to the desired speed (input times `max_speed`); in wall-jump
/// mode the velocity is nudged toward the input and held to `max_speed` in
/// magnitude, with no acceleration.
pub open spec fn steered(t: CTransform, input: CInput, wall_jump_physics: bool, cfg: MovementConfig) -> CTransform {
    let ix = input_axis(input);
    let scale = if ix != 0 {
        cfg.acceleration_scale.x
    } else {
        cfg.acceleration_scale.y
    };
    if !wall_jump_physics {
        let gap = signed(t.max_speed as int, ix) - t.velocity.x;
        CTransform {
            acceleration: Vec2 {
                x: clamp_i64(div_toward_zero(gap * scale, PIXEL as int)) as i64,
                ..t.acceleration
            },
            ..t
        }
    } else {
        let v = clamp_i64(t.velocity.x + signed(cfg.wall_jump_nudge as int, ix));
        let vx = if v < 0 && -v > t.max_speed || v >= 0 && v > t.max_speed {
            clamp_i64(signed(t.max_speed as int, v))
        } else {
            v
        };
        CTransform {
            acceleration: Vec2 { x: 0, ..t.acceleration },
            velocity: Vec2 { x: vx as i64, ..t.velocity },
            ..t
        }
    }
}

/// The player's transform after one frame of motion, before collisions.
pub open spec fn moved(t: CTransform, timers: PlayerTimers, input: CInput, cfg: MovementConfig) -> CTransform {
    let b = buffered(timers, input, cfg);
    let after_jump = jumped_timers(b);
    integrated(
        steered(
            fall_cancelled(jumped_transform(t, b, cfg), input, cfg),
            input,
            after_jump.wall_jump_physics,
            cfg,
        ),
    )
}

/// The timers after one frame of motion, before they tick.
pub open spec fn moved_timers(timers: PlayerTimers, input: CInput, cfg: MovementConfig) -> PlayerTimers {
    jumped_timers(buffered(timers, input, cfg))
}

/// Gravity, then a ground or wall jump if one is due.
fn apply_jump(t: &mut CTransform, timers: &mut PlayerTimers, cfg: &MovementConfig) -> (jumped: bool)
    ensures
        *final(t) == jumped_transform(*old(t), *old(timers), *cfg),
        *final(timers) == jumped_timers(*old(timers)),
        jumped == (ground_jump_due(*old(timers)) || wall_jump_due(*old(timers))),
{
    t.acceleration.y = cfg.gravity;
    if timers.jump_input_timer > 0 {
        if timers.grounded_timer > 0 {
            t.velocity.y = cfg.jump_velocity;
            timers.grounded_timer = 0;
            timers.jump_input_timer = 0;
            return true;
        } else if timers.wall_contact_timer != 0 {
            t.velocity.y = cfg.wall_jump_velocity;
            t.velocity.x = clamp_to_i64(
                if timers.wall_contact_timer > 0 {
                    -(t.max_speed as i128)
                } else {
                    t.max_speed as i128
                },
            );
            timers.wall_contact_timer = 0;
            timers.grounded_timer = 0;
            timers.jump_input_timer = 0;
            timers.wall_jump_physics = true;
            return true;
        }
    }
    false
}

/// Divides a rising velocity when the jump button was released.
fn apply_fall_cancel(t: &mut CTransform, input: &CInput, cfg: &MovementConfig)
    requires
        cfg.wf(),
    ensures
        *final(t) == fall_cancelled(*old(t), *input, *cfg),
{
    if input.space.released && t.velocity.y < 0 {
        t.velocity.y = div_trunc(t.velocity.y as i128, cfg.fall_cancel_divisor as i128) as i64;
    }
}

/// Horizontal steering: see `steered`.
fn steer(t: &mut CTransform, input: &CInput, wall_jump_physics: bool, cfg: &MovementConfig)
    requires
        cfg.wf(),
    ensures
        *final(t) == steered(*old(t), *input, wall_jump_physics, *cfg),
{
    let mut input_x: i64 = 0;
    if input.right.held {
        input_x = input_x + 1;
    }
    if input.left.held {
        input_x = input_x - 1;
    }
    let scale: i64 = if input_x != 0 {
        cfg.acceleration_scale.x
    } else {
        cfg.acceleration_scale.y
    };
    if !wall_jump_physics {
        let desired: i128 = if input_x > 0 {
            t.max_speed as i128
        } else if input_x < 0 {
            -(t.max_speed as i128)
        } else {
            0
        };
        let gap: i128 = desired - t.velocity.x as i128;
        proof {
            assert(-0x1_0000_0000_0000_0000_0000 < gap * scale < 0x1_0000_0000_0000_0000_0000) by (nonlinear_arith)
                requires
                    -0x2_0000_0000_0000_0000 < gap < 0x2_0000_0000_0000_0000,
                    0 <= scale <= PIXEL,
            ;
        }
        t.acceleration.x = clamp_to_i64(div_trunc(gap * scale as i128, PIXEL as i128));
    } else {
        t.acceleration.x = 0;
        let nudge: i128 = if input_x > 0 {
            cfg.wall_jump_nudge as i128
        } else if input_x < 0 {
            -(cfg.wall_jump_nudge as i128)
        } else {
            0
        };
        let v: i64 = clamp_to_i64(t.velocity.x as i128 + nudge);
        let too_fast = if v < 0 {
            -(v as i128) > t.max_speed as i128
        } else {
            v as i128 > t.max_speed as i128
        };
        if too_fast {
            t.velocity.x = clamp_to_i64(
                if v < 0 {
                    -(t.max_speed as i128)
                } else if v > 0 {
                    t.max_speed as i128
                } else {
                    0
                },
            );
        } else {
            t.velocity.x = v;
        }
    }
}

/// One frame of the player's motion: buffer a jump press, apply gravity,
/// jump from the ground or off a wall if a buffered jump is due, cut the
/// rise short on release, steer horizontally and integrate. Returns whether
/// a jump started.
pub fn move_player(
    t: &mut CTransform,
    timers: &mut PlayerTimers,
    input: &CInput,
    cfg: &MovementConfig,
) -> (jumped: bool)
    requires
        cfg.wf(),
    ensures
        *final(t) == moved(*old(t), *old(timers), *input, *cfg),
        *final(timers) == moved_timers(*old(timers), *input, *cfg),
        jumped == (ground_jump_due(buffered(*old(timers), *input, *cfg)) || wall_jump_due(
            buffered(*old(timers), *input, *cfg),
        )),
{
    if input.space.pressed {
        timers.jump_input_timer = cfg.jump_input_duration;
    }
    let jumped = apply_jump(t, timers, cfg);
    apply_fall_cancel(t, input, cfg);
    steer(t, input, timers.wall_jump_physics, cfg);
    t.update();
    jumped
}

} // verus!
