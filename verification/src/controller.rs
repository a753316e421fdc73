//! The character controller: one tick of velocity and position integration
//! from the player's intent.

use vstd::prelude::*;
use crate::character::{CharacterState, ControlState, ANIMATION_IDLE, RUN_ANIMATION_TIME};
use crate::geometry::Vec2;
use crate::solver::REACH_LIMIT;
use crate::units::{
    clamp_to, clamped, div_toward_zero, trunc_div, COORD_LIMIT, TICK, TICKS_PER_SECOND,
    TIMER_CEILING, UNIT,
};

verus! {

/// Time after leaving the ground during which a jump is still honoured.
pub const COYOTE_TIME: i64 = 6_000;

/// Time before landing during which a jump asked for early is still honoured.
pub const JUMP_BUFFER_TIME: i64 = 3_000;

/// Share of its speed that a character on the ground loses per second.
pub const GROUND_FRICTION: i64 = 15;

/// Acceleration on the ground, per second.
pub const GROUND_ACC: i64 = 100 * UNIT;

/// Acceleration in the air, per second.
pub const AIR_ACC: i64 = 25 * UNIT;

/// Largest horizontal speed.
pub const RUN_SPEED: i64 = 6 * UNIT;

/// Largest vertical speed to which the velocity is held.
pub const FALL_SPEED: i64 = 15 * UNIT;

/// Acceleration of gravity, per second; it points down.
pub const GRAVITY: i64 = -30 * UNIT;

/// Vertical speed that a jump gives.
pub const JUMP_SPEED: i64 = 690_000;

/// What one tick of the controller hands to the collision solver.
#[derive(Clone, Copy, Debug, PartialEq, Eq, Structural)]
pub struct Step {
    /// The controls, with the jump timer advanced.
    pub controls: ControlState,
    /// The character with its new velocity, timers and animation, still at
    /// its old position.
    pub character: CharacterState,
    /// Where the character would be if nothing stood in its way.
    pub tentative: Vec2,
    /// Whether a jump was honoured in this tick.
    pub jumped: bool,
}

/// The change that a rate per second makes in one tick.
pub open spec fn per_tick(rate: int) -> int {
    trunc_div(rate, TICKS_PER_SECOND as int)
}

/// The speed that friction takes away in one tick.
pub open spec fn friction_loss(vx: int) -> int {
    per_tick(vx * GROUND_FRICTION)
}

/// Whether the player steers against the current horizontal motion.
pub open spec fn opposes(dir: int, vx: int) -> bool {
    (dir > 0 && vx < 0) || (dir < 0 && vx > 0)
}

/// The horizontal speed after steering and friction, before it is held to
/// the running speed.
pub open spec fn driven(vx: int, dir: int, on_ground: bool) -> int {
    if dir != 0 {
        if on_ground {
            (if opposes(dir, vx) {
                vx - friction_loss(vx)
            } else {
                vx
            }) + dir * per_tick(GROUND_ACC as int)
        } else {
            vx + dir * per_tick(AIR_ACC as int)
        }
    } else if on_ground {
        vx - friction_loss(vx)
    } else {
        vx
    }
}

/// A velocity held to the running speed along x and to the falling speed along y.
pub open spec fn held(v: Vec2) -> Vec2 {
    Vec2 {
        x: clamped(v.x as int, -RUN_SPEED as int, RUN_SPEED as int) as i64,
        y: clamped(v.y as int, -FALL_SPEED as int, FALL_SPEED as int) as i64,
    }
}

/// Whether a jump is honoured: it was asked for within the buffer time and
/// the character left the ground within the coyote time.
pub open spec fn jump_due(controls: ControlState, character: CharacterState) -> bool {
    controls.since_jump < JUMP_BUFFER_TIME && character.since_on_ground < COYOTE_TIME
}

/// A "time since" timer one tick later. It stops only at the end of the
/// machine's range.
pub open spec fn ticked(t: int) -> int {
    if t + TICK <= TIMER_CEILING {
        t + TICK
    } else {
        TIMER_CEILING as int
    }
}

/// Whether the walking animation runs: the player steers and the character moves.
pub open spec fn walking(controls: ControlState, character: CharacterState) -> bool {
    controls.direction() != 0 && character.velocity.x != 0
}

/// The animation timer one tick later.
pub open spec fn animated(controls: ControlState, character: CharacterState) -> int {
    if walking(controls, character) {
        ((if character.animation_timer < 0 {
            0
        } else {
            character.animation_timer as int
        }) + TICK) % (RUN_ANIMATION_TIME as int)
    } else {
        ANIMATION_IDLE as int
    }
}

/// The state that one tick of the controller produces.
pub open spec fn integrated(controls: ControlState, character: CharacterState) -> Step {
    let steered = held(
        Vec2 {
            x: driven(
                character.velocity.x as int,
                controls.direction(),
                character.on_ground(),
            ) as i64,
            y: character.velocity.y,
        },
    );
    let jumped = jump_due(controls, character);
    let rising = if jumped {
        JUMP_SPEED as int
    } else {
        steered.y as int
    };
    let velocity = Vec2 { x: steered.x, y: (rising + per_tick(GRAVITY as int)) as i64 };
    Step {
        controls: ControlState {
            since_jump: ticked(
                if jumped {
                    JUMP_BUFFER_TIME as int
                } else {
                    controls.since_jump as int
                },
            ) as i64,
            ..controls
        },
        character: CharacterState {
            velocity,
            since_on_ground: ticked(
                if jumped {
                    COYOTE_TIME as int
                } else {
                    character.since_on_ground as int
                },
            ) as i64,
            flip: if walking(controls, character) {
                controls.direction() < 0
            } else {
                character.flip
            },
            animation_timer: animated(controls, character) as i64,
            ..character
        },
        tentative: Vec2 {
            x: (character.position.x + per_tick(velocity.x as int)) as i64,
            y: (character.position.y + per_tick(velocity.y as int)) as i64,
        },
        jumped,
    }
}

/// The velocity that a tick of the controller gives lies within the
/// running speed along x; along y it is the held velocity, or the jump
/// speed, less one tick of gravity.
pub proof fn lemma_integrated_velocity(controls: ControlState, character: CharacterState)
    ensures
        -RUN_SPEED <= integrated(controls, character).character.velocity.x <= RUN_SPEED,
        -FALL_SPEED + per_tick(GRAVITY as int) <= integrated(
            controls,
            character,
        ).character.velocity.y <= FALL_SPEED + per_tick(GRAVITY as int),
{
}

/// After a tick of the controller the velocity lies within the running
/// speed along x and within the falling speed along y, for a character
/// that does not yet fall faster than the falling speed less one tick of
/// gravity. (Gravity is added after the velocity was held to its bounds;
/// a character that already falls at the falling speed exceeds it by that
/// one tick, and no more.)
pub proof fn velocity_within_speeds(controls: ControlState, character: CharacterState)
    requires
        character.velocity.y >= -FALL_SPEED - per_tick(GRAVITY as int),
    ensures
        -RUN_SPEED <= integrated(controls, character).character.velocity.x <= RUN_SPEED,
        -FALL_SPEED <= integrated(controls, character).character.velocity.y <= FALL_SPEED,
{
}

/// Steers the horizontal speed: friction against a reversal or without
/// intent on the ground, then acceleration toward the intent.
pub fn steer(vx: i64, dir: i64, on_ground: bool) -> (v: i64)
    requires
        -COORD_LIMIT <= vx <= COORD_LIMIT,
        -1 <= dir <= 1,
    ensures
        v == driven(vx as int, dir as int, on_ground),
        -2 * COORD_LIMIT <= v <= 2 * COORD_LIMIT,
{
    let loss = div_toward_zero(vx * GROUND_FRICTION, TICKS_PER_SECOND);
    let ground = div_toward_zero(GROUND_ACC, TICKS_PER_SECOND);
    let air = div_toward_zero(AIR_ACC, TICKS_PER_SECOND);
    assert(ground == 100_000 && air == 25_000);
    if dir != 0 {
        if on_ground {
            let slowed = if (dir > 0 && vx < 0) || (dir < 0 && vx > 0) {
                vx - loss
            } else {
                vx
            };
            slowed + dir * ground
        } else {
            vx + dir * air
        }
    } else if on_ground {
        vx - loss
    } else {
        vx
    }
}

/// Holds a velocity to the running speed along x and to the falling speed along y.
pub fn clamp_velocity(v: Vec2) -> (r: Vec2)
    ensures
        r == held(v),
        -RUN_SPEED <= r.x <= RUN_SPEED,
        -FALL_SPEED <= r.y <= FALL_SPEED,
{
    Vec2 { x: clamp_to(v.x, -RUN_SPEED, RUN_SPEED), y: clamp_to(v.y, -FALL_SPEED, FALL_SPEED) }
}

/// Advances a "time since" timer by one tick.
pub fn tick_timer(t: i64) -> (r: i64)
    ensures
        r == ticked(t as int),
        r > t || r == TIMER_CEILING,
{
    if t <= TIMER_CEILING - TICK {
        t + TICK
    } else {
        TIMER_CEILING
    }
}

/// One tick of the controller.
///
/// Steers and clamps the velocity, honours a buffered jump, applies
/// gravity, advances the timers and the walking animation, and proposes
/// the position that the collision solver then corrects.
pub fn integrate(controls: ControlState, character: CharacterState) -> (s: Step)
    requires
        character.wf(),
    ensures
        s == integrated(controls, character),
        s.character.wf(),
        s.character.position == character.position,
        s.character.collision_rect == character.collision_rect,
        s.character.interact_rect == character.interact_rect,
        s.jumped == jump_due(controls, character),
        -RUN_SPEED <= s.character.velocity.x <= RUN_SPEED,
        -FALL_SPEED + per_tick(GRAVITY as int) <= s.character.velocity.y <= FALL_SPEED
            + per_tick(GRAVITY as int),
        s.jumped ==> s.character.velocity.y == JUMP_SPEED + per_tick(GRAVITY as int),
        s.tentative.bounded(REACH_LIMIT as int),
{
    let dir = controls.x_dir();
    let on_ground = character.since_on_ground == 0;
    let walks = dir != 0 && character.velocity.x != 0;
    let animation_timer = if walks {
        let from = if character.animation_timer < 0 {
            0
        } else {
            character.animation_timer
        };
        (from + TICK) % RUN_ANIMATION_TIME
    } else {
        ANIMATION_IDLE
    };
    let flip = if walks {
        dir < 0
    } else {
        character.flip
    };
    let steered = clamp_velocity(
        Vec2 { x: steer(character.velocity.x, dir, on_ground), y: character.velocity.y },
    );
    let jumped = controls.since_jump < JUMP_BUFFER_TIME && character.since_on_ground < COYOTE_TIME;
    let rising = if jumped {
        JUMP_SPEED
    } else {
        steered.y
    };
    let fall = div_toward_zero(GRAVITY, TICKS_PER_SECOND);
    assert(fall == -30_000);
    let velocity = Vec2 { x: steered.x, y: rising + fall };
    let since_jump = tick_timer(
        if jumped {
            JUMP_BUFFER_TIME
        } else {
            controls.since_jump
        },
    );
    let since_on_ground = tick_timer(
        if jumped {
            COYOTE_TIME
        } else {
            character.since_on_ground
        },
    );
    let dx = div_toward_zero(velocity.x, TICKS_PER_SECOND);
    let dy = div_toward_zero(velocity.y, TICKS_PER_SECOND);
    Step {
        controls: ControlState { left: controls.left, right: controls.right, since_jump },
        character: CharacterState {
            position: character.position,
            velocity,
            since_on_ground,
            flip,
            animation_timer,
            collision_rect: character.collision_rect,
            interact_rect: character.interact_rect,
        },
        tentative: Vec2 { x: character.position.x + dx, y: character.position.y + dy },
        jumped,
    }
}

} // verus!
