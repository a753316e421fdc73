//! What the simulation knows of the character and of the player's intent.

use vstd::prelude::*;
use crate::geometry::{Rect, Vec2};
use crate::solver::{body_fits, body_ok};
use crate::units::{COORD_LIMIT, LONG_AGO, UNIT};

verus! {

/// Length of one run of the walking animation.
pub const RUN_ANIMATION_TIME: i64 = 30_000;

/// Value of the animation timer while the character does not walk.
pub const ANIMATION_IDLE: i64 = -UNIT;

/// What the player asks for: the two direction keys, and the time since a
/// jump was last asked for.
#[derive(Clone, Copy, Debug, PartialEq, Eq, Structural)]
pub struct ControlState {
    pub left: bool,
    pub right: bool,
    pub since_jump: i64,
}

/// The character: where it is, how it moves, how long it has been off the
/// ground, its animation, and its two fixed rectangles of local offsets.
#[derive(Clone, Copy, Debug, PartialEq, Eq, Structural)]
pub struct CharacterState {
    pub position: Vec2,
    pub velocity: Vec2,
    pub since_on_ground: i64,
    pub flip: bool,
    pub animation_timer: i64,
    pub collision_rect: Rect,
    pub interact_rect: Rect,
}

/// The character that the player steers.
pub type Player = CharacterState;

impl ControlState {
    /// Where the player wants to go: -1 to the left, 1 to the right, 0 if
    /// neither or both keys are down.
    pub open spec fn direction(self) -> int {
        (if self.right {
            1int
        } else {
            0int
        }) - (if self.left {
            1int
        } else {
            0int
        })
    }

    /// Where the player wants to go.
    pub fn x_dir(self) -> (d: i64)
        ensures
            d == self.direction(),
            -1 <= d <= 1,
    {
        let mut d: i64 = 0;
        if self.right {
            d = d + 1;
        }
        if self.left {
            d = d - 1;
        }
        d
    }
}

impl Default for ControlState {
    /// No key is down, and a jump counts as asked for at this moment.
    fn default() -> (c: ControlState)
        ensures
            c == (ControlState { left: false, right: false, since_jump: 0 }),
    {
        ControlState { left: false, right: false, since_jump: 0 }
    }
}

/// The rectangle with which the character collides: 6 by 14 pixels of a
/// 15-pixel tile, around and above its position.
pub open spec fn standard_collision_rect() -> Rect {
    Rect { min: Vec2 { x: -12_000i64, y: -30_000i64 }, max: Vec2 { x: 12_000, y: 26_000 } }
}

/// The rectangle with which the character touches portals: half a pixel
/// wider on each side and lower than the collision rectangle.
pub open spec fn standard_interact_rect() -> Rect {
    Rect { min: Vec2 { x: -14_000i64, y: -32_000i64 }, max: Vec2 { x: 14_000, y: 26_000 } }
}

impl CharacterState {
    /// Position and velocity lie within the coordinate limit, the
    /// animation timer within its range, and the two rectangles can serve
    /// as a body.
    pub open spec fn wf(self) -> bool {
        &&& self.position.bounded(COORD_LIMIT as int)
        &&& self.velocity.bounded(COORD_LIMIT as int)
        &&& ANIMATION_IDLE <= self.animation_timer < RUN_ANIMATION_TIME
        &&& body_ok(self.collision_rect)
        &&& body_ok(self.interact_rect)
    }

    /// Tests whether the state is well-formed.
    pub fn is_valid(&self) -> (b: bool)
        ensures
            b == self.wf(),
    {
        self.position.within(COORD_LIMIT) && self.velocity.within(COORD_LIMIT) && ANIMATION_IDLE
            <= self.animation_timer && self.animation_timer < RUN_ANIMATION_TIME && body_fits(
            self.collision_rect,
        ) && body_fits(self.interact_rect)
    }

    /// Whether the character stood on the ground at the end of the last tick.
    pub open spec fn on_ground(self) -> bool {
        self.since_on_ground == 0
    }

    /// A character at rest at `position`, long off the ground, with the
    /// standard rectangles.
    pub fn new(position: Vec2) -> (c: CharacterState)
        requires
            position.bounded(COORD_LIMIT as int),
        ensures
            c.wf(),
            c == (CharacterState {
                position,
                velocity: Vec2 { x: 0, y: 0 },
                since_on_ground: LONG_AGO,
                flip: false,
                animation_timer: ANIMATION_IDLE,
                collision_rect: standard_collision_rect(),
                interact_rect: standard_interact_rect(),
            }),
    {
        CharacterState {
            position,
            velocity: Vec2 { x: 0, y: 0 },
            since_on_ground: LONG_AGO,
            flip: false,
            animation_timer: ANIMATION_IDLE,
            collision_rect: Rect {
                min: Vec2 { x: -12_000, y: -30_000 },
                max: Vec2 { x: 12_000, y: 26_000 },
            },
            interact_rect: Rect {
                min: Vec2 { x: -14_000, y: -32_000 },
                max: Vec2 { x: 14_000, y: 26_000 },
            },
        }
    }

    /// The frame of the sprite sheet that shows the character: 7 while it
    /// rises, 8 while it falls, 1 to 6 through a run of the walking
    /// animation, 0 at rest.
    pub open spec fn frame(self) -> int {
        if self.velocity.y > 0 {
            7
        } else if self.velocity.y < 0 {
            8
        } else if self.animation_timer > 0 {
            1 + self.animation_timer * 6 / (RUN_ANIMATION_TIME as int)
        } else {
            0
        }
    }

    /// The frame of the sprite sheet that shows the character.
    pub fn animation_frame(&self) -> (f: usize)
        requires
            self.wf(),
        ensures
            f == self.frame(),
            f <= 8,
    {
        if self.velocity.y > 0 {
            7
        } else if self.velocity.y < 0 {
            8
        } else if self.animation_timer > 0 {
            let step: i64 = self.animation_timer * 6 / RUN_ANIMATION_TIME;
            (1 + step) as usize
        } else {
            0
        }
    }
}

} // verus!
