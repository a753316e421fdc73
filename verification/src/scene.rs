//! What a frame shows: the character, the camera, and the room that fades
//! in while a transition runs.

use vstd::prelude::*;
use crate::character::CharacterState;
use crate::game::{state_ok, GameState, TILE_SIZE};
use crate::geometry::{GridCoord, Vec2};
use crate::tilemap::{Room, RoomColor, RoomEntrance, ROOM_COUNT, ROOM_HEIGHT, ROOM_WIDTH};
use crate::transition::{TransitionState, ENTER_ROOM_TIME};
use crate::units::{clamp_to, clamped, div_toward_zero, trunc_div, COORD_LIMIT, PIXEL, UNIT};

verus! {

/// Time into a transition at which the character starts to shrink.
pub const SHRINK_START: i64 = 7_500;

/// Time into a transition at which the character has shrunk to the size
/// that it has inside the portal.
pub const SHRINK_END: i64 = 22_500;

/// The room behind a portal, as it shows through during a transition.
#[derive(Clone, Copy, Debug, PartialEq, Eq, Structural)]
pub struct Incoming {
    pub room: RoomColor,
    /// The cell of the portal, onto which the room is drawn.
    pub cell: GridCoord,
    /// Opacity of the room, from 0 to `UNIT`.
    pub alpha: i64,
}

/// What a frame shows.
#[derive(Clone, Copy, Debug, PartialEq, Eq, Structural)]
pub struct Scene {
    /// The room that fills the screen.
    pub room: RoomColor,
    /// Frame of the character's sprite sheet.
    pub player_frame: usize,
    /// Whether the character looks to the left.
    pub player_flip: bool,
    /// Where the character is drawn.
    pub player_position: Vec2,
    /// Size at which the character is drawn, `UNIT` being its own size.
    pub player_scale: i64,
    /// Lower left corner of what the camera sees.
    pub camera_min: Vec2,
    /// Upper right corner of what the camera sees.
    pub camera_max: Vec2,
    /// The room that fades in, while a transition runs.
    pub incoming: Option<Incoming>,
    /// Whether the mute icon shows the music as muted.
    pub muted: bool,
}

/// The value a share `t` of the way from `a` to `b`, `t` running from 0 to `UNIT`.
pub open spec fn blend(a: int, b: int, t: int) -> int {
    a + trunc_div((b - a) * t, UNIT as int)
}

/// How far a transition has run, from 0 to `UNIT`.
pub open spec fn progress_ratio(elapsed: int) -> int {
    elapsed * UNIT / (ENTER_ROOM_TIME as int)
}

/// How far the character has shrunk, from 0 to `UNIT`: it shrinks evenly
/// between `SHRINK_START` and `SHRINK_END`.
pub open spec fn shrink_ratio(elapsed: int) -> int {
    clamped((elapsed - SHRINK_START) * UNIT / ((SHRINK_END - SHRINK_START) as int), 0, UNIT as int)
}

/// How far the character has moved on from the portal's edge to its place
/// inside, from 0 to `UNIT`, once it has shrunk.
pub open spec fn settle_ratio(elapsed: int) -> int {
    (elapsed - SHRINK_END) * UNIT / ((ENTER_ROOM_TIME - SHRINK_END) as int)
}

/// Where the entrance `at` of the target room shows inside the portal
/// cell `cell`: the place at which the character will stand, scaled down
/// to the portal.
pub open spec fn entrance_in_portal(cell: GridCoord, at: GridCoord, body_min_y: int) -> (int, int) {
    (
        cell.x * UNIT + at.x * PIXEL + PIXEL / 2,
        cell.y * UNIT + trunc_div(at.y * UNIT - body_min_y, TILE_SIZE as int),
    )
}

/// The step from the place inside the portal out to where the character
/// waits before it: two pixels of the small room, away from the entrance.
pub open spec fn outside_step(side: RoomEntrance) -> (int, int) {
    match side {
        RoomEntrance::Left => (-2 * PIXEL, 0),
        RoomEntrance::Top => (0, 2 * PIXEL),
        RoomEntrance::Right => (2 * PIXEL, 0),
    }
}

/// Where the character is drawn during a transition: first it moves from
/// where it stands to just outside the entrance, while it shrinks; then
/// on to the entrance.
pub open spec fn transit_position(
    player: CharacterState,
    cell: GridCoord,
    at: GridCoord,
    side: RoomEntrance,
    elapsed: int,
) -> Vec2 {
    let inside = entrance_in_portal(cell, at, player.collision_rect.min.y as int);
    let step = outside_step(side);
    let outside = (inside.0 + step.0, inside.1 + step.1);
    if elapsed < SHRINK_END {
        Vec2 {
            x: blend(player.position.x as int, outside.0, shrink_ratio(elapsed)) as i64,
            y: blend(player.position.y as int, outside.1, shrink_ratio(elapsed)) as i64,
        }
    } else {
        Vec2 {
            x: blend(outside.0, inside.0, settle_ratio(elapsed)) as i64,
            y: blend(outside.1, inside.1, settle_ratio(elapsed)) as i64,
        }
    }
}

/// What a frame shows of a state.
pub open spec fn scene_of(rooms: Seq<Room>, s: GameState) -> Scene {
    match s.transition {
        TransitionState::Idle => Scene {
            room: s.current_room,
            player_frame: s.player.frame() as usize,
            player_flip: s.player.flip,
            player_position: s.player.position,
            player_scale: UNIT,
            camera_min: Vec2 { x: 0, y: 0 },
            camera_max: Vec2 { x: (ROOM_WIDTH * UNIT) as i64, y: (ROOM_HEIGHT * UNIT) as i64 },
            incoming: None,
            muted: s.muted,
        },
        TransitionState::Entering { target_room, entrance_side, source_cell, elapsed } => {
            let at = rooms[target_room.ordinal()].entrance_on(entrance_side)->0;
            let ratio = progress_ratio(elapsed as int);
            Scene {
                room: s.current_room,
                player_frame: s.player.frame() as usize,
                player_flip: s.player.flip,
                player_position: transit_position(
                    s.player,
                    source_cell,
                    at,
                    entrance_side,
                    elapsed as int,
                ),
                player_scale: blend(
                    UNIT as int,
                    PIXEL as int,
                    shrink_ratio(elapsed as int),
                ) as i64,
                camera_min: Vec2 {
                    x: blend(0, source_cell.x * UNIT, ratio) as i64,
                    y: blend(0, source_cell.y * UNIT, ratio) as i64,
                },
                camera_max: Vec2 {
                    x: blend(ROOM_WIDTH * UNIT, (source_cell.x + 1) * UNIT, ratio) as i64,
                    y: blend(ROOM_HEIGHT * UNIT, (source_cell.y + 1) * UNIT, ratio) as i64,
                },
                incoming: Some(
                    Incoming {
                        room: target_room,
                        cell: source_cell,
                        alpha: if ratio > UNIT / 2 {
                            ((ratio - UNIT / 2) * 2) as i64
                        } else {
                            0
                        },
                    },
                ),
                muted: s.muted,
            }
        },
    }
}

/// The value a share `t` of the way from `a` to `b`.
pub fn lerp(t: i64, a: i64, b: i64) -> (r: i64)
    requires
        0 <= t <= UNIT,
        -4 * COORD_LIMIT <= a <= 4 * COORD_LIMIT,
        -4 * COORD_LIMIT <= b <= 4 * COORD_LIMIT,
    ensures
        r == blend(a as int, b as int, t as int),
        a <= b ==> a <= r <= b,
        b <= a ==> b <= r <= a,
{
    let span: i64 = b - a;
    proof {
        assert(-8 * COORD_LIMIT * UNIT <= span * t <= 8 * COORD_LIMIT * UNIT) by (nonlinear_arith)
            requires
                -8 * COORD_LIMIT <= span <= 8 * COORD_LIMIT,
                0 <= t <= UNIT,
        ;
        if span >= 0 {
            assert(0 <= span * t <= span * UNIT) by (nonlinear_arith)
                requires
                    0 <= span,
                    0 <= t <= UNIT,
            ;
            vstd::arithmetic::div_mod::lemma_div_is_ordered(span * t, span * UNIT, UNIT as int);
            vstd::arithmetic::div_mod::lemma_div_multiples_vanish(span as int, UNIT as int);
        } else {
            assert(0 <= (-span) * t <= (-span) * UNIT) by (nonlinear_arith)
                requires
                    span < 0,
                    0 <= t <= UNIT,
            ;
            assert(-(span * t) == (-span) * t) by (nonlinear_arith);
            vstd::arithmetic::div_mod::lemma_div_is_ordered(
                (-span) * t,
                (-span) * UNIT,
                UNIT as int,
            );
            vstd::arithmetic::div_mod::lemma_div_multiples_vanish(-span as int, UNIT as int);
        }
    }
    a + div_toward_zero(span * t, UNIT)
}


/// Puts together what a frame shows of a state.
pub fn compose(rooms: &Vec<Room>, s: &GameState) -> (scene: Scene)
    requires
        rooms@.len() == ROOM_COUNT,
        state_ok(rooms@, *s),
    ensures
        scene == scene_of(rooms@, *s),
        scene.player_frame <= 8,
        0 <= scene.player_scale <= UNIT,
        scene.incoming is Some ==> 0 <= scene.incoming->0.alpha <= UNIT,
{
    let player_frame = s.player.animation_frame();
    match s.transition {
        TransitionState::Idle => Scene {
            room: s.current_room,
            player_frame,
            player_flip: s.player.flip,
            player_position: s.player.position,
            player_scale: UNIT,
            camera_min: Vec2 { x: 0, y: 0 },
            camera_max: Vec2 { x: ROOM_WIDTH * UNIT, y: ROOM_HEIGHT * UNIT },
            incoming: None,
            muted: s.muted,
        },
        TransitionState::Entering { target_room, entrance_side, source_cell, elapsed } => {
            let target = &rooms[target_room.index()];
            proof {
                use_type_invariant(target);
                assert(target.entrance_fits(entrance_side));
            }
            let at = match target.entrance(entrance_side) {
                Some(at) => at,
                None => GridCoord { x: 0, y: 0 },
            };
            let ratio: i64 = elapsed * UNIT / ENTER_ROOM_TIME;
            let shrink: i64 = clamp_to(
                (elapsed - SHRINK_START) * UNIT / (SHRINK_END - SHRINK_START),
                0,
                UNIT,
            );
            let inside_x: i64 = source_cell.x * UNIT + at.x * PIXEL + PIXEL / 2;
            let inside_y: i64 = source_cell.y * UNIT + div_toward_zero(
                at.y * UNIT - s.player.collision_rect.min.y,
                TILE_SIZE,
            );
            let (step_x, step_y): (i64, i64) = match entrance_side {
                RoomEntrance::Left => (-2 * PIXEL, 0),
                RoomEntrance::Top => (0, 2 * PIXEL),
                RoomEntrance::Right => (2 * PIXEL, 0),
            };
            let outside_x: i64 = inside_x + step_x;
            let outside_y: i64 = inside_y + step_y;
            let player_position = if elapsed < SHRINK_END {
                Vec2 {
                    x: lerp(shrink, s.player.position.x, outside_x),
                    y: lerp(shrink, s.player.position.y, outside_y),
                }
            } else {
                let settle: i64 = (elapsed - SHRINK_END) * UNIT / (ENTER_ROOM_TIME - SHRINK_END);
                Vec2 { x: lerp(settle, outside_x, inside_x), y: lerp(settle, outside_y, inside_y) }
            };
            Scene {
                room: s.current_room,
                player_frame,
                player_flip: s.player.flip,
                player_position,
                player_scale: lerp(shrink, UNIT, PIXEL),
                camera_min: Vec2 {
                    x: lerp(ratio, 0, source_cell.x * UNIT),
                    y: lerp(ratio, 0, source_cell.y * UNIT),
                },
                camera_max: Vec2 {
                    x: lerp(ratio, ROOM_WIDTH * UNIT, (source_cell.x + 1) * UNIT),
                    y: lerp(ratio, ROOM_HEIGHT * UNIT, (source_cell.y + 1) * UNIT),
                },
                incoming: Some(
                    Incoming {
                        room: target_room,
                        cell: source_cell,
                        alpha: if ratio > UNIT / 2 {
                            (ratio - UNIT / 2) * 2
                        } else {
                            0
                        },
                    },
                ),
                muted: s.muted,
            }
        },
    }
}

} // verus!
