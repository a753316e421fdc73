//! The room transition sequencer: when a character steps beside a portal
//! it is handed over, half a second later, to the room behind the portal.

use vstd::prelude::*;
use crate::character::CharacterState;
use crate::geometry::{GridCoord, Rect, Vec2};
use crate::solver::body_ok;
use crate::tilemap::{in_grid, Room, RoomColor, RoomEntrance, Tile, TileHit, ROOM_COUNT};
use crate::units::{cell_index, cell_of, COORD_LIMIT, UNIT};

verus! {

/// Duration of a transition.
pub const ENTER_ROOM_TIME: i64 = 30_000;

/// Largest magnitude of the coordinates of a cell that a character can touch.
pub const CELL_LIMIT: i64 = 0x400_0000;

/// Where the sequencer stands.
#[derive(Clone, Copy, Debug, PartialEq, Eq, Structural)]
pub enum TransitionState {
    /// The character moves freely.
    Idle,
    /// The character is being handed over to `target_room`, which it will
    /// enter on `entrance_side`; it touched the portal at `source_cell`,
    /// `elapsed` ago.
    Entering {
        target_room: RoomColor,
        entrance_side: RoomEntrance,
        source_cell: GridCoord,
        elapsed: i64,
    },
}

/// The cell beside a portal from which a character enters through `side`:
/// left of the portal for a left entrance, above it for a top entrance,
/// right of it for a right entrance.
pub open spec fn probe_cell(portal: GridCoord, side: RoomEntrance) -> (int, int) {
    match side {
        RoomEntrance::Left => (portal.x - 1, portal.y as int),
        RoomEntrance::Top => (portal.x as int, portal.y + 1),
        RoomEntrance::Right => (portal.x + 1, portal.y as int),
    }
}

/// Whether the point `p` lies in the cell beside `portal` that belongs to `side`.
pub open spec fn stands_beside(p: Vec2, portal: GridCoord, side: RoomEntrance) -> bool {
    cell_index(p.x as int) == probe_cell(portal, side).0 && cell_index(p.y as int) == probe_cell(
        portal,
        side,
    ).1
}

/// Whether a character at `p` may pass through a portal at `portal` into
/// `target` on `side`: it stands in the cell of that side, and the target
/// room has an entrance there.
pub open spec fn admits(target: Room, p: Vec2, portal: GridCoord, side: RoomEntrance) -> bool {
    stands_beside(p, portal, side) && target.entrance_on(side) is Some
}

/// The transition that one cell of the range query starts for a character
/// at `p`, if it is a portal that admits the character.
pub open spec fn entry_through(rooms: Seq<Room>, p: Vec2, hit: TileHit) -> Option<
    TransitionState,
> {
    match hit.tile {
        Tile::Room(color) => {
            let target = rooms[color.ordinal()];
            let side = if admits(target, p, hit.cell, RoomEntrance::Right) {
                Some(RoomEntrance::Right)
            } else if admits(target, p, hit.cell, RoomEntrance::Top) {
                Some(RoomEntrance::Top)
            } else if admits(target, p, hit.cell, RoomEntrance::Left) {
                Some(RoomEntrance::Left)
            } else {
                None
            };
            match side {
                Some(entrance_side) => Some(
                    TransitionState::Entering {
                        target_room: color,
                        entrance_side,
                        source_cell: hit.cell,
                        elapsed: 0,
                    },
                ),
                None => None,
            }
        },
        _ => None,
    }
}

/// The transition that the cells of a range query start: that of the last
/// cell, in query order, that starts one.
pub open spec fn entry_among(rooms: Seq<Room>, p: Vec2, hits: Seq<TileHit>) -> Option<
    TransitionState,
>
    decreases hits.len(),
{
    if hits.len() == 0 {
        None
    } else {
        match entry_through(rooms, p, hits.last()) {
            Some(t) => Some(t),
            None => entry_among(rooms, p, hits.drop_last()),
        }
    }
}

/// The transition that a character starts where it stands in `room`, if any.
pub open spec fn entry(rooms: Seq<Room>, room: Room, character: CharacterState) -> Option<
    TransitionState,
> {
    entry_among(
        rooms,
        character.position,
        room.tiles_in(character.interact_rect.translated(character.position)),
    )
}

/// Where a character with the collision rectangle `body` stands after it
/// entered at the cell `at`: half a tile into the cell, the lower side of
/// its body on the lower side of the cell.
pub open spec fn arrival(at: GridCoord, body: Rect) -> Vec2 {
    Vec2 { x: (at.x * UNIT + UNIT / 2) as i64, y: (at.y * UNIT - body.min.y) as i64 }
}

/// Whether a transition has just started, at a cell within reach, into a
/// room that has the entrance it names.
pub open spec fn starts_well(rooms: Seq<Room>, t: TransitionState) -> bool {
    match t {
        TransitionState::Idle => false,
        TransitionState::Entering { target_room, entrance_side, source_cell, elapsed } => {
            &&& elapsed == 0
            &&& -CELL_LIMIT <= source_cell.x <= CELL_LIMIT
            &&& -CELL_LIMIT <= source_cell.y <= CELL_LIMIT
            &&& rooms[target_room.ordinal()].entrance_on(entrance_side) is Some
        },
    }
}

/// Tests whether `p` lies in the cell `(x, y)`.
fn stands_in(p: Vec2, x: i64, y: i64) -> (b: bool)
    ensures
        b == (cell_index(p.x as int) == x && cell_index(p.y as int) == y),
{
    cell_of(p.x) == x && cell_of(p.y) == y
}

/// The transition that one cell of the range query starts for a character at `p`.
pub fn enter_through(rooms: &Vec<Room>, p: Vec2, hit: TileHit) -> (t: Option<TransitionState>)
    requires
        rooms@.len() == ROOM_COUNT,
        -CELL_LIMIT <= hit.cell.x <= CELL_LIMIT,
        -CELL_LIMIT <= hit.cell.y <= CELL_LIMIT,
    ensures
        t == entry_through(rooms@, p, hit),
        t is Some ==> starts_well(rooms@, t->0),
{
    match hit.tile {
        Tile::Room(color) => {
            let target = &rooms[color.index()];
            let side = if stands_in(p, hit.cell.x + 1, hit.cell.y) && target.entrance(
                RoomEntrance::Right,
            ).is_some() {
                Some(RoomEntrance::Right)
            } else if stands_in(p, hit.cell.x, hit.cell.y + 1) && target.entrance(
                RoomEntrance::Top,
            ).is_some() {
                Some(RoomEntrance::Top)
            } else if stands_in(p, hit.cell.x - 1, hit.cell.y) && target.entrance(
                RoomEntrance::Left,
            ).is_some() {
                Some(RoomEntrance::Left)
            } else {
                None
            };
            match side {
                Some(entrance_side) => Some(
                    TransitionState::Entering {
                        target_room: color,
                        entrance_side,
                        source_cell: hit.cell,
                        elapsed: 0,
                    },
                ),
                None => None,
            }
        },
        _ => None,
    }
}

/// Looks for a portal that the character touches from a side on which the
/// room behind it can be entered.
pub fn detect_entry(rooms: &Vec<Room>, room: &Room, character: &CharacterState) -> (t: Option<
    TransitionState,
>)
    requires
        rooms@.len() == ROOM_COUNT,
        character.wf(),
    ensures
        t == entry(rooms@, *room, *character),
        t is Some ==> starts_well(rooms@, t->0),
{
    let area = character.interact_rect.translate(character.position);
    let hits = room.for_each_tile_in_rect(area);
    let mut found: Option<TransitionState> = None;
    let mut k: usize = 0;
    while k < hits.len()
        invariant
            rooms@.len() == ROOM_COUNT,
            k <= hits@.len(),
            area.min.bounded(2 * COORD_LIMIT),
            area.max.bounded(2 * COORD_LIMIT),
            forall|j: int|
                0 <= j < hits@.len() ==> {
                    &&& area.first_column() <= (#[trigger] hits@[j]).cell.x <= area.last_column()
                    &&& area.first_row() <= hits@[j].cell.y <= area.last_row()
                },
            found == entry_among(rooms@, character.position, hits@.take(k as int)),
            found is Some ==> starts_well(rooms@, found->0),
        decreases hits@.len() - k,
    {
        proof {
            assert(hits@.take(k + 1).drop_last() =~= hits@.take(k as int));
            assert(hits@.take(k + 1).last() == hits@[k as int]);
        }
        match enter_through(rooms, character.position, hits[k]) {
            Some(t) => {
                found = Some(t);
            },
            None => {},
        }
        k = k + 1;
    }
    assert(hits@.take(k as int) =~= hits@);
    found
}

/// Where a character with the collision rectangle `body` stands after it
/// entered at the cell `at`.
pub fn arrive(at: GridCoord, body: Rect) -> (p: Vec2)
    requires
        body_ok(body),
        in_grid(at.x as int, at.y as int),
    ensures
        p == arrival(at, body),
        p.bounded(COORD_LIMIT as int),
{
    Vec2 { x: at.x * UNIT + UNIT / 2, y: at.y * UNIT - body.min.y }
}

} // verus!
