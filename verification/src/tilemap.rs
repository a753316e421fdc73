//! The room grid: tiles, the border rule, the range query and the entrances.

use vstd::prelude::*;
use crate::geometry::{GridCoord, Rect};
use crate::units::cell_of;

verus! {

/// Width of every room, in cells.
pub const ROOM_WIDTH: i64 = 15;

/// Height of every room, in cells.
pub const ROOM_HEIGHT: i64 = 15;

/// Number of cells of a room.
pub const ROOM_CELLS: usize = 225;

/// Number of rooms that the legend of the layout format names.
pub const ROOM_COUNT: usize = 11;

/// The identifier of a room.
#[derive(Clone, Copy, Debug, PartialEq, Eq, Hash, Structural)]
pub enum RoomColor {
    Red,
    Orange,
    Yellow,
    Green,
    Turquoise,
    Aqua,
    Chetwood,
    Blue,
    Purple,
    Magenta,
    Ferrish,
}

/// One cell of a room: free space, a wall, or the portal into another room.
#[derive(Clone, Copy, Debug, PartialEq, Eq, Structural)]
pub enum Tile {
    Empty,
    Solid,
    Room(RoomColor),
}

/// The side of a room through which a character may enter it.
#[derive(Clone, Copy, Debug, PartialEq, Eq, Structural)]
pub enum RoomEntrance {
    Left,
    Right,
    Top,
}

/// A cell that a range query met, with the tile found there.
#[derive(Clone, Copy, Debug, PartialEq, Eq, Structural)]
pub struct TileHit {
    pub cell: GridCoord,
    pub tile: Tile,
}

/// An immutable 15 x 15 grid of tiles with up to three entrance cells.
#[derive(Debug)]
pub struct Room {
    tiles: Vec<Tile>,
    left_entrance: Option<GridCoord>,
    top_entrance: Option<GridCoord>,
    right_entrance: Option<GridCoord>,
}

impl RoomColor {
    /// Position of the room in a registry of all rooms.
    pub open spec fn ordinal(self) -> int {
        match self {
            RoomColor::Red => 0,
            RoomColor::Orange => 1,
            RoomColor::Yellow => 2,
            RoomColor::Green => 3,
            RoomColor::Turquoise => 4,
            RoomColor::Aqua => 5,
            RoomColor::Chetwood => 6,
            RoomColor::Blue => 7,
            RoomColor::Purple => 8,
            RoomColor::Magenta => 9,
            RoomColor::Ferrish => 10,
        }
    }

    /// Position of the room in a registry of all rooms.
    pub fn index(self) -> (i: usize)
        ensures
            i == self.ordinal(),
            i < ROOM_COUNT,
    {
        match self {
            RoomColor::Red => 0,
            RoomColor::Orange => 1,
            RoomColor::Yellow => 2,
            RoomColor::Green => 3,
            RoomColor::Turquoise => 4,
            RoomColor::Aqua => 5,
            RoomColor::Chetwood => 6,
            RoomColor::Blue => 7,
            RoomColor::Purple => 8,
            RoomColor::Magenta => 9,
            RoomColor::Ferrish => 10,
        }
    }

    /// Hue of the room's palette, in whole degrees.
    pub fn hue(self) -> (h: u16)
        ensures
            h < 360,
            h == match self {
                RoomColor::Red => 0u16,
                RoomColor::Orange => 26u16,
                RoomColor::Yellow => 57u16,
                RoomColor::Green => 129u16,
                RoomColor::Turquoise => 155u16,
                RoomColor::Aqua => 166u16,
                RoomColor::Chetwood => 199u16,
                RoomColor::Blue => 225u16,
                RoomColor::Purple => 255u16,
                RoomColor::Magenta => 300u16,
                RoomColor::Ferrish => 335u16,
            },
    {
        match self {
            RoomColor::Red => 0,
            RoomColor::Orange => 26,
            RoomColor::Yellow => 57,
            RoomColor::Green => 129,
            RoomColor::Turquoise => 155,
            RoomColor::Aqua => 166,
            RoomColor::Chetwood => 199,
            RoomColor::Blue => 225,
            RoomColor::Purple => 255,
            RoomColor::Magenta => 300,
            RoomColor::Ferrish => 335,
        }
    }
}

/// Whether `(x, y)` names a cell of the grid.
pub open spec fn in_grid(x: int, y: int) -> bool {
    0 <= x < ROOM_WIDTH && 0 <= y < ROOM_HEIGHT
}

/// The tile that a grid holds at `(x, y)`; everything beyond the grid is a wall.
pub open spec fn grid_tile(grid: Seq<Tile>, x: int, y: int) -> Tile {
    if in_grid(x, y) {
        grid[y * ROOM_WIDTH + x]
    } else {
        Tile::Solid
    }
}

/// The cells whose unit square meets `rect`, column by column from the left,
/// each column from the bottom.
pub open spec fn cells_in(rect: Rect) -> Seq<GridCoord> {
    let x0 = rect.first_column();
    let y0 = rect.first_row();
    let columns = rect.last_column() - x0 + 1;
    let rows = rect.last_row() - y0 + 1;
    if columns <= 0 || rows <= 0 {
        Seq::empty()
    } else {
        Seq::new(
            (columns * rows) as nat,
            |k: int| GridCoord { x: (x0 + k / rows) as i64, y: (y0 + k % rows) as i64 },
        )
    }
}

/// Every cell of `cells_in` lies in the columns and rows of the rectangle.
pub proof fn lemma_cells_within(rect: Rect, k: int)
    requires
        0 <= k < cells_in(rect).len(),
    ensures
        rect.first_column() <= cells_in(rect)[k].x <= rect.last_column(),
        rect.first_row() <= cells_in(rect)[k].y <= rect.last_row(),
{
    let x0 = rect.first_column();
    let y0 = rect.first_row();
    let columns = rect.last_column() - x0 + 1;
    let rows = rect.last_row() - y0 + 1;
    assert(columns > 0 && rows > 0);
    vstd::arithmetic::div_mod::lemma_fundamental_div_mod(k, rows);
    vstd::arithmetic::div_mod::lemma_mod_bound(k, rows);
    vstd::arithmetic::div_mod::lemma_div_pos_is_pos(k, rows);
    assert(k / rows < columns) by (nonlinear_arith)
        requires
            k == rows * (k / rows) + k % rows,
            0 <= k % rows,
            k < columns * rows,
            rows > 0,
    ;
}

/// Every cell in the columns and rows of the rectangle is one of `cells_in`.
pub proof fn lemma_cells_cover(rect: Rect, x: int, y: int) -> (k: int)
    requires
        rect.first_column() <= x <= rect.last_column(),
        rect.first_row() <= y <= rect.last_row(),
    ensures
        0 <= k < cells_in(rect).len(),
        cells_in(rect)[k] == (GridCoord { x: x as i64, y: y as i64 }),
{
    let x0 = rect.first_column();
    let y0 = rect.first_row();
    let columns = rect.last_column() - x0 + 1;
    let rows = rect.last_row() - y0 + 1;
    let k = (x - x0) * rows + (y - y0);
    vstd::arithmetic::div_mod::lemma_fundamental_div_mod_converse(k, rows, x - x0, y - y0);
    assert(0 <= k < columns * rows) by (nonlinear_arith)
        requires
            k == (x - x0) * rows + (y - y0),
            0 <= y - y0 < rows,
            0 <= x - x0 < columns,
    ;
    k
}

impl Room {
    /// The tiles of the grid, row by row from the bottom.
    pub closed spec fn grid(&self) -> Seq<Tile> {
        self.tiles@
    }

    /// The entrance cell on `side`, if the room has one.
    pub closed spec fn entrance_on(&self, side: RoomEntrance) -> Option<GridCoord> {
        match side {
            RoomEntrance::Left => self.left_entrance,
            RoomEntrance::Top => self.top_entrance,
            RoomEntrance::Right => self.right_entrance,
        }
    }

    /// The tile at `(x, y)`, with the border rule applied.
    pub open spec fn tile(&self, x: int, y: int) -> Tile {
        grid_tile(self.grid(), x, y)
    }

    /// What the range query over `rect` finds: every cell of `cells_in`,
    /// in that order, with its tile.
    pub open spec fn tiles_in(&self, rect: Rect) -> Seq<TileHit> {
        Seq::new(
            cells_in(rect).len(),
            |k: int|
                TileHit {
                    cell: cells_in(rect)[k],
                    tile: self.tile(cells_in(rect)[k].x as int, cells_in(rect)[k].y as int),
                },
        )
    }

    /// Whether an entrance lies on the edge that `side` names, on an empty cell.
    pub open spec fn entrance_fits(&self, side: RoomEntrance) -> bool {
        match self.entrance_on(side) {
            None => true,
            Some(c) => {
                &&& in_grid(c.x as int, c.y as int)
                &&& self.tile(c.x as int, c.y as int) == Tile::Empty
                &&& match side {
                    RoomEntrance::Left => c.x == 0,
                    RoomEntrance::Right => c.x == ROOM_WIDTH - 1,
                    RoomEntrance::Top => c.y == ROOM_HEIGHT - 1,
                }
            },
        }
    }

    /// The grid has its fixed size and every entrance is an empty cell of its
    /// edge. This holds of every room that the program holds.
    #[verifier::type_invariant]
    pub open spec fn wf(&self) -> bool {
        &&& self.grid().len() == ROOM_CELLS
        &&& self.entrance_fits(RoomEntrance::Left)
        &&& self.entrance_fits(RoomEntrance::Top)
        &&& self.entrance_fits(RoomEntrance::Right)
    }

    /// Puts a room together from its grid and its entrances.
    pub(crate) fn assemble(
        tiles: Vec<Tile>,
        left_entrance: Option<GridCoord>,
        top_entrance: Option<GridCoord>,
        right_entrance: Option<GridCoord>,
    ) -> (room: Room)
        requires
            tiles@.len() == ROOM_CELLS,
            left_entrance is Some ==> left_entrance->0.x == 0 && 0 <= left_entrance->0.y
                < ROOM_HEIGHT && tiles@[left_entrance->0.y * ROOM_WIDTH] == Tile::Empty,
            right_entrance is Some ==> right_entrance->0.x == ROOM_WIDTH - 1 && 0
                <= right_entrance->0.y < ROOM_HEIGHT && tiles@[right_entrance->0.y * ROOM_WIDTH
                + ROOM_WIDTH - 1] == Tile::Empty,
            top_entrance is Some ==> top_entrance->0.y == ROOM_HEIGHT - 1 && 0
                <= top_entrance->0.x < ROOM_WIDTH && tiles@[(ROOM_HEIGHT - 1) * ROOM_WIDTH
                + top_entrance->0.x] == Tile::Empty,
        ensures
            room.wf(),
            room.grid() == tiles@,
            room.entrance_on(RoomEntrance::Left) == left_entrance,
            room.entrance_on(RoomEntrance::Top) == top_entrance,
            room.entrance_on(RoomEntrance::Right) == right_entrance,
    {
        Room { tiles, left_entrance, top_entrance, right_entrance }
    }

    /// The tile at `(x, y)`; any coordinate outside the grid is a wall.
    pub fn tile_at(&self, x: i64, y: i64) -> (t: Tile)
        ensures
            t == self.tile(x as int, y as int),
            !in_grid(x as int, y as int) ==> t == Tile::Solid,
    {
        proof {
            use_type_invariant(self);
        }
        if x < 0 || x >= ROOM_WIDTH || y < 0 || y >= ROOM_HEIGHT {
            Tile::Solid
        } else {
            let cell: i64 = y * ROOM_WIDTH + x;
            self.tiles[cell as usize]
        }
    }

    /// The entrance cell on `side`, if the room has one.
    pub fn entrance(&self, side: RoomEntrance) -> (e: Option<GridCoord>)
        ensures
            e == self.entrance_on(side),
    {
        match side {
            RoomEntrance::Left => self.left_entrance,
            RoomEntrance::Top => self.top_entrance,
            RoomEntrance::Right => self.right_entrance,
        }
    }

    /// Every cell whose unit square meets `bound_rect`, with its tile, in the
    /// order of `cells_in`. Cells beyond the grid come out as walls.
    pub fn for_each_tile_in_rect(&self, bound_rect: Rect) -> (hits: Vec<TileHit>)
        ensures
            hits@ == self.tiles_in(bound_rect),
            hits@.len() == cells_in(bound_rect).len(),
            forall|k: int|
                0 <= k < hits@.len() ==> {
                    &&& (#[trigger] hits@[k]).cell == cells_in(bound_rect)[k]
                    &&& hits@[k].tile == self.tile(hits@[k].cell.x as int, hits@[k].cell.y as int)
                    &&& bound_rect.first_column() <= hits@[k].cell.x <= bound_rect.last_column()
                    &&& bound_rect.first_row() <= hits@[k].cell.y <= bound_rect.last_row()
                },
    {
        let min_x = cell_of(bound_rect.min.x);
        let max_x = cell_of(bound_rect.max.x);
        let min_y = cell_of(bound_rect.min.y);
        let max_y = cell_of(bound_rect.max.y);
        let mut hits: Vec<TileHit> = Vec::new();
        if max_x < min_x || max_y < min_y {
            assert(hits@ =~= self.tiles_in(bound_rect));
            return hits;
        }
        let ghost rows: int = max_y - min_y + 1;
        let ghost cells = cells_in(bound_rect);
        let mut x: i64 = min_x;
        while x <= max_x
            invariant
                min_x <= x <= max_x + 1,
                min_y <= max_y,
                -0x1_0000_0000_0000 < min_x && max_x < 0x1_0000_0000_0000,
                -0x1_0000_0000_0000 < min_y && max_y < 0x1_0000_0000_0000,
                min_x == bound_rect.first_column(),
                max_x == bound_rect.last_column(),
                min_y == bound_rect.first_row(),
                max_y == bound_rect.last_row(),
                rows == max_y - min_y + 1,
                cells == cells_in(bound_rect),
                hits@.len() == (x - min_x) * rows,
                forall|k: int|
                    0 <= k < hits@.len() ==> {
                        &&& (#[trigger] hits@[k]).cell == cells[k]
                        &&& hits@[k].tile == self.tile(
                            hits@[k].cell.x as int,
                            hits@[k].cell.y as int,
                        )
                        &&& min_x <= hits@[k].cell.x <= max_x
                        &&& min_y <= hits@[k].cell.y <= max_y
                    },
            decreases max_x + 1 - x,
        {
            let mut y: i64 = min_y;
            while y <= max_y
                invariant
                    min_x <= x <= max_x,
                    min_y <= y <= max_y + 1,
                    -0x1_0000_0000_0000 < min_x && max_x < 0x1_0000_0000_0000,
                    -0x1_0000_0000_0000 < min_y && max_y < 0x1_0000_0000_0000,
                    min_x == bound_rect.first_column(),
                    max_x == bound_rect.last_column(),
                    min_y == bound_rect.first_row(),
                    max_y == bound_rect.last_row(),
                    rows == max_y - min_y + 1,
                    cells == cells_in(bound_rect),
                    hits@.len() == (x - min_x) * rows + (y - min_y),
                    forall|k: int|
                        0 <= k < hits@.len() ==> {
                            &&& (#[trigger] hits@[k]).cell == cells[k]
                            &&& hits@[k].tile == self.tile(
                                hits@[k].cell.x as int,
                                hits@[k].cell.y as int,
                            )
                        &&& min_x <= hits@[k].cell.x <= max_x
                        &&& min_y <= hits@[k].cell.y <= max_y
                        },
                decreases max_y + 1 - y,
            {
                proof {
                    let k = (x - min_x) * rows + (y - min_y);
                    vstd::arithmetic::div_mod::lemma_fundamental_div_mod_converse(
                        k,
                        rows,
                        x - min_x,
                        y - min_y,
                    );
                    assert(k < (max_x - min_x + 1) * rows) by (nonlinear_arith)
                        requires
                            k == (x - min_x) * rows + (y - min_y),
                            0 <= y - min_y < rows,
                            0 <= x - min_x <= max_x - min_x,
                    ;
                    assert(cells[k] == GridCoord { x, y });
                }
                let tile = self.tile_at(x, y);
                hits.push(TileHit { cell: GridCoord { x, y }, tile });
                y = y + 1;
            }
            proof {
                assert((x - min_x) * rows + rows == (x + 1 - min_x) * rows) by (nonlinear_arith);
            }
            x = x + 1;
        }
        assert(hits@ =~= self.tiles_in(bound_rect));
        hits
    }
}

} // verus!
