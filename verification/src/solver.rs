//! The collision solver: pushes a character's rectangle out of the walls of
//! a room, one correction at a time.

use vstd::prelude::*;
use crate::geometry::{GridCoord, Rect, Vec2};
use crate::tilemap::{cells_in, Room, Tile};
use crate::units::{abs_of, magnitude, COORD_LIMIT, UNIT};

verus! {

/// Margin by which the rectangle is shrunk on its left, right and lower side
/// before it is tested, so that a rectangle that only touches a wall is free.
pub const SKIN: i64 = 6;

/// Margin by which the rectangle is shrunk on its upper side.
pub const SKIN_TOP: i64 = 114;

/// A length beyond any correction; the solver's "nothing found yet".
pub const FAR: i64 = 9_999 * UNIT;

/// Number of passes after which the solver gives up.
pub const MAX_PASSES: u32 = 100;

/// Largest distance of a side of a character's rectangle from its position.
pub const EXTENT_LIMIT: i64 = 16 * UNIT;

/// Largest magnitude of a position that the solver accepts.
pub const REACH_LIMIT: i64 = 2 * COORD_LIMIT;

/// The solver could not free the rectangle within its passes.
#[derive(Clone, Copy, Debug, PartialEq, Eq, Structural)]
pub enum SolverError {
    IterationCap,
}

/// What the solver works on and hands back: where the character is, how it
/// moves, how long it has been off the ground, and how many corrections
/// were applied so far.
#[derive(Clone, Copy, Debug, PartialEq, Eq, Structural)]
pub struct Contact {
    pub position: Vec2,
    pub velocity: Vec2,
    pub since_on_ground: i64,
    pub corrections: u32,
}

/// Whether a rectangle of local offsets can serve as a character's body.
pub open spec fn body_ok(body: Rect) -> bool {
    &&& -EXTENT_LIMIT <= body.min.x <= body.max.x <= EXTENT_LIMIT
    &&& -EXTENT_LIMIT <= body.min.y <= body.max.y <= EXTENT_LIMIT
    &&& body.max.x - body.min.x >= 2 * SKIN
    &&& body.max.y - body.min.y >= SKIN + SKIN_TOP
}

/// Tests whether a rectangle of local offsets can serve as a character's body.
pub fn body_fits(body: Rect) -> (b: bool)
    ensures
        b == body_ok(body),
{
    -EXTENT_LIMIT <= body.min.x && body.min.x <= body.max.x && body.max.x <= EXTENT_LIMIT
        && -EXTENT_LIMIT <= body.min.y && body.min.y <= body.max.y && body.max.y <= EXTENT_LIMIT
        && body.max.x - body.min.x >= 2 * SKIN && body.max.y - body.min.y >= SKIN + SKIN_TOP
}

/// The rectangle that is tested against the grid: the body at `p`, shrunk by the skin.
pub open spec fn probe(body: Rect, p: Vec2) -> Rect {
    Rect {
        min: Vec2 { x: (p.x + body.min.x + SKIN) as i64, y: (p.y + body.min.y + SKIN) as i64 },
        max: Vec2 {
            x: (p.x + body.max.x - SKIN) as i64,
            y: (p.y + body.max.y - SKIN_TOP) as i64,
        },
    }
}

/// Whether the body at `p` overlaps a cell that is not empty.
pub open spec fn overlapping(room: Room, body: Rect, p: Vec2) -> bool {
    exists|k: int|
        0 <= k < cells_in(probe(body, p)).len() && room.tile(
            (#[trigger] cells_in(probe(body, p))[k]).x as int,
            cells_in(probe(body, p))[k].y as int,
        ) != Tile::Empty
}

/// The four corrections that free the body at `p` from one cell: to the
/// right, to the left, up and down.
pub open spec fn pushes(body: Rect, p: Vec2, cell: GridCoord) -> Seq<Vec2> {
    seq![
        Vec2 { x: ((cell.x + 1) * UNIT - (p.x + body.min.x)) as i64, y: 0 },
        Vec2 { x: (cell.x * UNIT - (p.x + body.max.x)) as i64, y: 0 },
        Vec2 { x: 0, y: ((cell.y + 1) * UNIT - (p.y + body.min.y)) as i64 },
        Vec2 { x: 0, y: (cell.y * UNIT - (p.y + body.max.y)) as i64 },
    ]
}

/// The corrections that the cells of `cells` give, in order: four for every
/// cell that is not empty.
pub open spec fn candidates_over(room: Room, body: Rect, p: Vec2, cells: Seq<GridCoord>) -> Seq<
    Vec2,
>
    decreases cells.len(),
{
    if cells.len() == 0 {
        Seq::empty()
    } else {
        let before = candidates_over(room, body, p, cells.drop_last());
        let c = cells.last();
        if room.tile(c.x as int, c.y as int) != Tile::Empty {
            before + pushes(body, p, c)
        } else {
            before
        }
    }
}

/// All corrections that one pass of the solver collects for the body at `p`.
pub open spec fn candidates(room: Room, body: Rect, p: Vec2) -> Seq<Vec2> {
    candidates_over(room, body, p, cells_in(probe(body, p)))
}

/// Every candidate frees the body from its cell by a move of at least the
/// skin and of less than the body's extent and one tile.
pub open spec fn push_sized(body: Rect, v: Vec2) -> bool {
    ||| v.y == 0 && SKIN <= magnitude(v.x as int) <= body.max.x - body.min.x + UNIT
    ||| v.x == 0 && SKIN <= magnitude(v.y as int) <= body.max.y - body.min.y + UNIT
}

/// The four corrections of a cell that the probe meets.
proof fn lemma_pushes(body: Rect, p: Vec2, cell: GridCoord)
    requires
        body_ok(body),
        p.bounded(REACH_LIMIT + 100 * FAR),
        probe(body, p).first_column() <= cell.x <= probe(body, p).last_column(),
        probe(body, p).first_row() <= cell.y <= probe(body, p).last_row(),
    ensures
        pushes(body, p, cell).len() == 4,
        pushes(body, p, cell)[0].x == (cell.x + 1) * UNIT - (p.x + body.min.x),
        pushes(body, p, cell)[1].x == cell.x * UNIT - (p.x + body.max.x),
        pushes(body, p, cell)[2].y == (cell.y + 1) * UNIT - (p.y + body.min.y),
        pushes(body, p, cell)[3].y == cell.y * UNIT - (p.y + body.max.y),
        SKIN < pushes(body, p, cell)[0].x <= body.max.x - body.min.x + UNIT,
        -(body.max.x - body.min.x + UNIT) < pushes(body, p, cell)[1].x <= -SKIN,
        SKIN < pushes(body, p, cell)[2].y <= body.max.y - body.min.y + UNIT,
        -(body.max.y - body.min.y + UNIT) < pushes(body, p, cell)[3].y <= -SKIN_TOP,
        forall|i: int| 0 <= i < 4 ==> push_sized(body, #[trigger] pushes(body, p, cell)[i]),
{
}


/// Largest positive x among the candidates, or zero.
pub open spec fn farthest_right(c: Seq<Vec2>) -> int
    decreases c.len(),
{
    if c.len() == 0 {
        0
    } else {
        let m = farthest_right(c.drop_last());
        if c.last().x > m {
            c.last().x as int
        } else {
            m
        }
    }
}

/// Most negative x among the candidates, or zero.
pub open spec fn farthest_left(c: Seq<Vec2>) -> int
    decreases c.len(),
{
    if c.len() == 0 {
        0
    } else {
        let m = farthest_left(c.drop_last());
        if c.last().x < m {
            c.last().x as int
        } else {
            m
        }
    }
}

/// Largest positive y among the candidates, or zero.
pub open spec fn farthest_up(c: Seq<Vec2>) -> int
    decreases c.len(),
{
    if c.len() == 0 {
        0
    } else {
        let m = farthest_up(c.drop_last());
        if c.last().y > m {
            c.last().y as int
        } else {
            m
        }
    }
}

/// Most negative y among the candidates, or zero.
pub open spec fn farthest_down(c: Seq<Vec2>) -> int
    decreases c.len(),
{
    if c.len() == 0 {
        0
    } else {
        let m = farthest_down(c.drop_last());
        if c.last().y < m {
            c.last().y as int
        } else {
            m
        }
    }
}

/// The first candidate of the smallest Euclidean length, if one is shorter
/// than the vector `(FAR, FAR)`; else that vector.
pub open spec fn shortest(c: Seq<Vec2>) -> Vec2
    decreases c.len(),
{
    if c.len() == 0 {
        Vec2 { x: FAR, y: FAR }
    } else {
        let m = shortest(c.drop_last());
        if c.last().length_squared() < m.length_squared() {
            c.last()
        } else {
            m
        }
    }
}

/// What one pass reduces its candidates to.
#[derive(Clone, Copy, Debug, PartialEq, Eq, Structural)]
pub struct Extremes {
    pub left: i64,
    pub right: i64,
    pub up: i64,
    pub down: i64,
    pub shortest: Vec2,
}

/// The extremes of a list of candidates.
pub open spec fn extremes_of(c: Seq<Vec2>) -> Extremes {
    Extremes {
        left: farthest_left(c) as i64,
        right: farthest_right(c) as i64,
        up: farthest_up(c) as i64,
        down: farthest_down(c) as i64,
        shortest: shortest(c),
    }
}

/// The single-axis correction of the smallest magnitude among left, right,
/// up and down, in this order, the first winning a tie; the zero vector if
/// none is smaller than `FAR`.
pub open spec fn axis_choice(e: Extremes) -> Vec2 {
    let m0 = FAR as int;
    let v0 = Vec2 { x: 0, y: 0 };
    let v1 = if magnitude(e.left as int) < m0 {
        Vec2 { x: e.left, y: 0 }
    } else {
        v0
    };
    let m1 = if magnitude(e.left as int) < m0 {
        magnitude(e.left as int)
    } else {
        m0
    };
    let v2 = if magnitude(e.right as int) < m1 {
        Vec2 { x: e.right, y: 0 }
    } else {
        v1
    };
    let m2 = if magnitude(e.right as int) < m1 {
        magnitude(e.right as int)
    } else {
        m1
    };
    let v3 = if magnitude(e.up as int) < m2 {
        Vec2 { x: 0, y: e.up }
    } else {
        v2
    };
    let m3 = if magnitude(e.up as int) < m2 {
        magnitude(e.up as int)
    } else {
        m2
    };
    if magnitude(e.down as int) < m3 {
        Vec2 { x: 0, y: e.down }
    } else {
        v3
    }
}

/// The magnitude of the single-axis correction that `axis_choice` picks, or `FAR`.
pub open spec fn axis_magnitude(e: Extremes) -> int {
    let m1 = if magnitude(e.left as int) < FAR {
        magnitude(e.left as int)
    } else {
        FAR as int
    };
    let m2 = if magnitude(e.right as int) < m1 {
        magnitude(e.right as int)
    } else {
        m1
    };
    let m3 = if magnitude(e.up as int) < m2 {
        magnitude(e.up as int)
    } else {
        m2
    };
    if magnitude(e.down as int) < m3 {
        magnitude(e.down as int)
    } else {
        m3
    }
}

/// The correction that a pass applies: the single-axis choice if it moves
/// by less than one tile, else the shortest candidate.
pub open spec fn chosen(e: Extremes) -> Vec2 {
    if axis_magnitude(e) < UNIT {
        axis_choice(e)
    } else {
        e.shortest
    }
}

/// The correction that a pass applies to the body at `p`.
pub open spec fn correction(room: Room, body: Rect, p: Vec2) -> Vec2 {
    chosen(extremes_of(candidates(room, body, p)))
}

/// The state after a correction: the position moved; the ground timer reset
/// if the move points up; the speed taken away along x if the move has an x
/// part, else along y.
pub open spec fn corrected(s: Contact, by: Vec2) -> Contact {
    Contact {
        position: s.position.plus(by),
        velocity: if by.x != 0 {
            Vec2 { x: 0, y: s.velocity.y }
        } else {
            Vec2 { x: s.velocity.x, y: 0 }
        },
        since_on_ground: if by.y > 0 {
            0
        } else {
            s.since_on_ground
        },
        corrections: (s.corrections + 1) as u32,
    }
}

/// Where the solver ends when it starts from `s` with `passes` passes left:
/// the first state on its way at which the body overlaps nothing, or `None`
/// if the passes run out first.
pub open spec fn resolved_from(room: Room, body: Rect, s: Contact, passes: nat) -> Option<Contact>
    decreases passes,
{
    if passes == 0 {
        None
    } else if !overlapping(room, body, s.position) {
        Some(s)
    } else {
        resolved_from(
            room,
            body,
            corrected(s, correction(room, body, s.position)),
            (passes - 1) as nat,
        )
    }
}

/// The result of the solver for a tentative position.
pub open spec fn resolution(
    room: Room,
    body: Rect,
    position: Vec2,
    velocity: Vec2,
    since_on_ground: i64,
) -> Option<Contact> {
    resolved_from(
        room,
        body,
        Contact { position, velocity, since_on_ground, corrections: 0 },
        MAX_PASSES as nat,
    )
}

/// Collects the corrections of one pass.
pub fn collect_candidates(room: &Room, body: Rect, p: Vec2) -> (found: Vec<Vec2>)
    requires
        body_ok(body),
        p.bounded(REACH_LIMIT + 100 * FAR),
    ensures
        found@ == candidates(*room, body, p),
        found@.len() > 0 <==> overlapping(*room, body, p),
        forall|i: int| 0 <= i < found@.len() ==> push_sized(body, #[trigger] found@[i]),
{
    let area = Rect {
        min: Vec2 { x: p.x + body.min.x + SKIN, y: p.y + body.min.y + SKIN },
        max: Vec2 { x: p.x + body.max.x - SKIN, y: p.y + body.max.y - SKIN_TOP },
    };
    assert(area == probe(body, p));
    let hits = room.for_each_tile_in_rect(area);
    let ghost cells = cells_in(area);
    let mut found: Vec<Vec2> = Vec::new();
    let mut k: usize = 0;
    while k < hits.len()
        invariant
            body_ok(body),
            p.bounded(REACH_LIMIT + 100 * FAR),
            area == probe(body, p),
            cells == cells_in(area),
            hits@.len() == cells.len(),
            k <= hits@.len(),
            forall|j: int|
                0 <= j < hits@.len() ==> {
                    &&& (#[trigger] hits@[j]).cell == cells[j]
                    &&& hits@[j].tile == room.tile(hits@[j].cell.x as int, hits@[j].cell.y as int)
                    &&& area.first_column() <= hits@[j].cell.x <= area.last_column()
                    &&& area.first_row() <= hits@[j].cell.y <= area.last_row()
                },
            found@ == candidates_over(*room, body, p, cells.take(k as int)),
            found@.len() > 0 <==> exists|j: int|
                0 <= j < k && (#[trigger] hits@[j]).tile != Tile::Empty,
            forall|i: int| 0 <= i < found@.len() ==> push_sized(body, #[trigger] found@[i]),
        decreases hits@.len() - k,
    {
        let hit = hits[k];
        proof {
            assert(cells.take(k + 1).drop_last() =~= cells.take(k as int));
            assert(cells.take(k + 1).last() == hit.cell);
            lemma_pushes(body, p, hit.cell);
        }
        if hit.tile != Tile::Empty {
            let ghost before = found@;
            let cx: i64 = hit.cell.x * UNIT;
            let cy: i64 = hit.cell.y * UNIT;
            found.push(Vec2 { x: cx + UNIT - (p.x + body.min.x), y: 0 });
            found.push(Vec2 { x: cx - (p.x + body.max.x), y: 0 });
            found.push(Vec2 { x: 0, y: cy + UNIT - (p.y + body.min.y) });
            found.push(Vec2 { x: 0, y: cy - (p.y + body.max.y) });
            assert(found@ =~= before + pushes(body, p, hit.cell));
        }
        k = k + 1;
    }
    proof {
        assert(cells.take(k as int) =~= cells);
        if found@.len() > 0 {
            let j = choose|j: int| 0 <= j < k && (#[trigger] hits@[j]).tile != Tile::Empty;
            assert(room.tile(cells[j].x as int, cells[j].y as int) != Tile::Empty);
        }
        if overlapping(*room, body, p) {
            let j = choose|j: int|
                0 <= j < cells.len() && room.tile(
                    (#[trigger] cells[j]).x as int,
                    cells[j].y as int,
                ) != Tile::Empty;
            assert(hits@[j].tile != Tile::Empty);
        }
    }
    found
}


/// Squared length of a vector no longer than `FAR` along either axis.
pub fn length_squared(v: Vec2) -> (l: i64)
    requires
        v.bounded(FAR as int),
    ensures
        l == v.length_squared(),
        0 <= l <= 2 * (FAR * FAR),
{
    proof {
        assert(0 <= v.x * v.x <= FAR * FAR) by (nonlinear_arith)
            requires
                -FAR <= v.x <= FAR,
        ;
        assert(0 <= v.y * v.y <= FAR * FAR) by (nonlinear_arith)
            requires
                -FAR <= v.y <= FAR,
        ;
        assert(FAR * FAR == 359_928_003_600_000_000);
    }
    v.x * v.x + v.y * v.y
}

/// Reduces the candidates of a pass to their four extremes and the shortest of them.
pub fn reduce(found: &Vec<Vec2>) -> (e: Extremes)
    requires
        forall|i: int| 0 <= i < found@.len() ==> (#[trigger] found@[i]).bounded(FAR as int),
    ensures
        e == extremes_of(found@),
        -FAR <= e.left <= 0 <= e.right <= FAR,
        -FAR <= e.down <= 0 <= e.up <= FAR,
        e.shortest.bounded(FAR as int),
        e.shortest == (Vec2 { x: FAR, y: FAR }) || exists|i: int|
            0 <= i < found@.len() && e.shortest == #[trigger] found@[i],
        e.left == 0 || exists|i: int| 0 <= i < found@.len() && e.left == (#[trigger] found@[i]).x,
        e.right == 0 || exists|i: int| 0 <= i < found@.len() && e.right == (#[trigger] found@[i]).x,
        e.up == 0 || exists|i: int| 0 <= i < found@.len() && e.up == (#[trigger] found@[i]).y,
        e.down == 0 || exists|i: int| 0 <= i < found@.len() && e.down == (#[trigger] found@[i]).y,
        forall|i: int|
            0 <= i < found@.len() ==> {
                &&& e.left <= (#[trigger] found@[i]).x <= e.right
                &&& e.down <= found@[i].y <= e.up
            },
{
    let mut e = Extremes { left: 0, right: 0, up: 0, down: 0, shortest: Vec2 { x: FAR, y: FAR } };
    let mut k: usize = 0;
    while k < found.len()
        invariant
            k <= found@.len(),
            forall|i: int| 0 <= i < found@.len() ==> (#[trigger] found@[i]).bounded(FAR as int),
            e.right == farthest_right(found@.take(k as int)),
            e.left == farthest_left(found@.take(k as int)),
            e.up == farthest_up(found@.take(k as int)),
            e.down == farthest_down(found@.take(k as int)),
            e.shortest == shortest(found@.take(k as int)),
            -FAR <= e.left <= 0 <= e.right <= FAR,
            -FAR <= e.down <= 0 <= e.up <= FAR,
            e.shortest.bounded(FAR as int),
            e.shortest == (Vec2 { x: FAR, y: FAR }) || exists|i: int|
                0 <= i < k && e.shortest == #[trigger] found@[i],
            e.left == 0 || exists|i: int| 0 <= i < k && e.left == (#[trigger] found@[i]).x,
            e.right == 0 || exists|i: int| 0 <= i < k && e.right == (#[trigger] found@[i]).x,
            e.up == 0 || exists|i: int| 0 <= i < k && e.up == (#[trigger] found@[i]).y,
            e.down == 0 || exists|i: int| 0 <= i < k && e.down == (#[trigger] found@[i]).y,
            forall|i: int|
                0 <= i < k ==> {
                    &&& e.left <= (#[trigger] found@[i]).x <= e.right
                    &&& e.down <= found@[i].y <= e.up
                },
        decreases found@.len() - k,
    {
        let c = found[k];
        proof {
            assert(found@.take(k + 1).drop_last() =~= found@.take(k as int));
            assert(found@.take(k + 1).last() == c);
            assert(c == found@[k as int]);
        }
        let ghost old_e = e;
        if c.x > e.right {
            e.right = c.x;
        }
        if c.x < e.left {
            e.left = c.x;
        }
        if c.y > e.up {
            e.up = c.y;
        }
        if c.y < e.down {
            e.down = c.y;
        }
        if length_squared(c) < length_squared(e.shortest) {
            e.shortest = c;
        }
        proof {
            let t = found@.take(k + 1);
            assert(e.right == farthest_right(t));
            assert(e.left == farthest_left(t));
            assert(e.up == farthest_up(t));
            assert(e.down == farthest_down(t));
            assert(e.shortest == shortest(t));
        }
        k = k + 1;
    }
    assert(found@.take(k as int) =~= found@);
    e
}


/// Picks the correction that a pass applies.
pub fn choose_correction(e: Extremes) -> (by: Vec2)
    requires
        -FAR <= e.left <= 0 <= e.right <= FAR,
        -FAR <= e.down <= 0 <= e.up <= FAR,
        e.shortest.bounded(FAR as int),
    ensures
        by == chosen(e),
        by.bounded(FAR as int),
        by == e.shortest || by == (Vec2 { x: e.left, y: 0 }) || by == (Vec2 { x: e.right, y: 0 })
            || by == (Vec2 { x: 0, y: e.up }) || by == (Vec2 { x: 0, y: e.down }),
{
    let mut smallest: i64 = FAR;
    let mut by = Vec2 { x: 0, y: 0 };
    let left = abs_of(e.left);
    if left < smallest {
        by = Vec2 { x: e.left, y: 0 };
        smallest = left;
    }
    let right = abs_of(e.right);
    if right < smallest {
        by = Vec2 { x: e.right, y: 0 };
        smallest = right;
    }
    let up = abs_of(e.up);
    if up < smallest {
        by = Vec2 { x: 0, y: e.up };
        smallest = up;
    }
    let down = abs_of(e.down);
    if down < smallest {
        by = Vec2 { x: 0, y: e.down };
        smallest = down;
    }
    assert(smallest == axis_magnitude(e));
    assert(by == axis_choice(e));
    if smallest < UNIT {
        by
    } else {
        e.shortest
    }
}

/// Applies one correction to the solver's state.
pub fn apply_correction(s: Contact, by: Vec2) -> (next: Contact)
    requires
        s.corrections < MAX_PASSES,
        i64::MIN <= s.position.x + by.x <= i64::MAX,
        i64::MIN <= s.position.y + by.y <= i64::MAX,
    ensures
        next == corrected(s, by),
        next.position.x == s.position.x + by.x,
        next.position.y == s.position.y + by.y,
        next.corrections == s.corrections + 1,
{
    Contact {
        position: s.position.add(by),
        velocity: if by.x != 0 {
            Vec2 { x: 0, y: s.velocity.y }
        } else {
            Vec2 { x: s.velocity.x, y: 0 }
        },
        since_on_ground: if by.y > 0 {
            0
        } else {
            s.since_on_ground
        },
        corrections: s.corrections + 1,
    }
}

/// A body that overlaps nothing lies inside the grid.
pub proof fn lemma_free_body_is_inside(room: Room, body: Rect, p: Vec2)
    requires
        room.wf(),
        body_ok(body),
        p.bounded(REACH_LIMIT + 100 * FAR),
        !overlapping(room, body, p),
    ensures
        0 <= p.x + body.min.x + SKIN,
        p.x + body.max.x - SKIN < crate::tilemap::ROOM_WIDTH * UNIT,
        0 <= p.y + body.min.y + SKIN,
        p.y + body.max.y - SKIN_TOP < crate::tilemap::ROOM_HEIGHT * UNIT,
{
    let area = probe(body, p);
    let cells = cells_in(area);
    let x0 = area.first_column();
    let y0 = area.first_row();
    let columns = area.last_column() - x0 + 1;
    let rows = area.last_row() - y0 + 1;
    assert(columns >= 1 && rows >= 1);
    assert(columns * rows >= 1) by (nonlinear_arith)
        requires
            columns >= 1,
            rows >= 1,
    ;
    let last = columns * rows - 1;
    assert(last == (columns - 1) * rows + (rows - 1)) by (nonlinear_arith)
        requires
            last == columns * rows - 1,
    ;
    vstd::arithmetic::div_mod::lemma_fundamental_div_mod_converse(
        last,
        rows,
        columns - 1,
        rows - 1,
    );
    vstd::arithmetic::div_mod::lemma_fundamental_div_mod_converse(0, rows, 0, 0);
    assert(cells[0] == GridCoord { x: x0 as i64, y: y0 as i64 });
    assert(cells[last] == GridCoord { x: area.last_column() as i64, y: area.last_row() as i64 });
    assert(room.tile(cells[0].x as int, cells[0].y as int) == Tile::Empty);
    assert(room.tile(cells[last].x as int, cells[last].y as int) == Tile::Empty);
}

/// Frees the body of a character from the walls of `room`.
///
/// Starting at the tentative `position`, each pass collects the corrections
/// of every overlapped cell and applies one of them, until the body
/// overlaps nothing. The result tells where the character ends, what is
/// left of its velocity, whether it touched ground (`since_on_ground` is
/// zero then) and how many corrections it took. If the body is still not
/// free when the hundredth pass begins, the solver reports that instead.
pub fn resolve(
    room: &Room,
    body: Rect,
    position: Vec2,
    velocity: Vec2,
    since_on_ground: i64,
) -> (r: Result<Contact, SolverError>)
    requires
        body_ok(body),
        position.bounded(REACH_LIMIT as int),
    ensures
        r is Ok <==> resolution(*room, body, position, velocity, since_on_ground) is Some,
        r is Ok ==> {
            let c = r->Ok_0;
            &&& Some(c) == resolution(*room, body, position, velocity, since_on_ground)
            &&& !overlapping(*room, body, c.position)
            &&& c.corrections < MAX_PASSES
            &&& c.velocity.x == velocity.x || c.velocity.x == 0
            &&& c.velocity.y == velocity.y || c.velocity.y == 0
            &&& c.since_on_ground == since_on_ground || c.since_on_ground == 0
            &&& 0 <= c.position.x + body.min.x + SKIN
            &&& c.position.x + body.max.x - SKIN < crate::tilemap::ROOM_WIDTH * UNIT
            &&& 0 <= c.position.y + body.min.y + SKIN
            &&& c.position.y + body.max.y - SKIN_TOP < crate::tilemap::ROOM_HEIGHT * UNIT
        },
        r is Err ==> r->Err_0 == SolverError::IterationCap,
{
    let mut cur = Contact { position, velocity, since_on_ground, corrections: 0 };
    let ghost goal = resolution(*room, body, position, velocity, since_on_ground);
    proof {
        use_type_invariant(room);
    }
    while cur.corrections < MAX_PASSES
        invariant
            room.wf(),
            body_ok(body),
            cur.corrections <= MAX_PASSES,
            cur.position.bounded(REACH_LIMIT + cur.corrections * FAR),
            goal == resolution(*room, body, position, velocity, since_on_ground),
            goal == resolved_from(*room, body, cur, (MAX_PASSES - cur.corrections) as nat),
            cur.velocity.x == velocity.x || cur.velocity.x == 0,
            cur.velocity.y == velocity.y || cur.velocity.y == 0,
            cur.since_on_ground == since_on_ground || cur.since_on_ground == 0,
        decreases MAX_PASSES - cur.corrections,
    {
        proof {
            assert(cur.corrections * FAR + FAR == (cur.corrections + 1) * FAR) by (nonlinear_arith);
            assert(cur.corrections * FAR + FAR <= 100 * FAR) by (nonlinear_arith)
                requires
                    cur.corrections < 100,
            ;
            assert(0 <= cur.corrections * FAR) by (nonlinear_arith);
        }
        let found = collect_candidates(room, body, cur.position);
        if found.len() == 0 {
            proof {
                lemma_free_body_is_inside(*room, body, cur.position);
                assert(resolved_from(
                    *room,
                    body,
                    cur,
                    (MAX_PASSES - cur.corrections) as nat,
                ) == Some(cur));
            }
            return Ok(cur);
        }
        let e = reduce(&found);
        let by = choose_correction(e);
        proof {
            assert(by == correction(*room, body, cur.position));
            assert(resolved_from(*room, body, cur, (MAX_PASSES - cur.corrections) as nat)
                == resolved_from(
                *room,
                body,
                corrected(cur, by),
                (MAX_PASSES - cur.corrections - 1) as nat,
            ));
        }
        cur = apply_correction(cur, by);
    }
    assert(resolved_from(*room, body, cur, 0) is None);
    Err(SolverError::IterationCap)
}


/// Wherever the solver ends, the body overlaps nothing there.
pub proof fn lemma_resolved_is_free(room: Room, body: Rect, s: Contact, passes: nat)
    requires
        resolved_from(room, body, s, passes) is Some,
    ensures
        !overlapping(room, body, resolved_from(room, body, s, passes)->0.position),
    decreases passes,
{
    if passes > 0 && overlapping(room, body, s.position) {
        lemma_resolved_is_free(
            room,
            body,
            corrected(s, correction(room, body, s.position)),
            (passes - 1) as nat,
        );
    }
}

/// The solver leaves each component of the velocity as it was or takes it
/// away, and leaves the ground timer as it was or sets it to zero.
pub proof fn lemma_resolved_velocity(room: Room, body: Rect, s: Contact, passes: nat)
    requires
        resolved_from(room, body, s, passes) is Some,
    ensures
        ({
            let r = resolved_from(room, body, s, passes)->0;
            &&& r.velocity.x == s.velocity.x || r.velocity.x == 0
            &&& r.velocity.y == s.velocity.y || r.velocity.y == 0
            &&& r.since_on_ground == s.since_on_ground || r.since_on_ground == 0
        }),
    decreases passes,
{
    if passes > 0 && overlapping(room, body, s.position) {
        lemma_resolved_velocity(
            room,
            body,
            corrected(s, correction(room, body, s.position)),
            (passes - 1) as nat,
        );
    }
}

/// On a body that overlaps nothing the solver applies no correction and
/// hands back the position, the velocity and the ground timer unchanged.
pub proof fn resolve_keeps_a_free_body(
    room: Room,
    body: Rect,
    position: Vec2,
    velocity: Vec2,
    since_on_ground: i64,
)
    requires
        !overlapping(room, body, position),
    ensures
        resolution(room, body, position, velocity, since_on_ground) == Some(
            Contact { position, velocity, since_on_ground, corrections: 0 },
        ),
{
}

/// Running the solver again on what it returned applies no correction and
/// returns the same position, velocity and ground timer.
pub proof fn resolve_is_idempotent(
    room: Room,
    body: Rect,
    position: Vec2,
    velocity: Vec2,
    since_on_ground: i64,
)
    requires
        resolution(room, body, position, velocity, since_on_ground) is Some,
    ensures
        ({
            let first = resolution(room, body, position, velocity, since_on_ground)->0;
            resolution(room, body, first.position, first.velocity, first.since_on_ground) == Some(
                Contact { corrections: 0, ..first },
            )
        }),
{
    lemma_resolved_is_free(
        room,
        body,
        Contact { position, velocity, since_on_ground, corrections: 0 },
        MAX_PASSES as nat,
    );
}

} // verus!
