//! What holds of every pass of the collision solver, and what it does to a
//! character that comes down on a floor.

use vstd::prelude::*;
use crate::geometry::{GridCoord, Rect, Vec2};
use crate::solver::{
    chosen, push_sized, shortest, Extremes, FAR,
    axis_choice, axis_magnitude, body_ok, candidates, candidates_over, corrected, correction,
    extremes_of, farthest_down, farthest_left, farthest_right, farthest_up, overlapping, probe,
    pushes, resolution, resolved_from, Contact, MAX_PASSES, REACH_LIMIT, SKIN, SKIN_TOP,
};
use crate::tilemap::{cells_in, lemma_cells_cover, lemma_cells_within, Room, Tile};
use crate::units::{magnitude, UNIT};

verus! {

/// The extremes to the right and up are never negative, those to the left
/// and down never positive.
proof fn lemma_extremes_signs(c: Seq<Vec2>)
    ensures
        farthest_right(c) >= 0,
        farthest_left(c) <= 0,
        farthest_up(c) >= 0,
        farthest_down(c) <= 0,
    decreases c.len(),
{
    if c.len() > 0 {
        lemma_extremes_signs(c.drop_last());
    }
}

/// The extremes of two lists of candidates, one after the other, are the
/// extremes of their extremes.
proof fn lemma_extremes_of_both(a: Seq<Vec2>, b: Seq<Vec2>)
    ensures
        farthest_right(a + b) == if farthest_right(b) > farthest_right(a) {
            farthest_right(b)
        } else {
            farthest_right(a)
        },
        farthest_left(a + b) == if farthest_left(b) < farthest_left(a) {
            farthest_left(b)
        } else {
            farthest_left(a)
        },
        farthest_up(a + b) == if farthest_up(b) > farthest_up(a) {
            farthest_up(b)
        } else {
            farthest_up(a)
        },
        farthest_down(a + b) == if farthest_down(b) < farthest_down(a) {
            farthest_down(b)
        } else {
            farthest_down(a)
        },
    decreases b.len(),
{
    lemma_extremes_signs(a);
    if b.len() == 0 {
        assert(a + b =~= a);
    } else {
        lemma_extremes_of_both(a, b.drop_last());
        let all = a + b;
        assert(all.len() == a.len() + b.len());
        assert(all.drop_last() =~= a + b.drop_last());
        assert(all.last() == b.last());
        assert(farthest_right(all) == if all.last().x > farthest_right(all.drop_last()) {
            all.last().x as int
        } else {
            farthest_right(all.drop_last())
        });
        assert(farthest_left(all) == if all.last().x < farthest_left(all.drop_last()) {
            all.last().x as int
        } else {
            farthest_left(all.drop_last())
        });
        assert(farthest_up(all) == if all.last().y > farthest_up(all.drop_last()) {
            all.last().y as int
        } else {
            farthest_up(all.drop_last())
        });
        assert(farthest_down(all) == if all.last().y < farthest_down(all.drop_last()) {
            all.last().y as int
        } else {
            farthest_down(all.drop_last())
        });
    }
}

/// The extremes of the four corrections of one cell that the probe meets
/// are these corrections.
proof fn lemma_extremes_of_pushes(body: Rect, p: Vec2, cell: GridCoord)
    requires
        body_ok(body),
        p.bounded(REACH_LIMIT as int),
        probe(body, p).first_column() <= cell.x <= probe(body, p).last_column(),
        probe(body, p).first_row() <= cell.y <= probe(body, p).last_row(),
    ensures
        farthest_right(pushes(body, p, cell)) == (cell.x + 1) * UNIT - (p.x + body.min.x),
        farthest_left(pushes(body, p, cell)) == cell.x * UNIT - (p.x + body.max.x),
        farthest_up(pushes(body, p, cell)) == (cell.y + 1) * UNIT - (p.y + body.min.y),
        farthest_down(pushes(body, p, cell)) == cell.y * UNIT - (p.y + body.max.y),
        SKIN < farthest_right(pushes(body, p, cell)) <= body.max.x - body.min.x + UNIT,
        -(body.max.x - body.min.x + UNIT) < farthest_left(pushes(body, p, cell)) <= -SKIN,
        SKIN < farthest_up(pushes(body, p, cell)) <= body.max.y - body.min.y + UNIT,
        -(body.max.y - body.min.y + UNIT) < farthest_down(pushes(body, p, cell)) <= -SKIN_TOP,
{
    let four = pushes(body, p, cell);
    let three = four.drop_last();
    let two = three.drop_last();
    let one = two.drop_last();
    let none = one.drop_last();
    assert(none.len() == 0);
    assert(farthest_right(none) == 0 && farthest_left(none) == 0 && farthest_up(none) == 0
        && farthest_down(none) == 0);
    assert(four[0].x == (cell.x + 1) * UNIT - (p.x + body.min.x));
    assert(four[1].x == cell.x * UNIT - (p.x + body.max.x));
    assert(four[2].y == (cell.y + 1) * UNIT - (p.y + body.min.y));
    assert(four[3].y == cell.y * UNIT - (p.y + body.max.y));
    assert(one.last() == four[0] && two.last() == four[1] && three.last() == four[2]
        && four.last() == four[3]);
    assert(farthest_right(one) == four[0].x);
    assert(farthest_right(two) == four[0].x);
    assert(farthest_right(three) == four[0].x);
    assert(farthest_left(one) == 0);
    assert(farthest_left(two) == four[1].x);
    assert(farthest_left(three) == four[1].x);
    assert(farthest_up(one) == 0);
    assert(farthest_up(two) == 0);
    assert(farthest_up(three) == four[2].y);
    assert(farthest_down(one) == 0);
    assert(farthest_down(two) == 0);
    assert(farthest_down(three) == 0);
}

/// The candidates of cells of which exactly those of the row `floor` are
/// filled: their push up and their push down are those of that row, and
/// their pushes sideways reach at least as far as those of every filled
/// cell.
proof fn lemma_floor_candidates(room: Room, body: Rect, p: Vec2, cells: Seq<GridCoord>, floor: int)
    requires
        body_ok(body),
        p.bounded(REACH_LIMIT as int),
        forall|k: int|
            0 <= k < cells.len() ==> {
                &&& probe(body, p).first_column() <= (#[trigger] cells[k]).x <= probe(
                    body,
                    p,
                ).last_column()
                &&& probe(body, p).first_row() <= cells[k].y <= probe(body, p).last_row()
                &&& (cells[k].y == floor) == (room.tile(cells[k].x as int, cells[k].y as int)
                    != Tile::Empty)
            },
    ensures
        ({
            let c = candidates_over(room, body, p, cells);
            let width = body.max.x - body.min.x;
            &&& 0 <= farthest_right(c) <= width + UNIT
            &&& -(width + UNIT) <= farthest_left(c) <= 0
            &&& farthest_up(c) == 0 || farthest_up(c) == (floor + 1) * UNIT - (p.y + body.min.y)
            &&& farthest_down(c) == 0 || farthest_down(c) == floor * UNIT - (p.y + body.max.y)
            &&& forall|k: int|
                0 <= k < cells.len() && (#[trigger] cells[k]).y == floor ==> {
                    &&& farthest_right(c) >= (cells[k].x + 1) * UNIT - (p.x + body.min.x)
                    &&& farthest_left(c) <= cells[k].x * UNIT - (p.x + body.max.x)
                    &&& farthest_up(c) == (floor + 1) * UNIT - (p.y + body.min.y)
                    &&& farthest_down(c) == floor * UNIT - (p.y + body.max.y)
                }
        }),
    decreases cells.len(),
{
    if cells.len() > 0 {
        let before = cells.drop_last();
        let last = cells.last();
        assert forall|k: int| 0 <= k < before.len() implies {
            &&& probe(body, p).first_column() <= (#[trigger] before[k]).x <= probe(
                body,
                p,
            ).last_column()
            &&& probe(body, p).first_row() <= before[k].y <= probe(body, p).last_row()
            &&& (before[k].y == floor) == (room.tile(before[k].x as int, before[k].y as int)
                != Tile::Empty)
        } by {
            assert(before[k] == cells[k]);
        }
        lemma_floor_candidates(room, body, p, before, floor);
        let c0 = candidates_over(room, body, p, before);
        let c = candidates_over(room, body, p, cells);
        assert(cells[cells.len() - 1] == last);
        if last.y == floor {
            assert(c == c0 + pushes(body, p, last));
            lemma_extremes_of_both(c0, pushes(body, p, last));
            lemma_extremes_of_pushes(body, p, last);
        } else {
            assert(c == c0);
        }
        assert forall|k: int| 0 <= k < cells.len() && (#[trigger] cells[k]).y == floor implies {
            &&& farthest_right(c) >= (cells[k].x + 1) * UNIT - (p.x + body.min.x)
            &&& farthest_left(c) <= cells[k].x * UNIT - (p.x + body.max.x)
            &&& farthest_up(c) == (floor + 1) * UNIT - (p.y + body.min.y)
            &&& farthest_down(c) == floor * UNIT - (p.y + body.max.y)
        } by {
            if k < before.len() {
                assert(before[k] == cells[k]);
            }
        }
    }
}

/// The shortest of a list of candidates is one of them, or the far vector.
proof fn lemma_shortest_is_one(c: Seq<Vec2>)
    ensures
        shortest(c) == (Vec2 { x: FAR, y: FAR }) || exists|i: int|
            0 <= i < c.len() && shortest(c) == #[trigger] c[i],
    decreases c.len(),
{
    if c.len() > 0 {
        lemma_shortest_is_one(c.drop_last());
        if shortest(c) != c.last() && shortest(c) != (Vec2 { x: FAR, y: FAR }) {
            let i = choose|i: int|
                0 <= i < c.drop_last().len() && shortest(c.drop_last()) == #[trigger] c.drop_last()[i];
            assert(c[i] == c.drop_last()[i]);
        } else if shortest(c) == c.last() {
            assert(c[c.len() - 1] == c.last());
        }
    }
}

/// Every candidate of cells that the probe meets moves the body by at
/// least the skin along one axis; and if there is a candidate at all,
/// there is one to each of the four sides.
proof fn lemma_candidates_sized(room: Room, body: Rect, p: Vec2, cells: Seq<GridCoord>)
    requires
        body_ok(body),
        p.bounded(REACH_LIMIT as int),
        forall|k: int|
            0 <= k < cells.len() ==> {
                &&& probe(body, p).first_column() <= (#[trigger] cells[k]).x <= probe(
                    body,
                    p,
                ).last_column()
                &&& probe(body, p).first_row() <= cells[k].y <= probe(body, p).last_row()
            },
    ensures
        ({
            let c = candidates_over(room, body, p, cells);
            let reach = body.max.x - body.min.x + body.max.y - body.min.y + UNIT;
            &&& forall|i: int| 0 <= i < c.len() ==> push_sized(body, #[trigger] c[i])
            &&& 0 <= farthest_right(c) <= reach
            &&& -reach <= farthest_left(c) <= 0
            &&& 0 <= farthest_up(c) <= reach
            &&& -reach <= farthest_down(c) <= 0
            &&& c.len() > 0 ==> farthest_right(c) > 0 && farthest_left(c) < 0 && farthest_up(c)
                > 0 && farthest_down(c) < 0
        }),
    decreases cells.len(),
{
    if cells.len() > 0 {
        let before = cells.drop_last();
        let last = cells.last();
        assert forall|k: int| 0 <= k < before.len() implies {
            &&& probe(body, p).first_column() <= (#[trigger] before[k]).x <= probe(
                body,
                p,
            ).last_column()
            &&& probe(body, p).first_row() <= before[k].y <= probe(body, p).last_row()
        } by {
            assert(before[k] == cells[k]);
        }
        lemma_candidates_sized(room, body, p, before);
        assert(cells[cells.len() - 1] == last);
        let c0 = candidates_over(room, body, p, before);
        if room.tile(last.x as int, last.y as int) != Tile::Empty {
            let four = pushes(body, p, last);
            lemma_extremes_of_both(c0, four);
            lemma_extremes_of_pushes(body, p, last);
            assert(four[0].x == (last.x + 1) * UNIT - (p.x + body.min.x));
            assert(four[1].x == last.x * UNIT - (p.x + body.max.x));
            assert(four[2].y == (last.y + 1) * UNIT - (p.y + body.min.y));
            assert(four[3].y == last.y * UNIT - (p.y + body.max.y));
            assert forall|i: int| 0 <= i < 4 implies push_sized(body, #[trigger] four[i]) by {}
        }
    }
}

/// Every pass of the solver that finds the body overlapping moves it:
/// the correction that it applies is not the zero vector, and along each
/// axis it is no longer than the body's extent and a tile.
pub proof fn correction_moves_the_body(room: Room, body: Rect, p: Vec2)
    requires
        body_ok(body),
        p.bounded(REACH_LIMIT as int),
        overlapping(room, body, p),
    ensures
        correction(room, body, p) != (Vec2 { x: 0, y: 0 }),
        magnitude(correction(room, body, p).x as int) <= body.max.x - body.min.x + UNIT,
        magnitude(correction(room, body, p).y as int) <= body.max.y - body.min.y + UNIT,
        correction(room, body, p).x == 0 || correction(room, body, p).y == 0,
{
    let area = probe(body, p);
    let cells = cells_in(area);
    assert forall|k: int| 0 <= k < cells.len() implies {
        &&& area.first_column() <= (#[trigger] cells[k]).x <= area.last_column()
        &&& area.first_row() <= cells[k].y <= area.last_row()
    } by {
        lemma_cells_within(area, k);
    }
    lemma_candidates_sized(room, body, p, cells);
    lemma_some_candidate(room, body, p, cells);
    let c = candidates(room, body, p);
    let e = extremes_of(c);
    lemma_shortest_is_one(c);
    lemma_extremes_are_pushes(c, body);
    assert(push_sized(body, c[0]));
    lemma_shortest_beats_far(c, 0);
}

/// Cells of which one is filled give a candidate.
proof fn lemma_some_candidate(room: Room, body: Rect, p: Vec2, cells: Seq<GridCoord>)
    requires
        exists|k: int|
            0 <= k < cells.len() && room.tile((#[trigger] cells[k]).x as int, cells[k].y as int)
                != Tile::Empty,
    ensures
        candidates_over(room, body, p, cells).len() > 0,
    decreases cells.len(),
{
    let k = choose|k: int|
        0 <= k < cells.len() && room.tile((#[trigger] cells[k]).x as int, cells[k].y as int)
            != Tile::Empty;
    if k < cells.len() - 1 {
        assert(cells.drop_last()[k] == cells[k]);
        lemma_some_candidate(room, body, p, cells.drop_last());
    } else {
        assert(cells.last() == cells[k]);
        assert(pushes(body, p, cells.last()).len() == 4);
    }
}

/// A candidate that is shorter than the far vector keeps the far vector
/// from being the shortest.
proof fn lemma_shortest_beats_far(c: Seq<Vec2>, i: int)
    requires
        0 <= i < c.len(),
        c[i].length_squared() < 2 * (FAR * FAR),
    ensures
        shortest(c).length_squared() < 2 * (FAR * FAR),
    decreases c.len(),
{
    if i < c.len() - 1 {
        assert(c.drop_last()[i] == c[i]);
        lemma_shortest_beats_far(c.drop_last(), i);
    } else {
        assert(c.last() == c[i]);
    }
}

/// The extremes of candidates that each move along one axis, by no more
/// than the body's extent and a tile, are zero or one of their moves.
proof fn lemma_extremes_are_pushes(c: Seq<Vec2>, body: Rect)
    requires
        body_ok(body),
        forall|i: int| 0 <= i < c.len() ==> push_sized(body, #[trigger] c[i]),
    ensures
        farthest_right(c) <= body.max.x - body.min.x + UNIT,
        farthest_left(c) >= -(body.max.x - body.min.x + UNIT),
        farthest_up(c) <= body.max.y - body.min.y + UNIT,
        farthest_down(c) >= -(body.max.y - body.min.y + UNIT),
        forall|i: int|
            0 <= i < c.len() ==> (#[trigger] c[i]).length_squared() < 2 * (FAR * FAR),
        shortest(c) == (Vec2 { x: FAR, y: FAR }) || push_sized(body, shortest(c)),
    decreases c.len(),
{
    lemma_extremes_signs(c);
    if c.len() > 0 {
        let before = c.drop_last();
        assert forall|i: int| 0 <= i < before.len() implies push_sized(
            body,
            #[trigger] before[i],
        ) by {
            assert(before[i] == c[i]);
        }
        lemma_extremes_are_pushes(before, body);
        assert(push_sized(body, c[c.len() - 1]));
        assert forall|i: int| 0 <= i < c.len() implies (#[trigger] c[i]).length_squared() < 2 * (FAR
            * FAR) by {
            lemma_sized_is_short(body, c[i]);
        }
    }
}

/// A move of no more than the body's extent and a tile along one axis is
/// shorter than the far vector.
proof fn lemma_sized_is_short(body: Rect, v: Vec2)
    requires
        body_ok(body),
        push_sized(body, v),
    ensures
        v.length_squared() < 2 * (FAR * FAR),
        v != (Vec2 { x: 0, y: 0 }),
{
    assert(FAR * FAR == 359_928_003_600_000_000) by (nonlinear_arith)
        requires
            FAR == 599_940_000,
    ;
    assert(v.x * v.x <= 2_000_000 * 2_000_000) by (nonlinear_arith)
        requires
            -2_000_000 <= v.x <= 2_000_000,
    ;
    assert(v.y * v.y <= 2_000_000 * 2_000_000) by (nonlinear_arith)
        requires
            -2_000_000 <= v.y <= 2_000_000,
    ;
}

/// How deep the lower side of the body at `p` lies below the upper side
/// of the row of cells that it is in.
pub open spec fn depth(body: Rect, p: Vec2) -> int {
    (probe(body, p).first_row() + 1) * UNIT - (p.y + body.min.y)
}

/// Whether the body at `p` has come down on a floor: the cells of the row
/// that its lower side is in are all filled where the body is, and the
/// cells above them are free, as far up as the body reaches once it
/// stands on the floor.
pub open spec fn on_a_floor(room: Room, body: Rect, p: Vec2) -> bool {
    let area = probe(body, p);
    &&& forall|x: int|
        area.first_column() <= x <= area.last_column() ==> #[trigger] room.tile(
            x,
            area.first_row(),
        ) != Tile::Empty
    &&& forall|x: int, y: int|
        area.first_column() <= x <= area.last_column() && area.first_row() < y <= area.last_row()
            + 1 ==> #[trigger] room.tile(x, y) == Tile::Empty
}

/// A character that has come down on a floor is set exactly on it by one
/// correction: it keeps its place along x and its horizontal speed, loses
/// its vertical speed, and counts as on the ground.
///
/// This holds where the body lies less deep in the floor than one tile
/// and no deeper than it would have to move down, and where it either
/// stands over two or more cells of the floor, so that the way out
/// sideways is longer than a tile, or lies less deep than it is wide.
pub proof fn landing_settles_on_the_floor(
    room: Room,
    body: Rect,
    p: Vec2,
    velocity: Vec2,
    since_on_ground: i64,
)
    requires
        body_ok(body),
        p.bounded(REACH_LIMIT as int),
        on_a_floor(room, body, p),
        depth(body, p) < UNIT,
        probe(body, p).first_column() < probe(body, p).last_column() || depth(body, p)
            < body.max.x - body.min.x - SKIN,
        2 * depth(body, p) <= body.max.y - body.min.y + UNIT,
    ensures
        resolution(room, body, p, velocity, since_on_ground) == Some(
            Contact {
                position: Vec2 { x: p.x, y: (p.y + depth(body, p)) as i64 },
                velocity: Vec2 { x: velocity.x, y: 0 },
                since_on_ground: 0,
                corrections: 1,
            },
        ),
        (p.y + depth(body, p)) + body.min.y == (probe(body, p).first_row() + 1) * UNIT,
{
    let area = probe(body, p);
    let cells = cells_in(area);
    let floor = area.first_row();
    let d = depth(body, p);
    let x0 = area.first_column();
    let x1 = area.last_column();
    assert forall|k: int| 0 <= k < cells.len() implies {
        &&& area.first_column() <= (#[trigger] cells[k]).x <= area.last_column()
        &&& area.first_row() <= cells[k].y <= area.last_row()
        &&& (cells[k].y == floor) == (room.tile(cells[k].x as int, cells[k].y as int)
            != Tile::Empty)
    } by {
        lemma_cells_within(area, k);
    }
    lemma_floor_candidates(room, body, p, cells, floor);
    let k0 = lemma_cells_cover(area, x0, floor);
    let k1 = lemma_cells_cover(area, x1, floor);
    assert(cells[k0].y == floor && cells[k1].y == floor);
    assert(overlapping(room, body, p)) by {
        assert(room.tile(cells[k0].x as int, cells[k0].y as int) != Tile::Empty);
    }
    let c = candidates(room, body, p);
    let e = extremes_of(c);
    assert(e.up == d);
    assert(e.right >= (x1 + 1) * UNIT - (p.x + body.min.x));
    assert(e.left <= x0 * UNIT - (p.x + body.max.x));
    assert(e.down == floor * UNIT - (p.y + body.max.y));
    assert(e.right > d);
    assert(-e.left > d);
    assert(-e.down >= d);
    assert(axis_magnitude(e) == d);
    assert(axis_choice(e) == Vec2 { x: 0, y: d as i64 });
    let by = correction(room, body, p);
    assert(by == Vec2 { x: 0, y: d as i64 });
    let start = Contact { position: p, velocity, since_on_ground, corrections: 0 };
    let landed = corrected(start, by);
    let q = landed.position;
    assert(q == Vec2 { x: p.x, y: (p.y + d) as i64 });
    assert(!overlapping(room, body, q)) by {
        let above = probe(body, q);
        assert(above.first_column() == x0 && above.last_column() == x1);
        assert(above.first_row() == floor + 1);
        assert(above.last_row() <= area.last_row() + 1);
        assert forall|k: int| 0 <= k < cells_in(above).len() implies room.tile(
            (#[trigger] cells_in(above)[k]).x as int,
            cells_in(above)[k].y as int,
        ) == Tile::Empty by {
            lemma_cells_within(above, k);
        }
    }
    assert(resolved_from(room, body, landed, (MAX_PASSES - 1) as nat) == Some(landed));
    assert(resolved_from(room, body, start, MAX_PASSES as nat) == resolved_from(
        room,
        body,
        landed,
        (MAX_PASSES - 1) as nat,
    ));
}

} // verus!
