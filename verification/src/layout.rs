//! The textual room layout: one line per grid row, one character per cell,
//! the first line of the text being the top row of the room.

use vstd::prelude::*;
use crate::geometry::GridCoord;
use crate::tilemap::{
    in_grid, Room, RoomColor, RoomEntrance, Tile, ROOM_CELLS, ROOM_HEIGHT, ROOM_WIDTH,
};

verus! {

/// Why a layout was refused.
#[derive(Clone, Copy, Debug, PartialEq, Eq, Structural)]
pub enum LayoutError {
    /// The character at `column` of text line `line` is not in the legend.
    UnrecognizedTile { character: char, line: usize, column: usize },
}

/// The tile that a character of the legend stands for.
pub open spec fn legend(c: char) -> Option<Tile> {
    if c == ' ' {
        Some(Tile::Empty)
    } else if c == '#' {
        Some(Tile::Solid)
    } else if c == 'R' {
        Some(Tile::Room(RoomColor::Red))
    } else if c == 'O' {
        Some(Tile::Room(RoomColor::Orange))
    } else if c == 'Y' {
        Some(Tile::Room(RoomColor::Yellow))
    } else if c == 'G' {
        Some(Tile::Room(RoomColor::Green))
    } else if c == 'T' {
        Some(Tile::Room(RoomColor::Turquoise))
    } else if c == 'A' {
        Some(Tile::Room(RoomColor::Aqua))
    } else if c == 'C' {
        Some(Tile::Room(RoomColor::Chetwood))
    } else if c == 'B' {
        Some(Tile::Room(RoomColor::Blue))
    } else if c == 'P' {
        Some(Tile::Room(RoomColor::Purple))
    } else if c == 'M' {
        Some(Tile::Room(RoomColor::Magenta))
    } else if c == 'F' {
        Some(Tile::Room(RoomColor::Ferrish))
    } else {
        None
    }
}

/// The character of the legend that stands for a tile.
pub open spec fn symbol(t: Tile) -> char {
    match t {
        Tile::Empty => ' ',
        Tile::Solid => '#',
        Tile::Room(RoomColor::Red) => 'R',
        Tile::Room(RoomColor::Orange) => 'O',
        Tile::Room(RoomColor::Yellow) => 'Y',
        Tile::Room(RoomColor::Green) => 'G',
        Tile::Room(RoomColor::Turquoise) => 'T',
        Tile::Room(RoomColor::Aqua) => 'A',
        Tile::Room(RoomColor::Chetwood) => 'C',
        Tile::Room(RoomColor::Blue) => 'B',
        Tile::Room(RoomColor::Purple) => 'P',
        Tile::Room(RoomColor::Magenta) => 'M',
        Tile::Room(RoomColor::Ferrish) => 'F',
    }
}

/// Index of the line feed that ends the line starting at `from`, or the end of the text.
pub open spec fn line_end(text: Seq<char>, from: int) -> int
    decreases text.len() - from,
{
    if from < 0 || from >= text.len() || text[from] == '\n' {
        from
    } else {
        line_end(text, from + 1)
    }
}

/// Index at which line `k` of the text starts. Lines end at a line feed; the
/// text has a line `k` exactly if this index lies inside the text.
pub open spec fn line_start(text: Seq<char>, k: nat) -> int
    decreases k,
{
    if k == 0 {
        0
    } else {
        line_end(text, line_start(text, (k - 1) as nat)) + 1
    }
}

/// Whether the text has a line `k`.
pub open spec fn has_line(text: Seq<char>, k: nat) -> bool {
    line_start(text, k) < text.len()
}

/// The characters of line `k`, without its line feed and without a carriage
/// return that stands directly before that line feed.
pub open spec fn line(text: Seq<char>, k: nat) -> Seq<char> {
    let from = line_start(text, k);
    let end = line_end(text, from);
    if from < end < text.len() && text[end - 1] == '\r' {
        text.subrange(from, end - 1)
    } else {
        text.subrange(from, end)
    }
}

/// Whether the text gives a character for the grid cell `(x, y)`. Row `y` of
/// the grid is line `14 - y` of the text.
pub open spec fn given(text: Seq<char>, x: int, y: int) -> bool {
    &&& in_grid(x, y)
    &&& has_line(text, (ROOM_HEIGHT - 1 - y) as nat)
    &&& x < line(text, (ROOM_HEIGHT - 1 - y) as nat).len()
}

/// The character that the text gives for the grid cell `(x, y)`.
pub open spec fn given_char(text: Seq<char>, x: int, y: int) -> char {
    line(text, (ROOM_HEIGHT - 1 - y) as nat)[x]
}

/// Every character that the text gives for a cell of the grid is in the legend.
pub open spec fn layout_ok(text: Seq<char>) -> bool {
    forall|x: int, y: int| #[trigger]
        given(text, x, y) ==> legend(given_char(text, x, y)) is Some
}

/// The tile of the grid cell `(x, y)`: what the text gives, else empty.
pub open spec fn layout_tile(text: Seq<char>, x: int, y: int) -> Tile {
    if given(text, x, y) {
        match legend(given_char(text, x, y)) {
            Some(t) => t,
            None => Tile::Empty,
        }
    } else {
        Tile::Empty
    }
}

/// The grid that a text describes.
pub open spec fn layout_grid(text: Seq<char>) -> Seq<Tile> {
    Seq::new(ROOM_CELLS as nat, |i: int| layout_tile(text, i % (ROOM_WIDTH as int), i / (ROOM_WIDTH as int)))
}

/// Whether the text gives an empty tile for the grid cell `(x, y)`.
pub open spec fn given_empty(text: Seq<char>, x: int, y: int) -> bool {
    given(text, x, y) && legend(given_char(text, x, y)) == Some(Tile::Empty)
}

/// The entrance of an edge column is the lowest cell of it that the text gives as empty.
pub open spec fn column_entrance(text: Seq<char>, x: int, e: Option<GridCoord>) -> bool {
    match e {
        Some(c) => {
            &&& c.x == x
            &&& given_empty(text, x, c.y as int)
            &&& forall|y: int| 0 <= y < c.y ==> !#[trigger] given_empty(text, x, y)
        },
        None => forall|y: int| 0 <= y < ROOM_HEIGHT ==> !#[trigger] given_empty(text, x, y),
    }
}

/// The top entrance is the rightmost cell of the top row that the text gives as empty.
pub open spec fn top_entrance(text: Seq<char>, e: Option<GridCoord>) -> bool {
    match e {
        Some(c) => {
            &&& c.y == ROOM_HEIGHT - 1
            &&& given_empty(text, c.x as int, ROOM_HEIGHT - 1)
            &&& forall|x: int|
                c.x < x < ROOM_WIDTH ==> !#[trigger] given_empty(text, x, ROOM_HEIGHT - 1)
        },
        None => forall|x: int|
            0 <= x < ROOM_WIDTH ==> !#[trigger] given_empty(text, x, ROOM_HEIGHT - 1),
    }
}

/// Whether `(line, column)` comes before `(other_line, other_column)` in reading order.
pub open spec fn reads_before(line: int, column: int, other_line: int, other_column: int) -> bool {
    line < other_line || (line == other_line && column < other_column)
}

/// Whether `e` reports the first character, in reading order, that the text
/// gives for a cell of the grid and that is not in the legend.
pub open spec fn first_unrecognized(text: Seq<char>, e: LayoutError) -> bool {
    match e {
        LayoutError::UnrecognizedTile { character, line, column } => {
            &&& given(text, column as int, ROOM_HEIGHT - 1 - line)
            &&& character == given_char(text, column as int, ROOM_HEIGHT - 1 - line)
            &&& legend(character) is None
            &&& forall|x: int, y: int|
                #[trigger] given(text, x, y) && reads_before(
                    ROOM_HEIGHT - 1 - y,
                    x,
                    line as int,
                    column as int,
                ) ==> legend(given_char(text, x, y)) is Some
        },
    }
}

/// The text that a grid is written as: fifteen lines of fifteen characters,
/// top row first, each line ended by a line feed.
pub open spec fn layout_text(grid: Seq<Tile>) -> Seq<char> {
    Seq::new(
        (ROOM_HEIGHT * (ROOM_WIDTH + 1)) as nat,
        |i: int|
            if i % (ROOM_WIDTH + 1) == ROOM_WIDTH as int {
                '\n'
            } else {
                symbol(
                    grid[(ROOM_HEIGHT - 1 - i / (ROOM_WIDTH + 1)) * ROOM_WIDTH + i % (ROOM_WIDTH
                        + 1)],
                )
            },
    )
}

/// Whether a text has the form in which layouts are written: fifteen lines
/// of fifteen characters of the legend, each line ended by a line feed.
pub open spec fn canonical(text: Seq<char>) -> bool {
    &&& text.len() == ROOM_HEIGHT * (ROOM_WIDTH + 1)
    &&& forall|i: int|
        0 <= i < text.len() ==> if i % (ROOM_WIDTH + 1) == ROOM_WIDTH as int {
            #[trigger] text[i] == '\n'
        } else {
            legend(text[i]) is Some
        }
}

/// The tile that a character of the legend stands for.
pub fn tile_of_char(c: char) -> (t: Option<Tile>)
    ensures
        t == legend(c),
{
    if c == ' ' {
        Some(Tile::Empty)
    } else if c == '#' {
        Some(Tile::Solid)
    } else if c == 'R' {
        Some(Tile::Room(RoomColor::Red))
    } else if c == 'O' {
        Some(Tile::Room(RoomColor::Orange))
    } else if c == 'Y' {
        Some(Tile::Room(RoomColor::Yellow))
    } else if c == 'G' {
        Some(Tile::Room(RoomColor::Green))
    } else if c == 'T' {
        Some(Tile::Room(RoomColor::Turquoise))
    } else if c == 'A' {
        Some(Tile::Room(RoomColor::Aqua))
    } else if c == 'C' {
        Some(Tile::Room(RoomColor::Chetwood))
    } else if c == 'B' {
        Some(Tile::Room(RoomColor::Blue))
    } else if c == 'P' {
        Some(Tile::Room(RoomColor::Purple))
    } else if c == 'M' {
        Some(Tile::Room(RoomColor::Magenta))
    } else if c == 'F' {
        Some(Tile::Room(RoomColor::Ferrish))
    } else {
        None
    }
}

/// The character of the legend that stands for a tile.
pub fn char_of_tile(t: Tile) -> (c: char)
    ensures
        c == symbol(t),
        legend(c) == Some(t),
{
    match t {
        Tile::Empty => ' ',
        Tile::Solid => '#',
        Tile::Room(RoomColor::Red) => 'R',
        Tile::Room(RoomColor::Orange) => 'O',
        Tile::Room(RoomColor::Yellow) => 'Y',
        Tile::Room(RoomColor::Green) => 'G',
        Tile::Room(RoomColor::Turquoise) => 'T',
        Tile::Room(RoomColor::Aqua) => 'A',
        Tile::Room(RoomColor::Chetwood) => 'C',
        Tile::Room(RoomColor::Blue) => 'B',
        Tile::Room(RoomColor::Purple) => 'P',
        Tile::Room(RoomColor::Magenta) => 'M',
        Tile::Room(RoomColor::Ferrish) => 'F',
    }
}


/// Number of characters that line `k` of the text gives to the grid.
pub open spec fn width_of(text: Seq<char>, k: nat) -> int {
    if has_line(text, k) {
        if line(text, k).len() < ROOM_WIDTH {
            line(text, k).len() as int
        } else {
            ROOM_WIDTH as int
        }
    } else {
        0
    }
}

/// The characters of a string, one by one.
pub fn collect_chars(s: &str) -> (v: Vec<char>)
    ensures
        v@ == s@,
{
    let mut v: Vec<char> = Vec::new();
    for c in it: s.chars()
        invariant
            it.seq() == s@,
            v@ =~= s@.take(it.index()),
    {
        v.push(c);
    }
    v
}

/// Scans an edge column upward for the lowest cell that the text gives as empty.
fn find_column_entrance(
    tiles: &Vec<Tile>,
    widths: &Vec<usize>,
    x: usize,
    Ghost(text): Ghost<Seq<char>>,
) -> (e: Option<GridCoord>)
    requires
        layout_ok(text),
        tiles@ == layout_grid(text),
        widths@.len() == ROOM_HEIGHT,
        forall|k: int| 0 <= k < ROOM_HEIGHT ==> #[trigger] widths@[k] == width_of(text, k as nat),
        x < ROOM_WIDTH,
    ensures
        column_entrance(text, x as int, e),
        e is Some ==> in_grid(e->0.x as int, e->0.y as int) && tiles@[e->0.y * ROOM_WIDTH
            + e->0.x] == Tile::Empty,
{
    let mut y: usize = 0;
    while y < 15
        invariant
            layout_ok(text),
            tiles@ == layout_grid(text),
            widths@.len() == ROOM_HEIGHT,
            forall|k: int|
                0 <= k < ROOM_HEIGHT ==> #[trigger] widths@[k] == width_of(text, k as nat),
            x < ROOM_WIDTH,
            y <= 15,
            forall|j: int| 0 <= j < y ==> !#[trigger] given_empty(text, x as int, j),
        decreases 15 - y,
    {
        assert(widths@[14 - y] == width_of(text, (14 - y) as nat));
        assert(given(text, x as int, y as int) <==> x < widths@[14 - y]);
        assert(tiles@[y * 15 + x] == layout_tile(text, x as int, y as int));
        if x < widths[14 - y] && tiles[y * 15 + x] == Tile::Empty {
            return Some(GridCoord { x: x as i64, y: y as i64 });
        }
        y = y + 1;
    }
    None
}

/// Scans the top row leftward for the rightmost cell that the text gives as empty.
fn find_top_entrance(tiles: &Vec<Tile>, widths: &Vec<usize>, Ghost(text): Ghost<Seq<char>>) -> (e:
    Option<GridCoord>)
    requires
        layout_ok(text),
        tiles@ == layout_grid(text),
        widths@.len() == ROOM_HEIGHT,
        forall|k: int| 0 <= k < ROOM_HEIGHT ==> #[trigger] widths@[k] == width_of(text, k as nat),
    ensures
        top_entrance(text, e),
        e is Some ==> in_grid(e->0.x as int, e->0.y as int) && tiles@[e->0.y * ROOM_WIDTH
            + e->0.x] == Tile::Empty,
{
    let mut x: usize = 15;
    while x > 0
        invariant
            layout_ok(text),
            tiles@ == layout_grid(text),
            widths@.len() == ROOM_HEIGHT,
            forall|k: int|
                0 <= k < ROOM_HEIGHT ==> #[trigger] widths@[k] == width_of(text, k as nat),
            x <= 15,
            forall|j: int| x <= j < ROOM_WIDTH ==> !#[trigger] given_empty(text, j, ROOM_HEIGHT - 1),
        decreases x,
    {
        x = x - 1;
        assert(widths@[0] == width_of(text, 0nat));
        assert(given(text, x as int, 14) <==> x < widths@[0]);
        assert(tiles@[14 * 15 + x] == layout_tile(text, x as int, 14));
        if x < widths[0] && tiles[14 * 15 + x] == Tile::Empty {
            return Some(GridCoord { x: x as i64, y: 14 });
        }
    }
    None
}

/// Reads a room from its textual layout.
///
/// Line `k` of the text is row `14 - k` of the grid. Lines beyond the
/// fifteenth and characters beyond the fifteenth of a line are ignored, and
/// cells that the text does not reach are empty. A character outside the
/// legend, where the text gives it for a cell, refuses the whole layout.
pub fn parse_room(level: &str) -> (r: Result<Room, LayoutError>)
    ensures
        r is Ok <==> layout_ok(level@),
        match r {
            Ok(room) => {
                &&& room.wf()
                &&& room.grid() == layout_grid(level@)
                &&& column_entrance(level@, 0, room.entrance_on(RoomEntrance::Left))
                &&& column_entrance(
                    level@,
                    ROOM_WIDTH - 1,
                    room.entrance_on(RoomEntrance::Right),
                )
                &&& top_entrance(level@, room.entrance_on(RoomEntrance::Top))
            },
            Err(e) => first_unrecognized(level@, e),
        },
{
    let text = collect_chars(level);
    let n = text.len();
    let mut tiles: Vec<Tile> = Vec::new();
    while tiles.len() < ROOM_CELLS
        invariant
            tiles@.len() <= ROOM_CELLS,
            forall|i: int| 0 <= i < tiles@.len() ==> tiles@[i] == Tile::Empty,
        decreases ROOM_CELLS - tiles@.len(),
    {
        tiles.push(Tile::Empty);
    }
    let mut widths: Vec<usize> = Vec::new();
    let mut start: usize = 0;
    let mut exhausted = false;
    let mut ty: usize = 0;
    while ty < 15
        invariant
            text@ == level@,
            n == text@.len(),
            ty <= 15,
            tiles@.len() == ROOM_CELLS,
            widths@.len() == ty,
            !exhausted ==> start == line_start(text@, ty as nat) && start <= n,
            exhausted ==> line_start(text@, ty as nat) >= n,
            forall|k: int| 0 <= k < ty ==> #[trigger] widths@[k] == width_of(text@, k as nat),
            forall|i: int|
                0 <= i < ROOM_CELLS ==> #[trigger] tiles@[i] == if 14 - i / 15 < ty {
                    layout_tile(text@, i % 15, i / 15)
                } else {
                    Tile::Empty
                },
            forall|x: int, y: int|
                #[trigger] given(text@, x, y) && 14 - y < ty ==> legend(given_char(text@, x, y))
                    is Some,
        decreases 15 - ty,
    {
        let mut width: usize = 0;
        let ghost row: int = 14 - ty;
        if !exhausted && start < n {
            let mut end: usize = start;
            while end < n && text[end] != '\n'
                invariant
                    n == text@.len(),
                    start <= end <= n,
                    line_end(text@, start as int) == line_end(text@, end as int),
                decreases n - end,
            {
                end = end + 1;
            }
            let mut body_end: usize = end;
            if end < n && end > start && text[end - 1] == '\r' {
                body_end = end - 1;
            }
            assert(line(text@, ty as nat) == text@.subrange(start as int, body_end as int));
            let len: usize = body_end - start;
            width = if len < 15 {
                len
            } else {
                15
            };
            assert(width == width_of(text@, ty as nat));
            let mut x: usize = 0;
            while x < width
                invariant
                    text@ == level@,
                    n == text@.len(),
                    ty < 15,
                    row == 14 - ty,
                    tiles@.len() == ROOM_CELLS,
                    start <= body_end <= n,
                    x <= width <= 15,
                    width <= body_end - start,
                    width == width_of(text@, ty as nat),
                    has_line(text@, ty as nat),
                    line(text@, ty as nat) == text@.subrange(start as int, body_end as int),
                    forall|i: int|
                        0 <= i < ROOM_CELLS ==> #[trigger] tiles@[i] == if 14 - i / 15 < ty {
                            layout_tile(text@, i % 15, i / 15)
                        } else if i / 15 == row && i % 15 < x {
                            layout_tile(text@, i % 15, i / 15)
                        } else {
                            Tile::Empty
                        },
                    forall|x2: int, y: int|
                        #[trigger] given(text@, x2, y) && (14 - y < ty || (14 - y == ty && x2 < x))
                            ==> legend(given_char(text@, x2, y)) is Some,
                decreases width - x,
            {
                let c = text[start + x];
                assert(given(text@, x as int, row));
                assert(given_char(text@, x as int, row) == c);
                match tile_of_char(c) {
                    None => {
                        return Err(
                            LayoutError::UnrecognizedTile { character: c, line: ty, column: x },
                        );
                    },
                    Some(t) => {
                        tiles.set((14 - ty) * 15 + x, t);
                    },
                }
                x = x + 1;
            }
            if end < n {
                start = end + 1;
            } else {
                exhausted = true;
            }
        } else {
            exhausted = true;
        }
        widths.push(width);
        ty = ty + 1;
    }
    assert(layout_ok(text@));
    assert(tiles@ =~= layout_grid(text@));
    let left = find_column_entrance(&tiles, &widths, 0, Ghost(text@));
    let right = find_column_entrance(&tiles, &widths, 14, Ghost(text@));
    let top = find_top_entrance(&tiles, &widths, Ghost(text@));
    Ok(Room::assemble(tiles, left, top, right))
}


/// The one-character string of the legend that stands for a tile.
fn symbol_str(t: Tile) -> (s: &'static str)
    ensures
        s@ == seq![symbol(t)],
{
    proof {
        reveal_strlit(" ");
        reveal_strlit("#");
        reveal_strlit("R");
        reveal_strlit("O");
        reveal_strlit("Y");
        reveal_strlit("G");
        reveal_strlit("T");
        reveal_strlit("A");
        reveal_strlit("C");
        reveal_strlit("B");
        reveal_strlit("P");
        reveal_strlit("M");
        reveal_strlit("F");
    }
    let s = match t {
        Tile::Empty => " ",
        Tile::Solid => "#",
        Tile::Room(RoomColor::Red) => "R",
        Tile::Room(RoomColor::Orange) => "O",
        Tile::Room(RoomColor::Yellow) => "Y",
        Tile::Room(RoomColor::Green) => "G",
        Tile::Room(RoomColor::Turquoise) => "T",
        Tile::Room(RoomColor::Aqua) => "A",
        Tile::Room(RoomColor::Chetwood) => "C",
        Tile::Room(RoomColor::Blue) => "B",
        Tile::Room(RoomColor::Purple) => "P",
        Tile::Room(RoomColor::Magenta) => "M",
        Tile::Room(RoomColor::Ferrish) => "F",
    };
    assert(s@ =~= seq![symbol(t)]);
    s
}

/// Writes the grid of a room as a layout text, top row first.
pub fn write_room(room: &Room) -> (text: String)
    ensures
        text@ == layout_text(room.grid()),
{
    proof {
        use_type_invariant(room);
    }
    let mut text = String::new();
    let ghost goal = layout_text(room.grid());
    let mut line: i64 = 0;
    while line < ROOM_HEIGHT
        invariant
            room.wf(),
            0 <= line <= ROOM_HEIGHT,
            goal == layout_text(room.grid()),
            goal.len() == 240,
            text@ == goal.take(line * 16),
        decreases ROOM_HEIGHT - line,
    {
        let mut x: i64 = 0;
        while x < ROOM_WIDTH
            invariant
                room.wf(),
                0 <= line < ROOM_HEIGHT,
                0 <= x <= ROOM_WIDTH,
                goal == layout_text(room.grid()),
                goal.len() == 240,
                text@ == goal.take(line * 16 + x),
            decreases ROOM_WIDTH - x,
        {
            let t = room.tile_at(x, ROOM_HEIGHT - 1 - line);
            let ghost before = text@;
            text.append(symbol_str(t));
            proof {
                let i: int = line * 16 + x;
                assert(i % 16 == x && i / 16 == line);
                assert(goal[i] == symbol(t));
                assert(text@ =~= goal.take(i + 1));
            }
            x = x + 1;
        }
        proof {
            reveal_strlit("\n");
        }
        text.append("\n");
        proof {
            let i: int = line * 16 + 15;
            assert(i % 16 == 15);
            assert(goal[i] == '\n');
            assert(text@ =~= goal.take(i + 1));
        }
        line = line + 1;
    }
    assert(text@ =~= goal);
    text
}

/// A line runs on over every character that is no line feed.
proof fn lemma_line_end_scan(text: Seq<char>, from: int, to: int)
    requires
        0 <= from <= to <= text.len(),
        forall|j: int| from <= j < to ==> text[j] != '\n',
    ensures
        line_end(text, from) == line_end(text, to),
    decreases to - from,
{
    if from < to {
        lemma_line_end_scan(text, from + 1, to);
    }
}

/// In a text of the written form, line `k` is the sixteen characters from `16 * k` on.
proof fn lemma_canonical_lines(text: Seq<char>, k: nat)
    requires
        canonical(text),
        k <= ROOM_HEIGHT,
    ensures
        line_start(text, k) == (ROOM_WIDTH + 1) * k,
        k < ROOM_HEIGHT ==> line(text, k) == text.subrange(
            (ROOM_WIDTH + 1) * k,
            (ROOM_WIDTH + 1) * k + ROOM_WIDTH,
        ),
        k < ROOM_HEIGHT ==> line_end(text, (ROOM_WIDTH + 1) * k) == (ROOM_WIDTH + 1) * k
            + ROOM_WIDTH,
    decreases k,
{
    if k > 0 {
        lemma_canonical_lines(text, (k - 1) as nat);
    }
    if k < ROOM_HEIGHT {
        let from: int = 16 * (k as int);
        assert forall|j: int| from <= j < from + 15 implies text[j] != '\n' by {
            assert(j % 16 != 15);
            assert(legend(text[j]) is Some);
        }
        lemma_line_end_scan(text, from, from + 15);
        assert(text[from + 15] == '\n');
        assert(legend(text[from + 14]) is Some);
    }
}

/// A character of the legend is the symbol of the tile that it stands for.
proof fn lemma_symbol_of_legend(c: char)
    requires
        legend(c) is Some,
    ensures
        symbol(legend(c)->0) == c,
{
}

/// In a text of the written form, every cell of the grid is given, by the
/// character at `16 * (14 - y) + x`.
proof fn lemma_canonical_cell(text: Seq<char>, x: int, y: int)
    requires
        canonical(text),
        in_grid(x, y),
    ensures
        given(text, x, y),
        given_char(text, x, y) == text[16 * (14 - y) + x],
        legend(given_char(text, x, y)) is Some,
{
    let k = (14 - y) as nat;
    lemma_canonical_lines(text, k);
    let i: int = 16 * (14 - y) + x;
    assert(i % 16 == x);
    assert(legend(text[i]) is Some);
}

/// Reading a layout and writing its grid out again gives back the text,
/// character for character, for every text of the written form.
pub proof fn layout_round_trip(text: Seq<char>)
    requires
        canonical(text),
    ensures
        layout_ok(text),
        layout_text(layout_grid(text)) == text,
{
    assert forall|x: int, y: int| #[trigger] given(text, x, y) implies legend(
        given_char(text, x, y),
    ) is Some by {
        lemma_canonical_cell(text, x, y);
    }
    let grid = layout_grid(text);
    let back = layout_text(grid);
    assert(back.len() == 240);
    assert forall|i: int| 0 <= i < 240 implies back[i] == text[i] by {
        let k = i / 16;
        let x = i % 16;
        if x != 15 {
            let cell: int = (14 - k) * 15 + x;
            assert(cell % 15 == x && cell / 15 == 14 - k);
            assert(grid[cell] == layout_tile(text, x, 14 - k));
            lemma_canonical_cell(text, x, 14 - k);
            lemma_symbol_of_legend(text[i]);
        }
    }
    assert(back =~= text);
}

/// Every tile is what its symbol stands for.
proof fn lemma_legend_of_symbol(t: Tile)
    ensures
        legend(symbol(t)) == Some(t),
{
}

/// The character that a written grid holds for the cell `(x, y)`.
proof fn lemma_written_cell(grid: Seq<Tile>, x: int, y: int)
    requires
        grid.len() == ROOM_CELLS,
        in_grid(x, y),
    ensures
        layout_text(grid)[16 * (14 - y) + x] == symbol(grid[y * 15 + x]),
{
    let i: int = 16 * (14 - y) + x;
    assert(i % 16 == x && i / 16 == 14 - y);
}

/// Reading a written grid gives each cell back.
proof fn lemma_read_written_cell(grid: Seq<Tile>, c: int)
    requires
        grid.len() == ROOM_CELLS,
        0 <= c < ROOM_CELLS,
        canonical(layout_text(grid)),
    ensures
        layout_tile(layout_text(grid), c % 15, c / 15) == grid[c],
{
    let text = layout_text(grid);
    let x = c % 15;
    let y = c / 15;
    lemma_canonical_cell(text, x, y);
    lemma_written_cell(grid, x, y);
    lemma_legend_of_symbol(grid[c]);
}

/// The text that a grid is written as has the written form.
proof fn lemma_written_form(grid: Seq<Tile>)
    requires
        grid.len() == ROOM_CELLS,
    ensures
        canonical(layout_text(grid)),
{
    let text = layout_text(grid);
    assert(text.len() == 240);
    assert forall|i: int| 0 <= i < text.len() implies if i % 16 == 15 {
        #[trigger] text[i] == '\n'
    } else {
        legend(text[i]) is Some
    } by {
        if i % 16 != 15 {
            let cell: int = (14 - i / 16) * 15 + i % 16;
            assert(0 <= cell < 225);
            assert(text[i] == symbol(grid[cell]));
            lemma_legend_of_symbol(grid[cell]);
        }
    }
}

/// Writing a grid out and reading the text back gives the same grid, for
/// every grid of the fixed size.
pub proof fn grid_round_trip(grid: Seq<Tile>)
    requires
        grid.len() == ROOM_CELLS,
    ensures
        canonical(layout_text(grid)),
        layout_ok(layout_text(grid)),
        layout_grid(layout_text(grid)) == grid,
{
    let text = layout_text(grid);
    lemma_written_form(grid);
    layout_round_trip(text);
    let back = layout_grid(text);
    assert(back.len() == 225);
    assert forall|c: int| 0 <= c < 225 implies back[c] == grid[c] by {
        lemma_read_written_cell(grid, c);
    }
    assert(back =~= grid);
}

} // verus!
