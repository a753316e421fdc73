use tile_platformer::geometry::{GridCoord, Rect, Vec2};
use tile_platformer::layout::{
    char_of_tile, collect_chars, parse_room, tile_of_char, write_room, LayoutError,
};
use tile_platformer::tilemap::{Room, RoomColor, RoomEntrance, Tile, TileHit};
use tile_platformer::units::UNIT;

fn sample_text() -> String {
    let lines = [
        "######   ######",
        "#             #",
        "#     R       #",
        "#             #",
        "      ###      ",
        "#             #",
        "#  B          #",
        "#             #",
        "#        G    #",
        "#             #",
        "               ",
        "#             #",
        "#      ##     #",
        "#             #",
        "###############",
    ];
    let mut text = String::new();
    for line in lines.iter() {
        text.push_str(line);
        text.push('\n');
    }
    text
}

fn sample_room() -> Room {
    parse_room(&sample_text()).unwrap()
}

#[test]
fn parse_flips_the_text_vertically() {
    let room = sample_room();
    // The last line of the text is row 0 of the grid.
    for x in 0..15 {
        assert_eq!(room.tile_at(x, 0), Tile::Solid);
    }
    // The first line of the text is row 14.
    assert_eq!(room.tile_at(0, 14), Tile::Solid);
    assert_eq!(room.tile_at(6, 14), Tile::Empty);
    assert_eq!(room.tile_at(8, 14), Tile::Empty);
    assert_eq!(room.tile_at(9, 14), Tile::Solid);
    // Third line of the text: row 12.
    assert_eq!(room.tile_at(6, 12), Tile::Room(RoomColor::Red));
    // Seventh line of the text: row 8.
    assert_eq!(room.tile_at(3, 8), Tile::Room(RoomColor::Blue));
    assert_eq!(room.tile_at(9, 6), Tile::Room(RoomColor::Green));
    assert_eq!(room.tile_at(7, 2), Tile::Solid);
    assert_eq!(room.tile_at(8, 2), Tile::Solid);
    assert_eq!(room.tile_at(9, 2), Tile::Empty);
}

#[test]
fn everything_outside_the_grid_is_solid() {
    let room = parse_room("").unwrap();
    // The room itself is empty ...
    for y in 0..15 {
        for x in 0..15 {
            assert_eq!(room.tile_at(x, y), Tile::Empty);
        }
    }
    // ... and walled in on every side.
    for k in -3..18 {
        assert_eq!(room.tile_at(-1, k), Tile::Solid);
        assert_eq!(room.tile_at(15, k), Tile::Solid);
        assert_eq!(room.tile_at(k, -1), Tile::Solid);
        assert_eq!(room.tile_at(k, 15), Tile::Solid);
    }
    assert_eq!(room.tile_at(i64::MIN, 0), Tile::Solid);
    assert_eq!(room.tile_at(0, i64::MAX), Tile::Solid);
    assert_eq!(room.tile_at(i64::MAX, i64::MIN), Tile::Solid);
}

#[test]
fn entrances_are_the_documented_cells() {
    let room = sample_room();
    // Column 0 is empty in rows 10 and 4; the lower one is the entrance.
    assert_eq!(room.entrance(RoomEntrance::Left), Some(GridCoord { x: 0, y: 4 }));
    assert_eq!(room.entrance(RoomEntrance::Right), Some(GridCoord { x: 14, y: 4 }));
    // The top row is empty from column 6 to 8; the rightmost is the entrance.
    assert_eq!(room.entrance(RoomEntrance::Top), Some(GridCoord { x: 8, y: 14 }));
}

#[test]
fn a_closed_room_has_no_entrances() {
    let mut text = String::new();
    for _ in 0..15 {
        text.push_str("###############\n");
    }
    let room = parse_room(&text).unwrap();
    assert_eq!(room.entrance(RoomEntrance::Left), None);
    assert_eq!(room.entrance(RoomEntrance::Right), None);
    assert_eq!(room.entrance(RoomEntrance::Top), None);
}

#[test]
fn cells_that_the_text_does_not_reach_are_empty_but_no_entrance() {
    // One short line: only the top row gets characters.
    let room = parse_room("##").unwrap();
    assert_eq!(room.tile_at(0, 14), Tile::Solid);
    assert_eq!(room.tile_at(1, 14), Tile::Solid);
    assert_eq!(room.tile_at(2, 14), Tile::Empty);
    assert_eq!(room.tile_at(0, 0), Tile::Empty);
    assert_eq!(room.entrance(RoomEntrance::Left), None);
    assert_eq!(room.entrance(RoomEntrance::Right), None);
    assert_eq!(room.entrance(RoomEntrance::Top), None);
}

#[test]
fn characters_and_lines_beyond_the_grid_are_ignored() {
    let mut text = String::new();
    for _ in 0..15 {
        // Sixteenth character onward is never looked at, not even a bad one.
        text.push_str("#             #?!ignored\n");
    }
    text.push_str("this sixteenth line is never read: ?\n");
    let room = parse_room(&text).unwrap();
    assert_eq!(room.tile_at(0, 0), Tile::Solid);
    assert_eq!(room.tile_at(14, 0), Tile::Solid);
    assert_eq!(room.tile_at(7, 7), Tile::Empty);
}

#[test]
fn an_unrecognized_character_refuses_the_layout() {
    let r = parse_room("###\n# x\n###\n");
    assert_eq!(
        r.err(),
        Some(LayoutError::UnrecognizedTile { character: 'x', line: 1, column: 2 })
    );
    // The first offender in reading order is reported.
    let r = parse_room("#\n  q  z\nw\n");
    assert_eq!(
        r.err(),
        Some(LayoutError::UnrecognizedTile { character: 'q', line: 1, column: 2 })
    );
    // Lower-case letters are not in the legend.
    assert!(parse_room("r").is_err());
}

#[test]
fn carriage_returns_end_a_line_only_before_a_line_feed() {
    let room = parse_room("##\r\n #\r\n").unwrap();
    assert_eq!(room.tile_at(0, 14), Tile::Solid);
    assert_eq!(room.tile_at(1, 14), Tile::Solid);
    assert_eq!(room.tile_at(2, 14), Tile::Empty);
    assert_eq!(room.tile_at(0, 13), Tile::Empty);
    assert_eq!(room.tile_at(1, 13), Tile::Solid);
    // A carriage return inside a line, or at the very end of the text, is
    // a character like any other, and not in the legend.
    assert_eq!(
        parse_room("#\r#\n").err(),
        Some(LayoutError::UnrecognizedTile { character: '\r', line: 0, column: 1 })
    );
    assert_eq!(
        parse_room("##\r").err(),
        Some(LayoutError::UnrecognizedTile { character: '\r', line: 0, column: 2 })
    );
}

#[test]
fn an_empty_line_leaves_its_row_empty() {
    let room = parse_room("\n###\n").unwrap();
    assert_eq!(room.tile_at(0, 14), Tile::Empty);
    assert_eq!(room.tile_at(0, 13), Tile::Solid);
    assert_eq!(room.tile_at(2, 13), Tile::Solid);
    assert_eq!(room.tile_at(3, 13), Tile::Empty);
}

#[test]
fn the_legend_maps_both_ways() {
    let legend = [
        (' ', Tile::Empty),
        ('#', Tile::Solid),
        ('R', Tile::Room(RoomColor::Red)),
        ('O', Tile::Room(RoomColor::Orange)),
        ('Y', Tile::Room(RoomColor::Yellow)),
        ('G', Tile::Room(RoomColor::Green)),
        ('T', Tile::Room(RoomColor::Turquoise)),
        ('A', Tile::Room(RoomColor::Aqua)),
        ('C', Tile::Room(RoomColor::Chetwood)),
        ('B', Tile::Room(RoomColor::Blue)),
        ('P', Tile::Room(RoomColor::Purple)),
        ('M', Tile::Room(RoomColor::Magenta)),
        ('F', Tile::Room(RoomColor::Ferrish)),
    ];
    for (c, t) in legend.iter() {
        assert_eq!(tile_of_char(*c), Some(*t));
        assert_eq!(char_of_tile(*t), *c);
    }
    assert_eq!(tile_of_char('x'), None);
    assert_eq!(tile_of_char('\n'), None);
    assert_eq!(tile_of_char('r'), None);
}

#[test]
fn writing_a_parsed_layout_gives_back_the_text() {
    let text = sample_text();
    let room = parse_room(&text).unwrap();
    assert_eq!(write_room(&room), text);
}

#[test]
fn parsing_a_written_room_gives_back_the_grid() {
    let room = sample_room();
    let again = parse_room(&write_room(&room)).unwrap();
    for y in 0..15 {
        for x in 0..15 {
            assert_eq!(again.tile_at(x, y), room.tile_at(x, y));
        }
    }
    assert_eq!(again.entrance(RoomEntrance::Left), room.entrance(RoomEntrance::Left));
    assert_eq!(again.entrance(RoomEntrance::Right), room.entrance(RoomEntrance::Right));
    assert_eq!(again.entrance(RoomEntrance::Top), room.entrance(RoomEntrance::Top));
}

#[test]
fn a_short_text_is_written_out_in_full() {
    let room = parse_room("#").unwrap();
    let text = write_room(&room);
    assert_eq!(text.len(), 15 * 16);
    let lines: Vec<&str> = text.lines().collect();
    assert_eq!(lines.len(), 15);
    assert_eq!(lines[0], "#              ");
    for line in lines.iter().skip(1) {
        assert_eq!(*line, "               ");
    }
}

#[test]
fn collect_chars_keeps_every_character() {
    assert_eq!(collect_chars("a#\n é"), vec!['a', '#', '\n', ' ', 'é']);
    assert_eq!(collect_chars(""), Vec::<char>::new());
}

#[test]
fn the_range_query_walks_columns_from_the_left_and_up() {
    let room = sample_room();
    // From (0.5, 0.5) to (1.5, 2.5): columns 0 and 1, rows 0 to 2.
    let rect = Rect {
        min: Vec2 { x: UNIT / 2, y: UNIT / 2 },
        max: Vec2 { x: UNIT + UNIT / 2, y: 2 * UNIT + UNIT / 2 },
    };
    let hits = room.for_each_tile_in_rect(rect);
    let expected = vec![
        TileHit { cell: GridCoord { x: 0, y: 0 }, tile: Tile::Solid },
        TileHit { cell: GridCoord { x: 0, y: 1 }, tile: Tile::Solid },
        TileHit { cell: GridCoord { x: 0, y: 2 }, tile: Tile::Solid },
        TileHit { cell: GridCoord { x: 1, y: 0 }, tile: Tile::Solid },
        TileHit { cell: GridCoord { x: 1, y: 1 }, tile: Tile::Empty },
        TileHit { cell: GridCoord { x: 1, y: 2 }, tile: Tile::Empty },
    ];
    assert_eq!(hits, expected);
}

#[test]
fn the_range_query_floors_negative_bounds_and_yields_the_border() {
    let room = parse_room("").unwrap();
    // From (-0.5, -0.5) to (0.5, 0.5): cells -1 and 0 along both axes.
    let rect = Rect {
        min: Vec2 { x: -UNIT / 2, y: -UNIT / 2 },
        max: Vec2 { x: UNIT / 2, y: UNIT / 2 },
    };
    let hits = room.for_each_tile_in_rect(rect);
    let expected = vec![
        TileHit { cell: GridCoord { x: -1, y: -1 }, tile: Tile::Solid },
        TileHit { cell: GridCoord { x: -1, y: 0 }, tile: Tile::Solid },
        TileHit { cell: GridCoord { x: 0, y: -1 }, tile: Tile::Solid },
        TileHit { cell: GridCoord { x: 0, y: 0 }, tile: Tile::Empty },
    ];
    assert_eq!(hits, expected);
    // A bound that lies exactly on a cell's edge belongs to the cell above it.
    let rect = Rect { min: Vec2 { x: 0, y: 0 }, max: Vec2 { x: UNIT, y: 0 } };
    let hits = room.for_each_tile_in_rect(rect);
    assert_eq!(hits.len(), 2);
    assert_eq!(hits[0].cell, GridCoord { x: 0, y: 0 });
    assert_eq!(hits[1].cell, GridCoord { x: 1, y: 0 });
}

#[test]
fn an_inverted_rectangle_meets_no_cell() {
    let room = sample_room();
    let rect = Rect {
        min: Vec2 { x: 3 * UNIT, y: 0 },
        max: Vec2 { x: UNIT, y: UNIT },
    };
    assert!(room.for_each_tile_in_rect(rect).is_empty());
}

#[test]
fn room_colors_have_their_ordinal_and_hue() {
    let all = [
        (RoomColor::Red, 0, 0),
        (RoomColor::Orange, 1, 26),
        (RoomColor::Yellow, 2, 57),
        (RoomColor::Green, 3, 129),
        (RoomColor::Turquoise, 4, 155),
        (RoomColor::Aqua, 5, 166),
        (RoomColor::Chetwood, 6, 199),
        (RoomColor::Blue, 7, 225),
        (RoomColor::Purple, 8, 255),
        (RoomColor::Magenta, 9, 300),
        (RoomColor::Ferrish, 10, 335),
    ];
    for (color, index, hue) in all.iter() {
        assert_eq!(color.index(), *index);
        assert_eq!(color.hue(), *hue);
    }
}
