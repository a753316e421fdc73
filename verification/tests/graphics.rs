use tile_platformer::geometry::{Rect, Vec2};
use tile_platformer::graphics::{
    build_room_vertex_buffer, check_picture, choose_piece, create_room_block, load_image,
    place_image, LoadError,
    Piece, Pixels, Quad, Quarter, RoomBlockColors, Sprite, TileImages, ROOM_BLOCK_IMAGE_BYTES,
    ROOM_BLOCK_IMAGE_SIZE, TEXTURE_ATLAS_SIZE,
};
use tile_platformer::layout::parse_room;
use tile_platformer::texture_atlas::TextureAtlas;
use tile_platformer::tilemap::{Room, RoomColor};
use tile_platformer::units::{PIXEL, UNIT};

/// A PNG of three by two pixels: red, green, blue; then three pixels
/// with the bytes 1 to 12.
const TINY_PNG: [u8; 88] = [
    137, 80, 78, 71, 13, 10, 26, 10, 0, 0, 0, 13, 73, 72, 68, 82, 0, 0, 0, 3, 0, 0, 0, 2, 8, 6, 0,
    0, 0, 157, 116, 102, 26, 0, 0, 0, 31, 73, 68, 65, 84, 120, 156, 99, 248, 207, 192, 240, 31, 12,
    25, 254, 255, 103, 96, 100, 98, 102, 97, 101, 99, 231, 224, 228, 226, 230, 1, 0, 115, 20, 6,
    73, 29, 162, 93, 1, 0, 0, 0, 0, 73, 69, 78, 68, 174, 66, 96, 130,
];

fn room_of(lines: &[&str]) -> Room {
    let mut text = String::new();
    for line in lines {
        text.push_str(line);
        text.push('\n');
    }
    parse_room(&text).unwrap()
}

fn palette() -> Vec<RoomBlockColors> {
    let mut all = Vec::new();
    for i in 0..11u8 {
        all.push(RoomBlockColors {
            background: (i, 1, 1),
            inner: (i, 2, 2),
            border: (i, 3, 3),
            outer_border: (i, 4, 4),
        });
    }
    all
}

fn pixel(image: &[u8], x: usize, y: usize) -> [u8; 4] {
    // Rows run from the top of the picture down.
    let at = ((16 - y) * 17 + x) * 4;
    [image[at], image[at + 1], image[at + 2], image[at + 3]]
}

#[test]
fn an_image_is_decoded_and_placed() {
    let mut atlas = TextureAtlas::new(TEXTURE_ATLAS_SIZE);
    let loaded = load_image(&TINY_PNG, &mut atlas).unwrap();
    assert_eq!(loaded.rect, [1, 1, 4, 3]);
    assert_eq!(loaded.pixels.width, 3);
    assert_eq!(loaded.pixels.height, 2);
    assert_eq!(
        loaded.pixels.data,
        vec![255, 0, 0, 255, 0, 255, 0, 255, 0, 0, 255, 255, 1, 2, 3, 4, 5, 6, 7, 8, 9, 10, 11, 12]
    );
    // The next image goes beside it.
    let next = load_image(&TINY_PNG, &mut atlas).unwrap();
    assert_eq!(next.rect, [5, 1, 8, 3]);
}

#[test]
fn bytes_that_are_no_image_are_refused() {
    let mut atlas = TextureAtlas::new(TEXTURE_ATLAS_SIZE);
    assert_eq!(load_image(&[], &mut atlas).err(), Some(LoadError::BadImage));
    assert_eq!(load_image(b"no image at all", &mut atlas).err(), Some(LoadError::BadImage));
    // A PNG cut short.
    assert_eq!(load_image(&TINY_PNG[..40], &mut atlas).err(), Some(LoadError::BadImage));
    // Nothing was placed.
    assert_eq!(atlas.add_texture((1, 1)), Ok([1, 1, 2, 2]));
}

#[test]
fn an_image_that_finds_no_place_is_refused() {
    let mut atlas = TextureAtlas::new((4, 4));
    assert_eq!(load_image(&TINY_PNG, &mut atlas).err(), Some(LoadError::AtlasFull));
    let mut atlas = TextureAtlas::new((5, 4));
    assert_eq!(load_image(&TINY_PNG, &mut atlas).unwrap().rect, [1, 1, 4, 3]);
    assert_eq!(load_image(&TINY_PNG, &mut atlas).err(), Some(LoadError::AtlasFull));
    let pixels = Pixels { width: 2, height: 1, data: vec![0; 8] };
    let mut atlas = TextureAtlas::new((2, 2));
    assert_eq!(place_image(pixels, &mut atlas).err(), Some(LoadError::AtlasFull));
}

#[test]
fn a_sprite_sheet_is_cut_into_equal_frames() {
    let sprite = Sprite::new([10, 20, 145, 35], 9);
    assert_eq!(sprite.frame_count(), 9);
    assert_eq!(sprite.frame(0), Some([10, 20, 25, 35]));
    assert_eq!(sprite.frame(1), Some([25, 20, 40, 35]));
    assert_eq!(sprite.frame(8), Some([130, 20, 145, 35]));
    assert_eq!(sprite.frame(9), None);
    // Pixels that do not fill a frame are left over on the right.
    let sprite = Sprite::new([0, 0, 20, 11], 3);
    assert_eq!(sprite.frame(0), Some([0, 0, 6, 11]));
    assert_eq!(sprite.frame(2), Some([12, 0, 18, 11]));
    let sprite = Sprite::new([5, 5, 5, 9], 2);
    assert_eq!(sprite.frame(1), Some([5, 5, 5, 9]));
}

#[test]
fn pieces_follow_the_walls_around_a_quarter() {
    // across, upright, beside
    assert_eq!(choose_piece(false, false, false), Piece::OuterCorner);
    assert_eq!(choose_piece(true, false, false), Piece::OuterCorner);
    assert_eq!(choose_piece(false, false, true), Piece::Horz);
    assert_eq!(choose_piece(true, false, true), Piece::Horz);
    assert_eq!(choose_piece(false, true, false), Piece::Vert);
    assert_eq!(choose_piece(true, true, false), Piece::Vert);
    assert_eq!(choose_piece(false, true, true), Piece::InnerCorner);
    assert_eq!(choose_piece(true, true, true), Piece::Solid);
}

#[test]
fn tile_images_lie_side_by_side_on_their_sheet() {
    let images = TileImages::new([100, 200, 175, 215]);
    assert_eq!(images.rect(Quarter::TopLeft, Piece::OuterCorner), [100, 200, 108, 208]);
    assert_eq!(images.rect(Quarter::TopRight, Piece::OuterCorner), [108, 200, 115, 208]);
    assert_eq!(images.rect(Quarter::BottomLeft, Piece::OuterCorner), [100, 208, 108, 215]);
    assert_eq!(images.rect(Quarter::BottomRight, Piece::OuterCorner), [108, 208, 115, 215]);
    assert_eq!(images.rect(Quarter::TopLeft, Piece::Horz), [115, 200, 123, 208]);
    assert_eq!(images.rect(Quarter::TopLeft, Piece::Vert), [130, 200, 138, 208]);
    assert_eq!(images.rect(Quarter::TopLeft, Piece::InnerCorner), [145, 200, 153, 208]);
    assert_eq!(images.rect(Quarter::BottomRight, Piece::Solid), [168, 208, 175, 215]);
}

#[test]
fn a_lone_wall_is_drawn_with_four_outer_corners() {
    let mut lines = vec!["               "; 8];
    lines[7] = "       #       ";
    let room = room_of(&lines);
    let images = TileImages::new([0, 0, 75, 15]);
    let blocks = vec![[0u32; 4]; 11];
    let quads = build_room_vertex_buffer(&blocks, &room, &images);
    // The wall is the cell (7, 7).
    let left = 7 * UNIT;
    let low = 7 * UNIT;
    let mid_x = left + 8 * PIXEL;
    let mid_y = low + 7 * PIXEL;
    let area = |x0, y0, x1, y1| Rect { min: Vec2 { x: x0, y: y0 }, max: Vec2 { x: x1, y: y1 } };
    assert_eq!(
        quads,
        vec![
            Quad { area: area(left, mid_y, mid_x, low + UNIT), texture: [0, 0, 8, 8], tinted: true },
            Quad { area: area(mid_x, mid_y, left + UNIT, low + UNIT), texture: [8, 0, 15, 8], tinted: true },
            Quad { area: area(left, low, mid_x, mid_y), texture: [0, 8, 8, 15], tinted: true },
            Quad { area: area(mid_x, low, left + UNIT, mid_y), texture: [8, 8, 15, 15], tinted: true },
        ]
    );
}

#[test]
fn walls_join_and_portals_come_last() {
    // Two walls side by side at (0, 14) and (1, 14), and a portal at (3, 14).
    let room = room_of(&["## G"]);
    let images = TileImages::new([0, 0, 75, 15]);
    let mut blocks = vec![[0u32; 4]; 11];
    blocks[RoomColor::Green.index()] = [500, 600, 517, 617];
    let quads = build_room_vertex_buffer(&blocks, &room, &images);
    assert_eq!(quads.len(), 9);
    // Cell (0, 14): the border of the room is wall, above and to the left.
    // Top left: walls across, above and beside.
    assert_eq!(quads[0].texture, images.rect(Quarter::TopLeft, Piece::Solid));
    // Top right: the wall (1, 14) beside, the border above and across.
    assert_eq!(quads[1].texture, images.rect(Quarter::TopRight, Piece::Solid));
    // Bottom left: the border beside and across, free space below.
    assert_eq!(quads[2].texture, images.rect(Quarter::BottomLeft, Piece::Horz));
    assert_eq!(quads[3].texture, images.rect(Quarter::BottomRight, Piece::Horz));
    // Cell (1, 14): nothing to its right (the cell (2, 14) is free).
    assert_eq!(quads[4].texture, images.rect(Quarter::TopLeft, Piece::Solid));
    assert_eq!(quads[5].texture, images.rect(Quarter::TopRight, Piece::Vert));
    assert_eq!(quads[6].texture, images.rect(Quarter::BottomLeft, Piece::Horz));
    assert_eq!(quads[7].texture, images.rect(Quarter::BottomRight, Piece::OuterCorner));
    // The portal: the picture of the green room, one pixel beyond its cell.
    assert_eq!(
        quads[8],
        Quad {
            area: Rect {
                min: Vec2 { x: 3 * UNIT - PIXEL, y: 14 * UNIT - PIXEL },
                max: Vec2 { x: 4 * UNIT + PIXEL, y: 15 * UNIT + PIXEL },
            },
            texture: [500, 600, 517, 617],
            tinted: false,
        }
    );
}

#[test]
fn an_inner_corner_shows_where_the_diagonal_is_open() {
    // An L of three walls: (0, 13), (0, 12)... drawn away from the border.
    let mut lines = vec!["               "; 6];
    lines[3] = "   #           ";
    lines[4] = "   ##          ";
    let room = room_of(&lines);
    let images = TileImages::new([0, 0, 75, 15]);
    let quads = build_room_vertex_buffer(&vec![[0u32; 4]; 11], &room, &images);
    assert_eq!(quads.len(), 12);
    // Cells in grid order: (3, 10), (4, 10), (3, 11). The corner cell is
    // (3, 10); its top right quarter has walls above and beside, none across.
    assert_eq!(quads[0].texture, images.rect(Quarter::TopLeft, Piece::Vert));
    assert_eq!(quads[1].texture, images.rect(Quarter::TopRight, Piece::InnerCorner));
    assert_eq!(quads[2].texture, images.rect(Quarter::BottomLeft, Piece::OuterCorner));
    assert_eq!(quads[3].texture, images.rect(Quarter::BottomRight, Piece::Horz));
}

#[test]
fn the_picture_of_a_room_shows_its_cells() {
    assert_eq!(ROOM_BLOCK_IMAGE_SIZE, (17, 17));
    let mut lines = vec!["###############"];
    lines.extend(vec!["#             #"; 12]);
    lines.push("#  G          #");
    lines.push("###############");
    let room = room_of(&lines);
    let image = create_room_block(&room, RoomColor::Blue, &palette());
    assert_eq!(image.len(), ROOM_BLOCK_IMAGE_BYTES);
    assert_eq!(image.len(), 17 * 17 * 4);
    let blue = RoomColor::Blue.index() as u8;
    let green = RoomColor::Green.index() as u8;
    // Cell (5, 5) is free: background.
    assert_eq!(pixel(&image, 6, 6), [blue, 1, 1, 255]);
    // Cell (0, 0) is a wall in the corner, enclosed by walls and the
    // border but for the free cell (1, 1): border colour.
    assert_eq!(pixel(&image, 1, 1), [blue, 3, 3, 255]);
    // Cell (0, 5) has free space to its right: border colour.
    assert_eq!(pixel(&image, 1, 6), [blue, 3, 3, 255]);
    // The portal at (3, 1) shows in the border colour of the green room.
    assert_eq!(pixel(&image, 4, 2), [green, 3, 3, 255]);
    // The rim is painted beside the filled edge, not in the corners.
    assert_eq!(pixel(&image, 0, 1), [blue, 4, 4, 255]);
    assert_eq!(pixel(&image, 0, 15), [blue, 4, 4, 255]);
    assert_eq!(pixel(&image, 16, 8), [blue, 4, 4, 255]);
    assert_eq!(pixel(&image, 8, 0), [blue, 4, 4, 255]);
    assert_eq!(pixel(&image, 8, 16), [blue, 4, 4, 255]);
    assert_eq!(pixel(&image, 0, 0), [0, 0, 0, 0]);
    assert_eq!(pixel(&image, 16, 0), [0, 0, 0, 0]);
    assert_eq!(pixel(&image, 0, 16), [0, 0, 0, 0]);
    assert_eq!(pixel(&image, 16, 16), [0, 0, 0, 0]);
}

#[test]
fn the_rim_stays_clear_beside_an_open_edge_and_walls_inside_are_inner() {
    // A solid room with a doorway in the left column at rows 6 to 8.
    let mut lines = vec!["###############"; 15];
    lines[6] = " ##############";
    lines[7] = " ##############";
    lines[8] = " ##############";
    let room = room_of(&lines);
    let image = create_room_block(&room, RoomColor::Red, &palette());
    // Text line 7 is row 7; the cell (0, 7) is free.
    assert_eq!(pixel(&image, 1, 8), [0, 1, 1, 255]);
    assert_eq!(pixel(&image, 0, 8), [0, 0, 0, 0]);
    assert_eq!(pixel(&image, 0, 7), [0, 0, 0, 0]);
    assert_eq!(pixel(&image, 0, 9), [0, 0, 0, 0]);
    assert_eq!(pixel(&image, 0, 10), [0, 4, 4, 255]);
    assert_eq!(pixel(&image, 0, 6), [0, 4, 4, 255]);
    // A wall enclosed on all eight sides is painted in the inner colour,
    // also where the border of the room encloses it.
    assert_eq!(pixel(&image, 8, 8), [0, 2, 2, 255]);
    assert_eq!(pixel(&image, 15, 15), [0, 2, 2, 255]);
    assert_eq!(pixel(&image, 1, 1), [0, 2, 2, 255]);
    // Beside the doorway the wall shows its border.
    assert_eq!(pixel(&image, 2, 8), [0, 3, 3, 255]);
    assert_eq!(pixel(&image, 1, 6), [0, 3, 3, 255]);
    assert_eq!(pixel(&image, 1, 10), [0, 3, 3, 255]);
    assert_eq!(pixel(&image, 1, 11), [0, 2, 2, 255]);
}

/// The first bytes of a PNG file whose header claims this size.
fn png_header(width: u32, height: u32) -> Vec<u8> {
    let mut bytes = vec![137, 80, 78, 71, 13, 10, 26, 10, 0, 0, 0, 13, 73, 72, 68, 82];
    bytes.extend_from_slice(&width.to_be_bytes());
    bytes.extend_from_slice(&height.to_be_bytes());
    bytes.extend_from_slice(&[8, 6, 0, 0, 0]);
    bytes.extend_from_slice(&[0, 0, 0, 0]);
    bytes
}

/// A chunk of this kind with this data and no true checksum.
fn chunk(kind: &[u8; 4], data: &[u8]) -> Vec<u8> {
    let mut bytes = (data.len() as u32).to_be_bytes().to_vec();
    bytes.extend_from_slice(kind);
    bytes.extend_from_slice(data);
    bytes.extend_from_slice(&[0, 0, 0, 0]);
    bytes
}

#[test]
fn a_picture_is_tested_before_it_is_decoded() {
    assert!(check_picture(&TINY_PNG));
    // What is no PNG file is left to the decoder, which refuses it.
    assert!(check_picture(&[]));
    assert!(check_picture(b"no image at all"));
    assert!(check_picture(&TINY_PNG[1..]));
    // A PNG file must end with a chunk.
    assert!(!check_picture(&TINY_PNG[..40]));
    assert!(!check_picture(&TINY_PNG[..87]));
    assert!(!check_picture(&TINY_PNG[..8]));
    let mut longer = TINY_PNG.to_vec();
    longer.push(0);
    assert!(!check_picture(&longer));
    // The header comes first and has thirteen bytes.
    assert!(check_picture(&png_header(3, 2)));
    let mut bytes = png_header(3, 2);
    bytes[11] = 14;
    bytes.push(0);
    assert!(!check_picture(&bytes));
    let mut bytes = png_header(3, 2);
    bytes[12] = b'J';
    assert!(!check_picture(&bytes));
    // Other chunks may follow, but none that gives the picture a size.
    let with = |kind: &[u8; 4], data: &[u8]| {
        let mut bytes = png_header(3, 2);
        bytes.extend_from_slice(&chunk(b"tEXt", b"made by hand"));
        bytes.extend_from_slice(&chunk(kind, data));
        bytes.extend_from_slice(&chunk(b"IEND", b""));
        bytes
    };
    assert!(check_picture(&with(b"IDAT", &[1, 2, 3])));
    assert!(check_picture(&with(b"PLTE", &[])));
    assert!(!check_picture(&with(b"IHDR", &[0; 13])));
    assert!(!check_picture(&with(b"acTL", &[0; 8])));
    assert!(!check_picture(&with(b"fcTL", &[0; 26])));
    assert!(!check_picture(&with(b"fdAT", &[0; 4])));
    // A palette or transparent colours come before the bytes of the
    // picture, not among them.
    let around = |first: &[u8; 4], second: &[u8; 4]| {
        let mut bytes = png_header(3, 2);
        bytes.extend_from_slice(&chunk(first, &[0; 6]));
        bytes.extend_from_slice(&chunk(second, &[0; 6]));
        bytes.extend_from_slice(&chunk(b"IEND", b""));
        bytes
    };
    assert!(check_picture(&around(b"PLTE", b"IDAT")));
    assert!(check_picture(&around(b"tRNS", b"IDAT")));
    assert!(check_picture(&around(b"IDAT", b"tEXt")));
    assert!(!check_picture(&around(b"IDAT", b"PLTE")));
    assert!(!check_picture(&around(b"IDAT", b"tRNS")));
    // A chunk that claims more bytes than there are.
    let mut bytes = with(b"IDAT", &[1, 2, 3]);
    let at = bytes.len() - 12 - 15;
    assert_eq!(&bytes[at + 4..at + 8], b"IDAT");
    bytes[at + 3] = 200;
    assert!(!check_picture(&bytes));
}

#[test]
fn a_picture_has_no_more_than_two_to_the_24th_pixels() {
    assert!(check_picture(&png_header(4096, 4096)));
    assert!(check_picture(&png_header(0x100_0000, 1)));
    assert!(check_picture(&png_header(1, 0x100_0000)));
    assert!(!check_picture(&png_header(4097, 4096)));
    assert!(!check_picture(&png_header(0x100_0001, 1)));
    assert!(!check_picture(&png_header(0x7fff_ffff, 0x7fff_ffff)));
    assert!(!check_picture(&png_header(0xffff_ffff, 0xffff_ffff)));
    assert!(!check_picture(&png_header(0, 2)));
    assert!(!check_picture(&png_header(3, 0)));
    // Such a picture is refused before the decoder sees it, and nothing is placed.
    let mut atlas = TextureAtlas::new(TEXTURE_ATLAS_SIZE);
    let r = load_image(&png_header(0x7fff_ffff, 0x7fff_ffff), &mut atlas);
    assert_eq!(r.err(), Some(LoadError::BadImage));
    let second = [png_header(3, 2), chunk(b"IHDR", &png_header(0x4000_0000, 0x4000_0000)[16..29])]
        .concat();
    assert_eq!(load_image(&second, &mut atlas).err(), Some(LoadError::BadImage));
    assert_eq!(atlas.add_texture((1, 1)), Ok([1, 1, 2, 2]));
}
