//! What is drawn, as far as it can be told without a graphics context:
//! decoded images and their place on the atlas, the frames of a sprite,
//! the quads of a room, and the small picture of a room inside a portal.

use vstd::prelude::*;
use image::ImageError;
use crate::geometry::{Rect, Vec2};
use crate::texture_atlas::{TextureAtlas, TextureRect};
use crate::tilemap::{Room, RoomColor, Tile, ROOM_CELLS, ROOM_COUNT};
use crate::units::{PIXEL, UNIT};

verus! {

/// Width and height of the texture atlas, in pixels.
pub const TEXTURE_ATLAS_SIZE: (u32, u32) = (1024, 1024);

/// Width and height of the picture of a room inside a portal: the room's
/// fifteen cells and a rim of one pixel.
pub const ROOM_BLOCK_IMAGE_SIZE: (u32, u32) = (17, 17);

/// Number of bytes of the picture of a room: four for each pixel.
pub const ROOM_BLOCK_IMAGE_BYTES: usize = 1156;

/// The error of the image decoder (`image::ImageError`), carried through
/// unread.
#[verifier::external_type_specification]
#[verifier::external_body]
pub struct ExImageError(ImageError);

/// A colour: red, green, blue.
pub type Rgb = (u8, u8, u8);

/// The four colours in which a room is painted.
#[derive(Clone, Copy, Debug)]
pub struct RoomBlockColors {
    pub background: Rgb,
    pub inner: Rgb,
    pub border: Rgb,
    pub outer_border: Rgb,
}

/// A decoded image: its size, and four bytes for each pixel, row by row.
#[derive(Debug)]
pub struct Pixels {
    pub width: u32,
    pub height: u32,
    pub data: Vec<u8>,
}

/// An image that has its place on the atlas.
#[derive(Debug)]
pub struct LoadedImage {
    pub rect: TextureRect,
    pub pixels: Pixels,
}

/// Why an image could not be loaded.
#[derive(Clone, Copy, Debug, PartialEq, Eq, Structural)]
pub enum LoadError {
    /// The bytes are no image that can be decoded, or a PNG file that is
    /// not of the plain form.
    BadImage,
    /// The atlas has no free place for the image.
    AtlasFull,
}

/// The most pixels of a picture that is handed to the decoder, which
/// sets memory aside for all of them before it reads the first.
pub const MAX_PIXELS: u64 = 0x100_0000;

/// Whether the bytes begin as a PNG file does. The decoder tells the kind
/// of a picture by its first bytes, and reads no other kind than PNG.
pub open spec fn is_png(bytes: Seq<u8>) -> bool {
    &&& bytes.len() >= 8
    &&& bytes[0] == 137
    &&& bytes[1] == 80
    &&& bytes[2] == 78
    &&& bytes[3] == 71
    &&& bytes[4] == 13
    &&& bytes[5] == 10
    &&& bytes[6] == 26
    &&& bytes[7] == 10
}

/// The number that the four bytes from byte `at` on spell, the highest first.
pub open spec fn be_number(bytes: Seq<u8>, at: int) -> int {
    0x100_0000 * bytes[at] + 0x1_0000 * bytes[at + 1] + 0x100 * bytes[at + 2] + bytes[at + 3]
}

/// Whether the chunk that begins at byte `at` is of the kind that the
/// four letters name.
pub open spec fn is_kind(bytes: Seq<u8>, at: int, a: u8, b: u8, c: u8, d: u8) -> bool {
    bytes[at + 4] == a && bytes[at + 5] == b && bytes[at + 6] == c && bytes[at + 7] == d
}

/// Whether the chunk at byte `at` gives a picture its size: a header
/// (`IHDR`), or one of the chunks of an animation (`acTL`, `fcTL`, `fdAT`).
pub open spec fn sets_a_size(bytes: Seq<u8>, at: int) -> bool {
    ||| is_kind(bytes, at, 73, 72, 68, 82)
    ||| is_kind(bytes, at, 97, 99, 84, 76)
    ||| is_kind(bytes, at, 102, 99, 84, 76)
    ||| is_kind(bytes, at, 102, 100, 65, 84)
}

/// Whether the chunk at byte `at` says how the bytes of the picture are
/// to be read: a palette (`PLTE`) or the colours that are transparent
/// (`tRNS`).
pub open spec fn sets_the_colours(bytes: Seq<u8>, at: int) -> bool {
    is_kind(bytes, at, 80, 76, 84, 69) || is_kind(bytes, at, 116, 82, 78, 83)
}

/// Whether the chunk at byte `at` holds bytes of the picture (`IDAT`).
pub open spec fn is_data(bytes: Seq<u8>, at: int) -> bool {
    is_kind(bytes, at, 73, 68, 65, 84)
}

/// Whether the bytes from byte `at` on are chunk after chunk to their
/// end, each with its length, its kind, its data and its checksum; none
/// of them gives the picture a size, and none says how its bytes are to
/// be read once the first of them has come: `begun` tells whether it
/// has.
pub open spec fn chunks_are_plain(bytes: Seq<u8>, at: int, begun: bool) -> bool
    decreases bytes.len() - at,
{
    if at >= bytes.len() {
        true
    } else if at < 0 || at + 12 > bytes.len() || at + 12 + be_number(bytes, at) > bytes.len() {
        false
    } else if sets_a_size(bytes, at) || (begun && sets_the_colours(bytes, at)) {
        false
    } else {
        chunks_are_plain(bytes, at + 12 + be_number(bytes, at), begun || is_data(bytes, at))
    }
}

/// Whether a PNG file is of the plain form: it begins with its header of
/// thirteen bytes, which gives the picture a width and a height of no
/// more than `MAX_PIXELS` pixels together, and goes on chunk after chunk
/// to its end, without a chunk that gives it another size, and without
/// a palette or transparent colours after the first bytes of the picture.
pub open spec fn png_is_plain(bytes: Seq<u8>) -> bool {
    &&& bytes.len() >= 33
    &&& be_number(bytes, 8) == 13
    &&& is_kind(bytes, 8, 73, 72, 68, 82)
    &&& 1 <= be_number(bytes, 16)
    &&& 1 <= be_number(bytes, 20)
    &&& be_number(bytes, 16) * be_number(bytes, 20) <= MAX_PIXELS
    &&& chunks_are_plain(bytes, 33, false)
}

/// Whether the bytes can be handed to the decoder: they are no PNG file,
/// which the decoder refuses at once, or a PNG file of the plain form.
pub open spec fn picture_is_safe(bytes: Seq<u8>) -> bool {
    is_png(bytes) ==> png_is_plain(bytes)
}

/// Reads the number that the four bytes from byte `at` on spell.
fn read_be(bytes: &[u8], at: usize) -> (v: u64)
    requires
        at + 4 <= bytes@.len() <= usize::MAX,
    ensures
        v == be_number(bytes@, at as int),
        v <= 0xffff_ffff,
{
    let b0: u64 = bytes[at] as u64;
    let b1: u64 = bytes[at + 1] as u64;
    let b2: u64 = bytes[at + 2] as u64;
    let b3: u64 = bytes[at + 3] as u64;
    0x100_0000 * b0 + 0x1_0000 * b1 + 0x100 * b2 + b3
}

/// Tests whether the chunk at byte `at` is of the kind that the letters name.
fn has_kind(bytes: &[u8], at: usize, a: u8, b: u8, c: u8, d: u8) -> (same: bool)
    requires
        at + 8 <= bytes@.len() <= usize::MAX,
    ensures
        same == is_kind(bytes@, at as int, a, b, c, d),
{
    bytes[at + 4] == a && bytes[at + 5] == b && bytes[at + 6] == c && bytes[at + 7] == d
}

/// Tests whether the bytes can be handed to the decoder.
pub fn check_picture(bytes: &[u8]) -> (safe: bool)
    ensures
        safe == picture_is_safe(bytes@),
{
    let n: usize = bytes.len();
    if n < 8 || bytes[0] != 137 || bytes[1] != 80 || bytes[2] != 78 || bytes[3] != 71 || bytes[4]
        != 13 || bytes[5] != 10 || bytes[6] != 26 || bytes[7] != 10 {
        return true;
    }
    if n < 33 || read_be(bytes, 8) != 13 || !has_kind(bytes, 8, 73, 72, 68, 82) {
        return false;
    }
    let width = read_be(bytes, 16);
    let height = read_be(bytes, 20);
    assert(width * height <= 0xffff_ffff * 0xffff_ffff) by (nonlinear_arith)
        requires
            width <= 0xffff_ffff,
            height <= 0xffff_ffff,
    ;
    if width == 0 || height == 0 || width * height > MAX_PIXELS {
        return false;
    }
    let mut at: usize = 33;
    let mut begun = false;
    while at < n
        invariant
            n == bytes@.len(),
            33 <= at <= n,
            picture_is_safe(bytes@) == chunks_are_plain(bytes@, 33, false),
            chunks_are_plain(bytes@, 33, false) == chunks_are_plain(bytes@, at as int, begun),
        decreases n - at,
    {
        if n - at < 12 {
            return false;
        }
        let length = read_be(bytes, at);
        if length > (n - at - 12) as u64 {
            return false;
        }
        if has_kind(bytes, at, 73, 72, 68, 82) || has_kind(bytes, at, 97, 99, 84, 76) || has_kind(
            bytes,
            at,
            102,
            99,
            84,
            76,
        ) || has_kind(bytes, at, 102, 100, 65, 84) {
            return false;
        }
        if begun && (has_kind(bytes, at, 80, 76, 84, 69) || has_kind(bytes, at, 116, 82, 78, 83)) {
            return false;
        }
        if has_kind(bytes, at, 73, 68, 65, 84) {
            begun = true;
        }
        at = at + 12 + length as usize;
    }
    true
}

/// What the bytes of an encoded image decode to as RGBA: width, height
/// and the bytes of the pixels; nothing where they cannot be decoded.
pub uninterp spec fn rgba_image(bytes: Seq<u8>) -> Option<(u32, u32, Seq<u8>)>;

/// Decodes an image with `image::load_from_memory` and turns it into RGBA
/// with `DynamicImage::to_rgba8`. The result depends on the bytes alone and
/// holds four bytes for each pixel.
///
/// The bytes must be safe (`picture_is_safe`). The decoder multiplies
/// the width of a picture by its height and sets memory aside for the
/// product without a check, and it takes the two from whichever header
/// or chunk of an animation came last; and it sets the length of a row
/// by the palette and the transparent colours that it has when the
/// bytes of the picture begin, and reads the rows by those that it has
/// then. That leaves out the PNG files that are not of the plain form.
#[verifier::external_body]
fn decode_rgba(bytes: &[u8]) -> (r: Result<Pixels, ImageError>)
    requires
        picture_is_safe(bytes@),
    ensures
        match r {
            Ok(p) => rgba_image(bytes@) == Some((p.width, p.height, p.data@)) && p.data@.len() == 4
                * p.width * p.height,
            Err(_) => rgba_image(bytes@) is None,
        },
{
    let picture = image::load_from_memory(bytes)?.to_rgba8();
    Ok(Pixels { width: picture.width(), height: picture.height(), data: picture.into_raw() })
}

/// Gives a decoded image its place on the atlas.
pub fn place_image(pixels: Pixels, texture_atlas: &mut TextureAtlas) -> (r: Result<
    LoadedImage,
    LoadError,
>)
    requires
        old(texture_atlas).wf(),
    ensures
        final(texture_atlas).wf(),
        final(texture_atlas).size() == old(texture_atlas).size(),
        match r {
            Ok(loaded) => {
                &&& loaded.pixels == pixels
                &&& crate::texture_atlas::placement(
                    old(texture_atlas).rects(),
                    old(texture_atlas).size().0 as int,
                    old(texture_atlas).size().1 as int,
                    pixels.width as int,
                    pixels.height as int,
                ) == Some((loaded.rect[0] as int, loaded.rect[1] as int))
                &&& loaded.rect[2] == loaded.rect[0] + pixels.width
                &&& loaded.rect[3] == loaded.rect[1] + pixels.height
                &&& final(texture_atlas).rects() == old(texture_atlas).rects().push(loaded.rect)
            },
            Err(e) => {
                &&& e == LoadError::AtlasFull
                &&& crate::texture_atlas::placement(
                    old(texture_atlas).rects(),
                    old(texture_atlas).size().0 as int,
                    old(texture_atlas).size().1 as int,
                    pixels.width as int,
                    pixels.height as int,
                ) is None
                &&& final(texture_atlas).rects() == old(texture_atlas).rects()
            },
        },
{
    match texture_atlas.add_texture((pixels.width, pixels.height)) {
        Ok(rect) => Ok(LoadedImage { rect, pixels }),
        Err(_) => Err(LoadError::AtlasFull),
    }
}

/// Decodes an image and gives it its place on the atlas. The caller
/// writes the pixels to the texture at the rectangle that comes back.
pub fn load_image(image_bytes: &[u8], texture_atlas: &mut TextureAtlas) -> (r: Result<
    LoadedImage,
    LoadError,
>)
    requires
        old(texture_atlas).wf(),
    ensures
        final(texture_atlas).wf(),
        final(texture_atlas).size() == old(texture_atlas).size(),
        match (if picture_is_safe(image_bytes@) {
            rgba_image(image_bytes@)
        } else {
            None
        }) {
            None => r == Err::<LoadedImage, LoadError>(LoadError::BadImage) && final(texture_atlas).rects() == old(texture_atlas).rects(),
            Some((width, height, data)) => match crate::texture_atlas::placement(
                old(texture_atlas).rects(),
                old(texture_atlas).size().0 as int,
                old(texture_atlas).size().1 as int,
                width as int,
                height as int,
            ) {
                None => r == Err::<LoadedImage, LoadError>(LoadError::AtlasFull) && final(texture_atlas).rects() == old(texture_atlas).rects(),
                Some((x, y)) => {
                    &&& r is Ok
                    &&& r->Ok_0.pixels.width == width
                    &&& r->Ok_0.pixels.height == height
                    &&& r->Ok_0.pixels.data@ == data
                    &&& r->Ok_0.rect[0] == x
                    &&& r->Ok_0.rect[1] == y
                    &&& r->Ok_0.rect[2] == x + width
                    &&& r->Ok_0.rect[3] == y + height
                    &&& final(texture_atlas).rects() == old(texture_atlas).rects().push(
                        r->Ok_0.rect,
                    )
                },
            },
        },
{
    if !check_picture(image_bytes) {
        return Err(LoadError::BadImage);
    }
    match decode_rgba(image_bytes) {
        Ok(pixels) => place_image(pixels, texture_atlas),
        Err(_) => Err(LoadError::BadImage),
    }
}


/// Whether the room has something other than free space at `(x, y)`.
/// Beyond the grid it has walls.
pub open spec fn filled(room: Room, x: int, y: int) -> bool {
    room.tile(x, y) != Tile::Empty
}

/// Whether all eight cells around `(x, y)` are filled.
pub open spec fn enclosed(room: Room, x: int, y: int) -> bool {
    &&& filled(room, x - 1, y + 1)
    &&& filled(room, x, y + 1)
    &&& filled(room, x + 1, y + 1)
    &&& filled(room, x - 1, y)
    &&& filled(room, x + 1, y)
    &&& filled(room, x - 1, y - 1)
    &&& filled(room, x, y - 1)
    &&& filled(room, x + 1, y - 1)
}

/// Whether the pixel `(x, y)` of the rim of a room's picture is painted:
/// it lies beside a filled cell of the room's edge. The four corners of
/// the rim are never painted.
pub open spec fn rim_painted(room: Room, x: int, y: int) -> bool {
    ||| x == 0 && 1 <= y <= 15 && filled(room, 0, y - 1)
    ||| x == 16 && 1 <= y <= 15 && filled(room, 14, y - 1)
    ||| y == 0 && 1 <= x <= 15 && filled(room, x - 1, 0)
    ||| y == 16 && 1 <= x <= 15 && filled(room, x - 1, 14)
}

/// The colour of the pixel `(x, y)` of a room's picture, `y` counting up
/// from the lower side; nothing where the picture stays clear.
///
/// Pixel `(x, y)` with `x` and `y` from 1 to 15 shows the cell
/// `(x - 1, y - 1)`: free space in the background colour; a wall in the
/// inner colour where it is enclosed by filled cells, else in the border
/// colour; a portal in the border colour of the room behind it.
pub open spec fn block_pixel(
    room: Room,
    color: RoomColor,
    palette: Seq<RoomBlockColors>,
    x: int,
    y: int,
) -> Option<Rgb> {
    let colors = palette[color.ordinal()];
    if 1 <= x <= 15 && 1 <= y <= 15 {
        Some(
            match room.tile(x - 1, y - 1) {
                Tile::Empty => colors.background,
                Tile::Solid => if enclosed(room, x - 1, y - 1) {
                    colors.inner
                } else {
                    colors.border
                },
                Tile::Room(behind) => palette[behind.ordinal()].border,
            },
        )
    } else if rim_painted(room, x, y) {
        Some(colors.outer_border)
    } else {
        None
    }
}

/// Byte `i` of a room's picture: the rows from the top down, four bytes
/// for each pixel, a painted pixel opaque and a clear one all zero.
pub open spec fn block_byte(
    room: Room,
    color: RoomColor,
    palette: Seq<RoomBlockColors>,
    i: int,
) -> u8 {
    let pixel = i / 4;
    match block_pixel(room, color, palette, pixel % 17, 16 - pixel / 17) {
        Some(rgb) => if i % 4 == 0 {
            rgb.0
        } else if i % 4 == 1 {
            rgb.1
        } else if i % 4 == 2 {
            rgb.2
        } else {
            255
        },
        None => 0,
    }
}

/// The picture of a room, as the bytes of its pixels.
pub open spec fn block_image(room: Room, color: RoomColor, palette: Seq<RoomBlockColors>) -> Seq<
    u8,
> {
    Seq::new(ROOM_BLOCK_IMAGE_BYTES as nat, |i: int| block_byte(room, color, palette, i))
}

/// Tests whether the room has something other than free space at `(x, y)`.
fn is_filled(room: &Room, x: i64, y: i64) -> (b: bool)
    ensures
        b == filled(*room, x as int, y as int),
{
    room.tile_at(x, y) != Tile::Empty
}

/// The colour of one pixel of a room's picture.
fn paint_pixel(room: &Room, color: RoomColor, palette: &Vec<RoomBlockColors>, x: i64, y: i64) -> (p:
    Option<Rgb>)
    requires
        palette@.len() == ROOM_COUNT,
        0 <= x <= 16,
        0 <= y <= 16,
    ensures
        p == block_pixel(*room, color, palette@, x as int, y as int),
{
    let colors = palette[color.index()];
    if 1 <= x && x <= 15 && 1 <= y && y <= 15 {
        let cx = x - 1;
        let cy = y - 1;
        Some(
            match room.tile_at(cx, cy) {
                Tile::Empty => colors.background,
                Tile::Solid => {
                    if is_filled(room, cx - 1, cy + 1) && is_filled(room, cx, cy + 1) && is_filled(
                        room,
                        cx + 1,
                        cy + 1,
                    ) && is_filled(room, cx - 1, cy) && is_filled(room, cx + 1, cy) && is_filled(
                        room,
                        cx - 1,
                        cy - 1,
                    ) && is_filled(room, cx, cy - 1) && is_filled(room, cx + 1, cy - 1) {
                        colors.inner
                    } else {
                        colors.border
                    }
                },
                Tile::Room(behind) => palette[behind.index()].border,
            },
        )
    } else if (x == 0 && 1 <= y && y <= 15 && is_filled(room, 0, y - 1)) || (x == 16 && 1 <= y
        && y <= 15 && is_filled(room, 14, y - 1)) || (y == 0 && 1 <= x && x <= 15 && is_filled(
        room,
        x - 1,
        0,
    )) || (y == 16 && 1 <= x && x <= 15 && is_filled(room, x - 1, 14)) {
        Some(colors.outer_border)
    } else {
        None
    }
}

/// Paints the small picture of a room that shows inside the portals to
/// it: one pixel for every cell, and a rim around them that is painted
/// where the room's edge is filled. `palette` holds the colours of every
/// room, by the ordinal of its colour.
pub fn create_room_block(room: &Room, color: RoomColor, palette: &Vec<RoomBlockColors>) -> (image:
    Vec<u8>)
    requires
        palette@.len() == ROOM_COUNT,
    ensures
        image@ == block_image(*room, color, palette@),
{
    let mut image: Vec<u8> = Vec::new();
    let ghost goal = block_image(*room, color, palette@);
    let mut pixel: i64 = 0;
    while pixel < 289
        invariant
            palette@.len() == ROOM_COUNT,
            0 <= pixel <= 289,
            goal == block_image(*room, color, palette@),
            image@ == goal.take(4 * pixel),
        decreases 289 - pixel,
    {
        let x = pixel % 17;
        let y = 16 - pixel / 17;
        let painted = paint_pixel(room, color, palette, x, y);
        let (r, g, b, a): (u8, u8, u8, u8) = match painted {
            Some(rgb) => (rgb.0, rgb.1, rgb.2, 255),
            None => (0, 0, 0, 0),
        };
        proof {
            let i: int = 4 * pixel;
            assert(i / 4 == pixel && (i + 1) / 4 == pixel && (i + 2) / 4 == pixel && (i + 3) / 4
                == pixel);
            assert(goal[i] == r && goal[i + 1] == g && goal[i + 2] == b && goal[i + 3] == a);
        }
        image.push(r);
        image.push(g);
        image.push(b);
        image.push(a);
        proof {
            assert(image@ =~= goal.take(4 * (pixel + 1)));
        }
        pixel = pixel + 1;
    }
    assert(goal.take(1156) =~= goal);
    image
}


/// A sprite sheet cut into frames of equal width.
#[derive(Clone, Debug)]
pub struct Sprite {
    frames: Vec<TextureRect>,
}

/// Frame `i` of a sheet that is cut into `frame_count` frames.
pub open spec fn frame_rect(image: TextureRect, frame_count: u32, i: int) -> TextureRect {
    let frame_width = (image[2] - image[0]) / (frame_count as int);
    [
        (image[0] + i * frame_width) as u32,
        image[1],
        (image[0] + (i + 1) * frame_width) as u32,
        image[3],
    ]
}

impl Sprite {
    /// The frames of the sprite, from the left of its sheet.
    pub closed spec fn frames(&self) -> Seq<TextureRect> {
        self.frames@
    }

    /// Cuts the sheet `image` into `frame_count` frames of equal width,
    /// from the left. Pixels that are left over on the right belong to no
    /// frame.
    pub fn new(image: TextureRect, frame_count: u32) -> (sprite: Sprite)
        requires
            frame_count > 0,
            image[0] <= image[2],
        ensures
            sprite.frames().len() == frame_count,
            forall|i: int|
                0 <= i < frame_count ==> #[trigger] sprite.frames()[i] == frame_rect(
                    image,
                    frame_count,
                    i,
                ),
    {
        let width = image[2] - image[0];
        let frame_width = width / frame_count;
        let mut frames: Vec<TextureRect> = Vec::new();
        let mut i: u32 = 0;
        proof {
            vstd::arithmetic::div_mod::lemma_fundamental_div_mod(
                width as int,
                frame_count as int,
            );
        }
        while i < frame_count
            invariant
                i <= frame_count,
                image[0] <= image[2],
                width == image[2] - image[0],
                frame_width == width as int / frame_count as int,
                frame_count * frame_width <= width,
                frames@.len() == i,
                forall|j: int|
                    0 <= j < i ==> #[trigger] frames@[j] == frame_rect(image, frame_count, j),
            decreases frame_count - i,
        {
            proof {
                assert((i + 1) * frame_width <= frame_count * frame_width) by (nonlinear_arith)
                    requires
                        i + 1 <= frame_count,
                        0 <= frame_width,
                ;
                assert(0 <= i * frame_width <= (i + 1) * frame_width) by (nonlinear_arith)
                    requires
                        0 <= i,
                        0 <= frame_width,
                ;
            }
            let frame: TextureRect = [
                image[0] + i * frame_width,
                image[1],
                image[0] + (i + 1) * frame_width,
                image[3],
            ];
            assert(frame =~= frame_rect(image, frame_count, i as int));
            frames.push(frame);
            i = i + 1;
        }
        Sprite { frames }
    }

    /// The number of frames.
    pub fn frame_count(&self) -> (n: usize)
        ensures
            n == self.frames().len(),
    {
        self.frames.len()
    }

    /// Frame `frame` of the sprite, if it has one.
    pub fn frame(&self, frame: usize) -> (r: Option<TextureRect>)
        ensures
            r == if frame < self.frames().len() {
                Some(self.frames()[frame as int])
            } else {
                None
            },
    {
        if frame < self.frames.len() {
            Some(self.frames[frame])
        } else {
            None
        }
    }
}

/// A quarter of a wall tile.
#[derive(Clone, Copy, Debug, PartialEq, Eq, Structural)]
pub enum Quarter {
    TopLeft,
    TopRight,
    BottomLeft,
    BottomRight,
}

/// How a quarter of a wall tile is drawn, by the walls around it.
#[derive(Clone, Copy, Debug, PartialEq, Eq, Structural)]
pub enum Piece {
    /// No wall on either side: the corner of a block.
    OuterCorner,
    /// A wall beside it, none above or below: a horizontal edge.
    Horz,
    /// A wall above or below it, none beside: a vertical edge.
    Vert,
    /// Walls on both sides, none across the corner: a notch.
    InnerCorner,
    /// Walls all around.
    Solid,
}

/// The pieces of a wall tile on the sheet of tile images.
#[derive(Clone, Copy, Debug, PartialEq, Eq)]
pub struct TileImages {
    sheet: TextureRect,
}

/// A textured rectangle of a room.
#[derive(Clone, Copy, Debug, PartialEq, Eq)]
pub struct Quad {
    /// Where the quad lies in the room.
    pub area: Rect,
    /// What it shows of the atlas.
    pub texture: TextureRect,
    /// Whether it is tinted in the inner colour of the room; else it
    /// shows the texture as it is.
    pub tinted: bool,
}

/// The piece for a quarter: `beside` and `upright` tell whether the tiles
/// next to the quarter, sideways and up or down, are walls, and `across`
/// whether the tile across its corner is one.
pub open spec fn piece_for(across: bool, upright: bool, beside: bool) -> Piece {
    if !across && upright && beside {
        Piece::InnerCorner
    } else if !beside && !upright {
        Piece::OuterCorner
    } else if beside && !upright {
        Piece::Horz
    } else if !beside && upright {
        Piece::Vert
    } else {
        Piece::Solid
    }
}

/// Whether the room has a wall at `(x, y)`.
pub open spec fn walled(room: Room, x: int, y: int) -> bool {
    room.tile(x, y) == Tile::Solid
}

/// The piece that shows a quarter of the wall tile at `(x, y)`.
pub open spec fn piece_at(room: Room, x: int, y: int, quarter: Quarter) -> Piece {
    match quarter {
        Quarter::TopLeft => piece_for(
            walled(room, x - 1, y + 1),
            walled(room, x, y + 1),
            walled(room, x - 1, y),
        ),
        Quarter::TopRight => piece_for(
            walled(room, x + 1, y + 1),
            walled(room, x, y + 1),
            walled(room, x + 1, y),
        ),
        Quarter::BottomLeft => piece_for(
            walled(room, x - 1, y - 1),
            walled(room, x, y - 1),
            walled(room, x - 1, y),
        ),
        Quarter::BottomRight => piece_for(
            walled(room, x + 1, y - 1),
            walled(room, x, y - 1),
            walled(room, x + 1, y),
        ),
    }
}

/// Where a quarter of the tile at `(x, y)` lies: the tile is split eight
/// pixels from its left and seven from its lower side.
pub open spec fn quarter_area(x: int, y: int, quarter: Quarter) -> Rect {
    let left = x * UNIT;
    let low = y * UNIT;
    let mid_x = left + 8 * PIXEL;
    let mid_y = low + 7 * PIXEL;
    let right = left + UNIT;
    let high = low + UNIT;
    match quarter {
        Quarter::TopLeft => Rect {
            min: Vec2 { x: left as i64, y: mid_y as i64 },
            max: Vec2 { x: mid_x as i64, y: high as i64 },
        },
        Quarter::TopRight => Rect {
            min: Vec2 { x: mid_x as i64, y: mid_y as i64 },
            max: Vec2 { x: right as i64, y: high as i64 },
        },
        Quarter::BottomLeft => Rect {
            min: Vec2 { x: left as i64, y: low as i64 },
            max: Vec2 { x: mid_x as i64, y: mid_y as i64 },
        },
        Quarter::BottomRight => Rect {
            min: Vec2 { x: mid_x as i64, y: low as i64 },
            max: Vec2 { x: right as i64, y: mid_y as i64 },
        },
    }
}

/// Where the picture of the room behind a portal at `(x, y)` lies: on the
/// portal's cell and one pixel beyond it on every side.
pub open spec fn portal_area(x: int, y: int) -> Rect {
    Rect {
        min: Vec2 { x: (x * UNIT - PIXEL) as i64, y: (y * UNIT - PIXEL) as i64 },
        max: Vec2 { x: ((x + 1) * UNIT + PIXEL) as i64, y: ((y + 1) * UNIT + PIXEL) as i64 },
    }
}

/// The column of the sheet in which a piece stands.
pub open spec fn piece_column(piece: Piece) -> int {
    match piece {
        Piece::OuterCorner => 0,
        Piece::Horz => 1,
        Piece::Vert => 2,
        Piece::InnerCorner => 3,
        Piece::Solid => 4,
    }
}

/// The rectangle of a piece on a sheet that starts at `(left, top)`: the
/// pieces stand side by side, fifteen pixels apart, each split into its
/// quarters eight pixels from the left and eight from the top.
pub open spec fn piece_rect(sheet: TextureRect, quarter: Quarter, piece: Piece) -> TextureRect {
    let left = sheet[0] + 15 * piece_column(piece);
    let top = sheet[1] as int;
    match quarter {
        Quarter::TopLeft => [left as u32, top as u32, (left + 8) as u32, (top + 8) as u32],
        Quarter::TopRight => [
            (left + 8) as u32,
            top as u32,
            (left + 15) as u32,
            (top + 8) as u32,
        ],
        Quarter::BottomLeft => [
            left as u32,
            (top + 8) as u32,
            (left + 8) as u32,
            (top + 15) as u32,
        ],
        Quarter::BottomRight => [
            (left + 8) as u32,
            (top + 8) as u32,
            (left + 15) as u32,
            (top + 15) as u32,
        ],
    }
}

impl TileImages {
    /// The rectangle of the whole sheet on the atlas.
    pub closed spec fn sheet(&self) -> TextureRect {
        self.sheet
    }

    /// The sheet lies where its 75 by 15 pixels fit into the machine's numbers.
    pub open spec fn wf(&self) -> bool {
        self.sheet()[0] + 75 <= u32::MAX && self.sheet()[1] + 15 <= u32::MAX
    }

    /// The tile images of a sheet at `tex` on the atlas.
    pub fn new(tex: TextureRect) -> (images: TileImages)
        requires
            tex[0] + 75 <= u32::MAX,
            tex[1] + 15 <= u32::MAX,
        ensures
            images.wf(),
            images.sheet() == tex,
    {
        TileImages { sheet: tex }
    }

    /// The rectangle of a piece of a quarter on the atlas.
    pub fn rect(&self, quarter: Quarter, piece: Piece) -> (r: TextureRect)
        requires
            self.wf(),
        ensures
            r == piece_rect(self.sheet(), quarter, piece),
    {
        let column: u32 = match piece {
            Piece::OuterCorner => 0,
            Piece::Horz => 1,
            Piece::Vert => 2,
            Piece::InnerCorner => 3,
            Piece::Solid => 4,
        };
        let left = self.sheet[0] + 15 * column;
        let top = self.sheet[1];
        let r: TextureRect = match quarter {
            Quarter::TopLeft => [left, top, left + 8, top + 8],
            Quarter::TopRight => [left + 8, top, left + 15, top + 8],
            Quarter::BottomLeft => [left, top + 8, left + 8, top + 15],
            Quarter::BottomRight => [left + 8, top + 8, left + 15, top + 15],
        };
        assert(r =~= piece_rect(self.sheet(), quarter, piece));
        r
    }
}

/// The quad of one quarter of the wall tile at `(x, y)`.
pub open spec fn quarter_quad(room: Room, sheet: TextureRect, x: int, y: int, quarter: Quarter) -> Quad {
    Quad {
        area: quarter_area(x, y, quarter),
        texture: piece_rect(sheet, quarter, piece_at(room, x, y, quarter)),
        tinted: true,
    }
}

/// The quads of the cell `cell` of the grid: the four quarters of a wall,
/// top left, top right, bottom left, bottom right; nothing else.
pub open spec fn wall_quads(room: Room, sheet: TextureRect, cell: int) -> Seq<Quad> {
    let x = cell % 15;
    let y = cell / 15;
    if room.tile(x, y) == Tile::Solid {
        seq![
            quarter_quad(room, sheet, x, y, Quarter::TopLeft),
            quarter_quad(room, sheet, x, y, Quarter::TopRight),
            quarter_quad(room, sheet, x, y, Quarter::BottomLeft),
            quarter_quad(room, sheet, x, y, Quarter::BottomRight),
        ]
    } else {
        Seq::empty()
    }
}

/// The quads of the walls among the first `cells` cells of the grid.
pub open spec fn walls_upto(room: Room, sheet: TextureRect, cells: nat) -> Seq<Quad>
    decreases cells,
{
    if cells == 0 {
        Seq::empty()
    } else {
        walls_upto(room, sheet, (cells - 1) as nat) + wall_quads(room, sheet, cells - 1)
    }
}

/// The quads of the portals among the first `cells` cells of the grid:
/// for each the picture of the room behind it.
pub open spec fn portals_upto(room: Room, blocks: Seq<TextureRect>, cells: nat) -> Seq<Quad>
    decreases cells,
{
    if cells == 0 {
        Seq::empty()
    } else {
        let before = portals_upto(room, blocks, (cells - 1) as nat);
        let x = (cells - 1) % 15;
        let y = (cells - 1) / 15;
        match room.tile(x, y) {
            Tile::Room(behind) => before.push(
                Quad { area: portal_area(x, y), texture: blocks[behind.ordinal()], tinted: false },
            ),
            _ => before,
        }
    }
}

/// All quads of a room: the walls first, then the portals on top of them.
pub open spec fn room_quads(room: Room, sheet: TextureRect, blocks: Seq<TextureRect>) -> Seq<Quad> {
    walls_upto(room, sheet, ROOM_CELLS as nat) + portals_upto(room, blocks, ROOM_CELLS as nat)
}

/// Tests whether the room has a wall at `(x, y)`.
fn is_wall(room: &Room, x: i64, y: i64) -> (b: bool)
    ensures
        b == walled(*room, x as int, y as int),
{
    room.tile_at(x, y) == Tile::Solid
}

/// Picks the piece for a quarter.
pub fn choose_piece(across: bool, upright: bool, beside: bool) -> (p: Piece)
    ensures
        p == piece_for(across, upright, beside),
{
    if !across && upright && beside {
        Piece::InnerCorner
    } else if !beside && !upright {
        Piece::OuterCorner
    } else if beside && !upright {
        Piece::Horz
    } else if !beside && upright {
        Piece::Vert
    } else {
        Piece::Solid
    }
}

/// Lays out the quads that draw a room: four for every wall, picked by
/// the walls around it, then one for every portal. `room_block_textures`
/// holds the picture of every room on the atlas, by the ordinal of its
/// colour.
pub fn build_room_vertex_buffer(
    room_block_textures: &Vec<TextureRect>,
    room: &Room,
    tile_images: &TileImages,
) -> (quads: Vec<Quad>)
    requires
        room_block_textures@.len() == ROOM_COUNT,
        tile_images.wf(),
    ensures
        quads@ == room_quads(*room, tile_images.sheet(), room_block_textures@),
{
    let ghost sheet = tile_images.sheet();
    let mut quads: Vec<Quad> = Vec::new();
    let mut cell: i64 = 0;
    while cell < 225
        invariant
            0 <= cell <= 225,
            tile_images.wf(),
            sheet == tile_images.sheet(),
            quads@ == walls_upto(*room, sheet, cell as nat),
        decreases 225 - cell,
    {
        let x = cell % 15;
        let y = cell / 15;
        let ghost before = quads@;
        if room.tile_at(x, y) == Tile::Solid {
            let tl = is_wall(room, x - 1, y + 1);
            let t = is_wall(room, x, y + 1);
            let tr = is_wall(room, x + 1, y + 1);
            let l = is_wall(room, x - 1, y);
            let r = is_wall(room, x + 1, y);
            let bl = is_wall(room, x - 1, y - 1);
            let b = is_wall(room, x, y - 1);
            let br = is_wall(room, x + 1, y - 1);
            let left = x * UNIT;
            let low = y * UNIT;
            let mid_x = left + 8 * PIXEL;
            let mid_y = low + 7 * PIXEL;
            let right = left + UNIT;
            let high = low + UNIT;
            quads.push(
                Quad {
                    area: Rect { min: Vec2 { x: left, y: mid_y }, max: Vec2 { x: mid_x, y: high } },
                    texture: tile_images.rect(Quarter::TopLeft, choose_piece(tl, t, l)),
                    tinted: true,
                },
            );
            quads.push(
                Quad {
                    area: Rect { min: Vec2 { x: mid_x, y: mid_y }, max: Vec2 { x: right, y: high } },
                    texture: tile_images.rect(Quarter::TopRight, choose_piece(tr, t, r)),
                    tinted: true,
                },
            );
            quads.push(
                Quad {
                    area: Rect { min: Vec2 { x: left, y: low }, max: Vec2 { x: mid_x, y: mid_y } },
                    texture: tile_images.rect(Quarter::BottomLeft, choose_piece(bl, b, l)),
                    tinted: true,
                },
            );
            quads.push(
                Quad {
                    area: Rect { min: Vec2 { x: mid_x, y: low }, max: Vec2 { x: right, y: mid_y } },
                    texture: tile_images.rect(Quarter::BottomRight, choose_piece(br, b, r)),
                    tinted: true,
                },
            );
            assert(quads@ =~= before + wall_quads(*room, sheet, cell as int));
        } else {
            assert(quads@ =~= before + wall_quads(*room, sheet, cell as int));
        }
        cell = cell + 1;
    }
    let ghost walls = quads@;
    let mut cell: i64 = 0;
    while cell < 225
        invariant
            0 <= cell <= 225,
            room_block_textures@.len() == ROOM_COUNT,
            quads@ == walls + portals_upto(*room, room_block_textures@, cell as nat),
        decreases 225 - cell,
    {
        let x = cell % 15;
        let y = cell / 15;
        let ghost before = quads@;
        match room.tile_at(x, y) {
            Tile::Room(behind) => {
                quads.push(
                    Quad {
                        area: Rect {
                            min: Vec2 { x: x * UNIT - PIXEL, y: y * UNIT - PIXEL },
                            max: Vec2 { x: (x + 1) * UNIT + PIXEL, y: (y + 1) * UNIT + PIXEL },
                        },
                        texture: room_block_textures[behind.index()],
                        tinted: false,
                    },
                );
                assert(quads@ =~= walls + portals_upto(
                    *room,
                    room_block_textures@,
                    (cell + 1) as nat,
                ));
            },
            _ => {},
        }
        cell = cell + 1;
    }
    quads
}

} // verus!
