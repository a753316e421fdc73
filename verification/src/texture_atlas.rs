//! A texture atlas: places rectangles on one large texture, each with a
//! margin of one pixel around it.

use vstd::prelude::*;

verus! {

/// A rectangle of the atlas: left, bottom, right and top edge, in pixels.
pub type TextureRect = [u32; 4];

/// The atlas has no free place for a texture.
#[derive(Clone, Copy, Debug, PartialEq, Eq, Structural)]
pub enum AtlasError {
    Overflow,
}

/// The rectangles that were placed on a texture of a fixed size.
#[derive(Debug)]
pub struct TextureAtlas {
    size: (u32, u32),
    texture_rects: Vec<TextureRect>,
}

/// Whether the rectangle `t` is in the way of a texture of `w` by `h`
/// pixels at `(x, y)` with its margin. A rectangle that lies to the right
/// is in the way as well: the search only ever moves to the right.
pub open spec fn blocks(x: int, y: int, w: int, h: int, t: TextureRect) -> bool {
    !(x - 1 >= t[2] || t[2] <= t[0] || y - 1 >= t[3] || y + h + 1 <= t[1])
}

/// Whether the rectangle `r` keeps clear of the rectangle `t` that was
/// placed before it: `t` is empty, or `r` lies a pixel or more to the
/// right of it, above it or below it.
pub open spec fn clear_of(r: TextureRect, t: TextureRect) -> bool {
    !blocks(r[0] as int, r[1] as int, r[2] - r[0], r[3] - r[1], t)
}

/// Whether any of the rectangles is in the way at `(x, y)`.
pub open spec fn blocked(rects: Seq<TextureRect>, x: int, y: int, w: int, h: int) -> bool {
    exists|i: int| 0 <= i < rects.len() && blocks(x, y, w, h, #[trigger] rects[i])
}

/// The column just right of every rectangle that is in the way at `(x, y)`;
/// `x` if none is.
pub open spec fn past(rects: Seq<TextureRect>, x: int, y: int, w: int, h: int) -> int
    decreases rects.len(),
{
    if rects.len() == 0 {
        x
    } else {
        let m = past(rects.drop_last(), x, y, w, h);
        let t = rects.last();
        if blocks(x, y, w, h, t) && t[2] + 1 > m {
            t[2] + 1
        } else {
            m
        }
    }
}

/// The row just above the lowest upper edge among the rectangles that are
/// in the way at `(x, y)`, if that is below `above`; else `above`.
pub open spec fn beneath(
    rects: Seq<TextureRect>,
    x: int,
    y: int,
    w: int,
    h: int,
    above: int,
) -> int
    decreases rects.len(),
{
    if rects.len() == 0 {
        above
    } else {
        let m = beneath(rects.drop_last(), x, y, w, h, above);
        let t = rects.last();
        if blocks(x, y, w, h, t) && t[3] + 1 < m {
            t[3] + 1
        } else {
            m
        }
    }
}

/// What the search finds in row `y` from column `x` on: the first free
/// column, or none; and the row at which the search goes on, which starts
/// as `above` and sinks to just above the lowest rectangle that was in the way.
pub open spec fn row_search(
    rects: Seq<TextureRect>,
    width: int,
    x: int,
    y: int,
    w: int,
    h: int,
    above: int,
) -> (Option<int>, int)
    decreases
        (if width - w > x {
            width - w - x
        } else {
            0
        }),
{
    if x >= width - w {
        (None, above)
    } else if !blocked(rects, x, y, w, h) {
        (Some(x), above)
    } else {
        let next = past(rects, x, y, w, h);
        row_search(
            rects,
            width,
            if next > x {
                next
            } else {
                x + 1
            },
            y,
            w,
            h,
            beneath(rects, x, y, w, h, above),
        )
    }
}

/// Where the search from row `y` on places a texture of `w` by `h`
/// pixels, if anywhere. Every row is searched from column 1.
pub open spec fn search(
    rects: Seq<TextureRect>,
    width: int,
    height: int,
    y: int,
    w: int,
    h: int,
) -> Option<(int, int)>
    decreases
        (if height - h > y {
            height - h - y
        } else {
            0
        }),
{
    if y >= height - h {
        None
    } else {
        let row = row_search(rects, width, 1, y, w, h, height);
        match row.0 {
            Some(x) => Some((x, y)),
            None => search(
                rects,
                width,
                height,
                if row.1 > y {
                    row.1
                } else {
                    y + 1
                },
                w,
                h,
            ),
        }
    }
}

/// Where a texture of `w` by `h` pixels is placed on an atlas of `width`
/// by `height` pixels that holds `rects`, if anywhere.
pub open spec fn placement(rects: Seq<TextureRect>, width: int, height: int, w: int, h: int) -> Option<
    (int, int),
> {
    search(rects, width, height, 1, w, h)
}

/// A place on the atlas: the lower left corner of a texture.
struct Place {
    x: u32,
    y: u32,
}

/// What one pass over the rectangles finds for a place.
struct Sweep {
    any: bool,
    next_x: u32,
    next_y: u32,
}

impl TextureAtlas {
    /// Width and height of the atlas.
    pub closed spec fn size(&self) -> (u32, u32) {
        self.size
    }

    /// The rectangles placed so far, in the order of their placing.
    pub closed spec fn rects(&self) -> Seq<TextureRect> {
        self.texture_rects@
    }

    /// Every rectangle lies inside the atlas, off its border, and keeps
    /// clear of every rectangle placed before it. This holds of a new
    /// atlas, and placing a texture keeps it.
    pub open spec fn wf(&self) -> bool {
        &&& forall|i: int|
            0 <= i < self.rects().len() ==> {
                &&& 1 <= (#[trigger] self.rects()[i])[0] <= self.rects()[i][2] < self.size().0
                &&& 1 <= self.rects()[i][1] <= self.rects()[i][3] < self.size().1
            }
        &&& forall|i: int, j: int|
            0 <= i < j < self.rects().len() ==> clear_of(
                #[trigger] self.rects()[j],
                #[trigger] self.rects()[i],
            )
    }

    /// An empty atlas of the given width and height.
    pub fn new(size: (u32, u32)) -> (atlas: TextureAtlas)
        ensures
            atlas.wf(),
            atlas.size() == size,
            atlas.rects() == Seq::<TextureRect>::empty(),
    {
        TextureAtlas { size: size, texture_rects: Vec::new() }
    }

    /// One pass over the rectangles for the place `(x, y)`.
    fn sweep(&self, x: u32, y: u32, w: u32, h: u32, above: u32) -> (s: Sweep)
        requires
            self.wf(),
            1 <= x,
            x + w < self.size().0,
            1 <= y,
            y + h < self.size().1,
            above <= self.size().1,
        ensures
            s.any == blocked(self.rects(), x as int, y as int, w as int, h as int),
            s.next_x == past(self.rects(), x as int, y as int, w as int, h as int),
            s.next_y == beneath(
                self.rects(),
                x as int,
                y as int,
                w as int,
                h as int,
                above as int,
            ),
            s.any ==> s.next_x > x,
            !s.any ==> s.next_x == x,
            s.next_x <= self.size().0,
            y < above ==> y < s.next_y <= above,
    {
        let mut s = Sweep { any: false, next_x: x, next_y: above };
        let mut k: usize = 0;
        while k < self.texture_rects.len()
            invariant
                self.wf(),
                k <= self.rects().len(),
                1 <= x,
                x + w < self.size().0,
                1 <= y,
                y + h < self.size().1,
                above <= self.size().1,
                s.any == blocked(
                    self.rects().take(k as int),
                    x as int,
                    y as int,
                    w as int,
                    h as int,
                ),
                s.next_x == past(
                    self.rects().take(k as int),
                    x as int,
                    y as int,
                    w as int,
                    h as int,
                ),
                s.next_y == beneath(
                    self.rects().take(k as int),
                    x as int,
                    y as int,
                    w as int,
                    h as int,
                    above as int,
                ),
                s.any ==> s.next_x > x,
                !s.any ==> s.next_x == x,
                s.next_x <= self.size().0,
                y < above ==> y < s.next_y <= above,
                s.next_y <= above,
            decreases self.rects().len() - k,
        {
            let t = self.texture_rects[k];
            let ghost sofar = self.rects().take(k as int);
            let ghost more = self.rects().take(k + 1);
            proof {
                assert(more.drop_last() =~= sofar);
                assert(more.last() == t);
                assert(t == self.rects()[k as int]);
            }
            let hit = !(x - 1 >= t[2] || t[2] <= t[0] || y - 1 >= t[3] || y + h + 1 <= t[1]);
            assert(hit == blocks(x as int, y as int, w as int, h as int, t));
            if hit {
                if t[3] + 1 < s.next_y {
                    s.next_y = t[3] + 1;
                }
                if t[2] + 1 > s.next_x {
                    s.next_x = t[2] + 1;
                }
                s.any = true;
            }
            proof {
                if blocked(sofar, x as int, y as int, w as int, h as int) {
                    let i = choose|i: int|
                        0 <= i < sofar.len() && blocks(
                            x as int,
                            y as int,
                            w as int,
                            h as int,
                            #[trigger] sofar[i],
                        );
                    assert(more[i] == sofar[i]);
                }
                if hit {
                    assert(blocks(x as int, y as int, w as int, h as int, more[k as int]));
                }
                if blocked(more, x as int, y as int, w as int, h as int) && !hit {
                    let i = choose|i: int|
                        0 <= i < more.len() && blocks(
                            x as int,
                            y as int,
                            w as int,
                            h as int,
                            #[trigger] more[i],
                        );
                    assert(sofar[i] == more[i]);
                }
            }
            k = k + 1;
        }
        assert(self.rects().take(k as int) =~= self.rects());
        s
    }

    /// Places a texture of the given width and height and returns its
    /// rectangle.
    ///
    /// The search runs row by row from the lower left corner. In a row it
    /// moves right past every rectangle that is in the way; when the row
    /// is used up it goes on just above the lowest rectangle that was in
    /// the way. The rectangle that it finds keeps a margin of one pixel to
    /// the border of the atlas and to every rectangle of some width that
    /// was placed before. A rectangle without width is in nobody's way,
    /// so a texture may come to lie across it.
    pub fn add_texture(&mut self, size: (u32, u32)) -> (r: Result<TextureRect, AtlasError>)
        requires
            old(self).wf(),
        ensures
            final(self).wf(),
            final(self).size() == old(self).size(),
            match r {
                Ok(rect) => {
                    &&& placement(
                        old(self).rects(),
                        old(self).size().0 as int,
                        old(self).size().1 as int,
                        size.0 as int,
                        size.1 as int,
                    ) == Some((rect[0] as int, rect[1] as int))
                    &&& rect[2] == rect[0] + size.0
                    &&& rect[3] == rect[1] + size.1
                    &&& 1 <= rect[0] && rect[2] < old(self).size().0
                    &&& 1 <= rect[1] && rect[3] < old(self).size().1
                    &&& !blocked(
                        old(self).rects(),
                        rect[0] as int,
                        rect[1] as int,
                        size.0 as int,
                        size.1 as int,
                    )
                    &&& final(self).rects() == old(self).rects().push(rect)
                },
                Err(e) => {
                    &&& e == AtlasError::Overflow
                    &&& placement(
                        old(self).rects(),
                        old(self).size().0 as int,
                        old(self).size().1 as int,
                        size.0 as int,
                        size.1 as int,
                    ) is None
                    &&& final(self).rects() == old(self).rects()
                },
            },
    {
        let width = self.size.0;
        let height = self.size.1;
        let w = size.0;
        let h = size.1;
        let ghost rects = self.rects();
        let ghost goal = placement(rects, width as int, height as int, w as int, h as int);
        if h >= height || w >= width {
            proof {
                let first = row_search(
                    rects,
                    width as int,
                    1,
                    1,
                    w as int,
                    h as int,
                    height as int,
                );
                if h < height {
                    assert(first == (None::<int>, height as int));
                    assert(search(
                        rects,
                        width as int,
                        height as int,
                        height as int,
                        w as int,
                        h as int,
                    ) is None);
                }
                assert(goal is None);
            }
            return Err(AtlasError::Overflow);
        }
        let mut y: u32 = 1;
        let mut found: Option<Place> = None;
        while found.is_none() && y < height - h
            invariant
                self.wf(),
                self.rects() == rects,
                self.size() == (width, height),
                w < width,
                h < height,
                1 <= y,
                goal == placement(rects, width as int, height as int, w as int, h as int),
                found is None ==> goal == search(
                    rects,
                    width as int,
                    height as int,
                    y as int,
                    w as int,
                    h as int,
                ),
                found is Some ==> {
                    &&& goal == Some((found->0.x as int, found->0.y as int))
                    &&& 1 <= found->0.x && found->0.x + w < width
                    &&& 1 <= found->0.y && found->0.y + h < height
                    &&& !blocked(rects, found->0.x as int, found->0.y as int, w as int, h as int)
                },
            decreases (if found is None { 1int } else { 0int }), height - y,
        {
            let mut next_y: u32 = height;
            let mut x: u32 = 1;
            let ghost row = row_search(
                rects,
                width as int,
                1,
                y as int,
                w as int,
                h as int,
                height as int,
            );
            while found.is_none() && x < width - w
                invariant
                    self.wf(),
                    self.rects() == rects,
                    self.size() == (width, height),
                    w < width,
                    h < height,
                    1 <= x,
                    1 <= y < height - h,
                    y < next_y <= height,
                    found is None ==> row == row_search(
                        rects,
                        width as int,
                        x as int,
                        y as int,
                        w as int,
                        h as int,
                        next_y as int,
                    ),
                    found is Some ==> {
                        &&& row.0 == Some(found->0.x as int)
                        &&& found->0.y == y
                        &&& 1 <= found->0.x && found->0.x + w < width
                        &&& !blocked(rects, found->0.x as int, y as int, w as int, h as int)
                    },
                decreases (if found is None { 1int } else { 0int }), width - x,
            {
                let s = self.sweep(x, y, w, h, next_y);
                if !s.any {
                    found = Some(Place { x, y });
                } else {
                    x = s.next_x;
                    next_y = s.next_y;
                }
            }
            if found.is_none() {
                y = next_y;
            }
        }
        match found {
            Some(Place { x, y }) => {
                let rect: TextureRect = [x, y, x + w, y + h];
                self.texture_rects.push(rect);
                proof {
                    assert forall|i: int, j: int|
                        0 <= i < j < self.rects().len() implies clear_of(
                        #[trigger] self.rects()[j],
                        #[trigger] self.rects()[i],
                    ) by {
                        if j < rects.len() {
                            assert(self.rects()[j] == rects[j] && self.rects()[i] == rects[i]);
                        } else {
                            assert(self.rects()[j] == rect && self.rects()[i] == rects[i]);
                            assert(!blocks(x as int, y as int, w as int, h as int, rects[i]));
                        }
                    }
                }
                Ok(rect)
            },
            None => Err(AtlasError::Overflow),
        }
    }
}

} // verus!
