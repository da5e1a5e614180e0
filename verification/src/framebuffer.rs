use vstd::prelude::*;
use vstd::arithmetic::div_mod::lemma_fundamental_div_mod_converse;
use vstd::arithmetic::div_mod::lemma_fundamental_div_mod;

verus! {

/// What a drawing operation puts on each pixel: `Some(color)` where it
/// writes, `None` where it leaves the pixel alone.
pub type Ink = spec_fn(int, int) -> Option<[u8; 4]>;

/// Whether a surface of `width` by `height` pixels laid row by row over `len`
/// bytes, four bytes a pixel, has room for pixel `(x, y)`.
pub open spec fn holds_pixel(width: int, height: int, len: int, x: int, y: int) -> bool {
    &&& 0 <= x < width
    &&& 0 <= y < height
    &&& 4 * (y * width + x) + 3 < len
}

/// The bytes of a surface after `ink` was applied to `before`: every pixel
/// that the surface holds and the ink marks carries the ink's color, and every
/// other byte is as it was.
pub open spec fn painted(before: Seq<u8>, width: int, height: int, ink: Ink) -> Seq<u8> {
    Seq::new(
        before.len(),
        |b: int|
            {
                let x = (b / 4) % width;
                let y = (b / 4) / width;
                if holds_pixel(width, height, before.len() as int, x, y) && ink(x, y) is Some {
                    ink(x, y).unwrap()[b % 4]
                } else {
                    before[b]
                }
            },
    )
}

/// The ink of a single pixel.
pub open spec fn dot_ink(x: int, y: int, color: [u8; 4]) -> Ink {
    |px: int, py: int|
        if px == x && py == y {
            Some(color)
        } else {
            None
        }
}

/// The ink of an axis-aligned rectangle of one color.
pub open spec fn rect_ink(x: int, y: int, width: int, height: int, color: [u8; 4]) -> Ink {
    |px: int, py: int|
        if x <= px < x + width && y <= py < y + height {
            Some(color)
        } else {
            None
        }
}

/// `over` laid on top of `under`.
pub open spec fn layered(under: Ink, over: Ink) -> Ink {
    |px: int, py: int|
        if over(px, py) is Some {
            over(px, py)
        } else {
            under(px, py)
        }
}

/// What `painted` says of single pixels: a pixel that the surface holds has
/// the ink's color where the ink marks it and its bytes of before where the
/// ink does not.
pub proof fn lemma_painted_pixel(
    before: Seq<u8>,
    width: int,
    height: int,
    ink: Ink,
    x: int,
    y: int,
    channel: int,
)
    requires
        holds_pixel(width, height, before.len() as int, x, y),
        0 <= channel < 4,
    ensures
        painted(before, width, height, ink)[4 * (y * width + x) + channel] == (match ink(x, y) {
            Some(color) => color[channel],
            None => before[4 * (y * width + x) + channel],
        }),
{
    let b = 4 * (y * width + x) + channel;
    assert(0 <= y * width) by (nonlinear_arith)
        requires
            0 <= y,
            0 <= width,
    ;
    lemma_fundamental_div_mod_converse(y * width + x, width, y, x);
    assert(b / 4 == y * width + x);
    assert(b % 4 == channel);
}

/// Painting twice is painting once with the second ink laid over the first.
pub proof fn lemma_painted_twice(before: Seq<u8>, width: int, height: int, under: Ink, over: Ink)
    ensures
        painted(painted(before, width, height, under), width, height, over) == painted(
            before,
            width,
            height,
            layered(under, over),
        ),
{
    assert(painted(painted(before, width, height, under), width, height, over) =~= painted(
        before,
        width,
        height,
        layered(under, over),
    ));
}

/// Two inks that agree on every pixel of the surface paint the same.
pub proof fn lemma_painted_same(before: Seq<u8>, width: int, height: int, a: Ink, b: Ink)
    requires
        forall|x: int, y: int| 0 <= x < width && 0 <= y < height ==> #[trigger] a(x, y) == b(x, y),
    ensures
        painted(before, width, height, a) == painted(before, width, height, b),
{
    assert(painted(before, width, height, a) =~= painted(before, width, height, b));
}

/// An ink that marks no pixel of the surface leaves the bytes as they were.
pub proof fn lemma_painted_nothing(before: Seq<u8>, width: int, height: int, ink: Ink)
    requires
        forall|x: int, y: int| 0 <= x < width && 0 <= y < height ==> #[trigger] ink(x, y) is None,
    ensures
        painted(before, width, height, ink) == before,
{
    assert(painted(before, width, height, ink) =~= before);
}

/// The ink that marks every pixel with one color.
pub open spec fn flood_ink(color: [u8; 4]) -> Ink {
    |px: int, py: int| Some(color)
}

/// The inks of a sequence laid one over the other, the last on top.
pub open spec fn stacked(inks: Seq<Ink>) -> Ink
    decreases inks.len(),
{
    if inks.len() == 0 {
        |px: int, py: int| None
    } else {
        layered(stacked(inks.drop_last()), inks.last())
    }
}

/// Painting a stack of inks and then one more is painting the longer stack.
pub proof fn lemma_painted_stack_push(
    before: Seq<u8>,
    width: int,
    height: int,
    inks: Seq<Ink>,
    top: Ink,
)
    ensures
        painted(painted(before, width, height, stacked(inks)), width, height, top) == painted(
            before,
            width,
            height,
            stacked(inks.push(top)),
        ),
{
    let longer = inks.push(top);
    assert(longer.drop_last() =~= inks);
    assert(longer.last() == top);
    lemma_painted_twice(before, width, height, stacked(inks), top);
}

/// What gives each pixel its color.
pub type Tint = spec_fn(int, int) -> [u8; 4];

/// The ink of the pixels from column `x0` up to `x1` and from row `y0` up to
/// `y1`, each in the color that `tint` gives it.
pub open spec fn region_ink(x0: int, x1: int, y0: int, y1: int, tint: Tint) -> Ink {
    |px: int, py: int|
        if x0 <= px < x1 && y0 <= py < y1 {
            Some(tint(px, py))
        } else {
            None
        }
}

/// The part of a region that a row-by-row sweep has covered when it stands
/// at column `i` of row `j`: the rows from `y0` up to `j`, and row `j` up to
/// column `i`, between the columns `x0` and `x1`.
pub open spec fn sweep_ink(x0: int, x1: int, y0: int, j: int, i: int, tint: Tint) -> Ink {
    |px: int, py: int|
        if x0 <= px < x1 && (y0 <= py < j || (py == j && px < i)) {
            Some(tint(px, py))
        } else {
            None
        }
}

/// A sweep that has not begun has painted nothing.
pub proof fn lemma_sweep_begin(
    before: Seq<u8>,
    width: int,
    height: int,
    x0: int,
    x1: int,
    y0: int,
    tint: Tint,
)
    ensures
        painted(before, width, height, sweep_ink(x0, x1, y0, y0, x0, tint)) == before,
{
    lemma_painted_nothing(before, width, height, sweep_ink(x0, x1, y0, y0, x0, tint));
}

/// Painting the pixel at which a sweep stands moves the sweep one column on.
pub proof fn lemma_sweep_step(
    before: Seq<u8>,
    width: int,
    height: int,
    x0: int,
    x1: int,
    y0: int,
    j: int,
    i: int,
    tint: Tint,
)
    requires
        x0 <= i < x1,
        y0 <= j,
    ensures
        painted(
            painted(before, width, height, sweep_ink(x0, x1, y0, j, i, tint)),
            width,
            height,
            dot_ink(i, j, tint(i, j)),
        ) == painted(before, width, height, sweep_ink(x0, x1, y0, j, i + 1, tint)),
{
    let done = sweep_ink(x0, x1, y0, j, i, tint);
    let dot = dot_ink(i, j, tint(i, j));
    lemma_painted_twice(before, width, height, done, dot);
    lemma_painted_same(
        before,
        width,
        height,
        layered(done, dot),
        sweep_ink(x0, x1, y0, j, i + 1, tint),
    );
}

/// A sweep at the end of a row stands at the start of the next.
pub proof fn lemma_sweep_row(
    before: Seq<u8>,
    width: int,
    height: int,
    x0: int,
    x1: int,
    y0: int,
    j: int,
    tint: Tint,
)
    requires
        y0 <= j,
    ensures
        painted(before, width, height, sweep_ink(x0, x1, y0, j, x1, tint)) == painted(
            before,
            width,
            height,
            sweep_ink(x0, x1, y0, j + 1, x0, tint),
        ),
{
    lemma_painted_same(
        before,
        width,
        height,
        sweep_ink(x0, x1, y0, j, x1, tint),
        sweep_ink(x0, x1, y0, j + 1, x0, tint),
    );
}

/// A sweep past the last row has painted the region.
pub proof fn lemma_sweep_end(
    before: Seq<u8>,
    width: int,
    height: int,
    x0: int,
    x1: int,
    y0: int,
    y1: int,
    tint: Tint,
)
    ensures
        painted(before, width, height, sweep_ink(x0, x1, y0, y1, x0, tint)) == painted(
            before,
            width,
            height,
            region_ink(x0, x1, y0, y1, tint),
        ),
{
    lemma_painted_same(
        before,
        width,
        height,
        sweep_ink(x0, x1, y0, y1, x0, tint),
        region_ink(x0, x1, y0, y1, tint),
    );
}

/// The tint of one color everywhere.
pub open spec fn plain(color: [u8; 4]) -> Tint {
    |px: int, py: int| color
}

pub const SKY_COLOR: [u8; 4] = [163, 240, 255, 255];

pub const GROUND_COLOR: [u8; 4] = [34, 139, 34, 255];

/// The sky over the upper half of a surface of `height` rows and the ground
/// over as many rows below it.
pub open spec fn sky_and_ground_ink(width: int, height: int) -> Ink {
    layered(
        rect_ink(0, 0, width, height / 2, SKY_COLOR),
        rect_ink(0, height / 2, width, height / 2, GROUND_COLOR),
    )
}

/// One sample of a rasterized glyph: its place inside the glyph's bounding
/// box, the corner of that box on the surface, and how much of the pixel the
/// glyph covers.
#[derive(Clone, Copy, Debug)]
pub struct GlyphPixel {
    pub gx: u32,
    pub gy: u32,
    pub min_x: i32,
    pub min_y: i32,
    pub intensity: u8,
}

impl GlyphPixel {
    /// The ink of this sample on a surface of `width` by `height` pixels: a
    /// gray dot at its place, or nothing where it falls outside.
    pub open spec fn ink(self, width: int, height: int) -> Ink {
        let x = self.gx + self.min_x;
        let y = self.gy + self.min_y;
        if 0 <= x < width && 0 <= y < height {
            dot_ink(x, y, [self.intensity, self.intensity, self.intensity, 255u8])
        } else {
            |px: int, py: int| None
        }
    }
}

/// The inks of the first `n` samples of `glyphs`, in their order.
pub open spec fn glyph_inks(glyphs: Seq<GlyphPixel>, width: int, height: int, n: int) -> Seq<Ink> {
    Seq::new(n as nat, |k: int| glyphs[k].ink(width, height))
}

/// A pixel surface over a borrowed byte buffer: `width` by `height` pixels,
/// row by row, four bytes (red, green, blue, alpha) a pixel.
pub struct Framebuffer<'a> {
    pub width: usize,
    pub height: usize,
    pub buffer: &'a mut [u8],
}

impl<'a> Framebuffer<'a> {
    /// Whether the surface has room for pixel `(x, y)`.
    pub open spec fn holds(&self, x: int, y: int) -> bool {
        holds_pixel(self.width as int, self.height as int, self.buffer@.len() as int, x, y)
    }

    pub fn new(width: usize, height: usize, buffer: &'a mut [u8]) -> (fb: Self)
        ensures
            fb.width == width,
            fb.height == height,
            fb.buffer@ == old(buffer)@,
            final(fb.buffer)@ == final(buffer)@,
    {
        Self { width, height, buffer }
    }

    /// The byte offset of pixel `(x, y)` where the surface holds it.
    fn offset(&self, x: usize, y: usize) -> (r: Option<usize>)
        ensures
            r is Some <==> self.holds(x as int, y as int),
            r matches Some(i) ==> i == 4 * (y * self.width + x),
    {
        if x >= self.width || y >= self.height {
            return None;
        }
        let len = self.buffer.len();
        let row = match y.checked_mul(self.width) {
            Some(v) => v,
            None => { return None; },
        };
        let cell = match row.checked_add(x) {
            Some(v) => v,
            None => { return None; },
        };
        let index = match cell.checked_mul(4) {
            Some(v) => v,
            None => { return None; },
        };
        if index < len && len - index > 3 {
            Some(index)
        } else {
            None
        }
    }

    /// Sets pixel `(x, y)` to `color`; a pixel that the surface does not hold
    /// is ignored.
    pub fn point(&mut self, x: usize, y: usize, color: [u8; 4])
        ensures
            final(self).width == old(self).width,
            final(self).height == old(self).height,
            final(self).buffer@ == painted(
                old(self).buffer@,
                old(self).width as int,
                old(self).height as int,
                dot_ink(x as int, y as int, color),
            ),
            final(final(self).buffer)@ == final(old(self).buffer)@,
    {
        let ghost before = self.buffer@;
        let ghost w = self.width as int;
        let ghost h = self.height as int;
        let ghost ink = dot_ink(x as int, y as int, color);
        match self.offset(x, y) {
            Some(index) => {
                self.buffer[index] = color[0];
                self.buffer[index + 1] = color[1];
                self.buffer[index + 2] = color[2];
                self.buffer[index + 3] = color[3];
                proof {
                    let after = self.buffer@;
                    let target = painted(before, w, h, ink);
                    assert(after.len() == target.len());
                    assert forall|b: int| 0 <= b < after.len() implies after[b] == target[b] by {
                        let p = b / 4;
                        lemma_fundamental_div_mod(p, w);
                        lemma_fundamental_div_mod_converse(y * w + x, w, y as int, x as int);
                        if index <= b < index + 4 {
                            assert(p == y * w + x);
                            assert(b % 4 == b - index);
                        } else {
                            assert(p != y * w + x);
                            if p % w == x && p / w == y {
                                assert(w * (p / w) == (p / w) * w) by (nonlinear_arith);
                            }
                        }
                    }
                    assert(after =~= target);
                }
            },
            None => {
                proof {
                    let target = painted(before, w, h, ink);
                    assert forall|b: int| 0 <= b < before.len() implies before[b] == target[b] by {
                        let p = b / 4;
                        if w > 0 && p % w == x && p / w == y {
                            lemma_fundamental_div_mod(p, w);
                            assert(w * (p / w) == (p / w) * w) by (nonlinear_arith);
                            assert(p == y * w + x);
                        }
                    }
                    assert(before =~= target);
                }
            },
        }
    }

    /// Sets every pixel of the surface to `color`.
    pub fn clear(&mut self, color: [u8; 4])
        ensures
            final(self).width == old(self).width,
            final(self).height == old(self).height,
            final(self).buffer@ == painted(
                old(self).buffer@,
                old(self).width as int,
                old(self).height as int,
                flood_ink(color),
            ),
            final(final(self).buffer)@ == final(old(self).buffer)@,
    {
        let ghost before = self.buffer@;
        let width = self.width;
        let height = self.height;
        self.draw_rect(0, 0, width, height, color);
        proof {
            assert(self.buffer@ =~= painted(
                before,
                width as int,
                height as int,
                flood_ink(color),
            ));
        }
    }

    /// Fills the rectangle of `width` by `height` pixels whose corner is
    /// `(x, y)` with `color`; what falls outside the surface is ignored.
    pub fn draw_rect(&mut self, x: usize, y: usize, width: usize, height: usize, color: [u8; 4])
        ensures
            final(self).width == old(self).width,
            final(self).height == old(self).height,
            final(self).buffer@ == painted(
                old(self).buffer@,
                old(self).width as int,
                old(self).height as int,
                rect_ink(x as int, y as int, width as int, height as int, color),
            ),
            final(final(self).buffer)@ == final(old(self).buffer)@,
    {
        let ghost before = self.buffer@;
        let ghost w = self.width as int;
        let ghost h = self.height as int;
        let ghost tint = plain(color);
        let x0 = if x < self.width { x } else { self.width };
        let y0 = if y < self.height { y } else { self.height };
        let x1 = if width < self.width - x0 { x0 + width } else { self.width };
        let y1 = if height < self.height - y0 { y0 + height } else { self.height };
        proof {
            lemma_sweep_begin(before, w, h, x0 as int, x1 as int, y0 as int, tint);
        }
        let mut j = y0;
        while j < y1
            invariant
                y0 <= j <= y1 <= self.height,
                x0 <= x1 <= self.width,
                self.width == w,
                self.height == h,
                tint == plain(color),
                self.buffer@ == painted(
                    before,
                    w,
                    h,
                    sweep_ink(x0 as int, x1 as int, y0 as int, j as int, x0 as int, tint),
                ),
                final(self.buffer)@ == final(old(self).buffer)@,
            decreases y1 - j,
        {
            let mut i = x0;
            while i < x1
                invariant
                    y0 <= j < y1 <= self.height,
                    x0 <= i <= x1 <= self.width,
                    self.width == w,
                    self.height == h,
                    tint == plain(color),
                    self.buffer@ == painted(
                        before,
                        w,
                        h,
                        sweep_ink(x0 as int, x1 as int, y0 as int, j as int, i as int, tint),
                    ),
                    final(self.buffer)@ == final(old(self).buffer)@,
                decreases x1 - i,
            {
                self.point(i, j, color);
                proof {
                    lemma_sweep_step(
                        before,
                        w,
                        h,
                        x0 as int,
                        x1 as int,
                        y0 as int,
                        j as int,
                        i as int,
                        tint,
                    );
                }
                i = i + 1;
            }
            proof {
                lemma_sweep_row(before, w, h, x0 as int, x1 as int, y0 as int, j as int, tint);
            }
            j = j + 1;
        }
        proof {
            lemma_sweep_end(before, w, h, x0 as int, x1 as int, y0 as int, y1 as int, tint);
            lemma_painted_same(
                before,
                w,
                h,
                region_ink(x0 as int, x1 as int, y0 as int, y1 as int, tint),
                rect_ink(x as int, y as int, width as int, height as int, color),
            );
        }
    }

    /// Fills the rectangle of `width` by `height` pixels whose corner is
    /// `(x, y)`, a corner that may lie to the left of the surface or above
    /// it; what falls outside the surface is ignored.
    pub fn draw_rect_at(&mut self, x: i128, y: i128, width: usize, height: usize, color: [u8; 4])
        ensures
            final(self).width == old(self).width,
            final(self).height == old(self).height,
            final(self).buffer@ == painted(
                old(self).buffer@,
                old(self).width as int,
                old(self).height as int,
                rect_ink(x as int, y as int, width as int, height as int, color),
            ),
            final(final(self).buffer)@ == final(old(self).buffer)@,
    {
        let ghost before = self.buffer@;
        let ghost w = self.width as int;
        let ghost h = self.height as int;
        let ghost ink = rect_ink(x as int, y as int, width as int, height as int, color);
        if x >= self.width as i128 || y >= self.height as i128 {
            proof {
                lemma_painted_nothing(before, w, h, ink);
            }
            return ;
        }
        let right = x + width as i128;
        let bottom = y + height as i128;
        if right <= 0 || bottom <= 0 {
            proof {
                lemma_painted_nothing(before, w, h, ink);
            }
            return ;
        }
        let x0: usize = if x < 0 {
            0
        } else {
            x as usize
        };
        let y0: usize = if y < 0 {
            0
        } else {
            y as usize
        };
        let x1: usize = if right > self.width as i128 {
            self.width
        } else {
            right as usize
        };
        let y1: usize = if bottom > self.height as i128 {
            self.height
        } else {
            bottom as usize
        };
        self.draw_rect(x0, y0, x1 - x0, y1 - y0, color);
        proof {
            lemma_painted_same(
                before,
                w,
                h,
                rect_ink(x0 as int, y0 as int, x1 - x0, y1 - y0, color),
                ink,
            );
        }
    }

    pub fn get_width(&self) -> (w: usize)
        ensures
            w == self.width,
    {
        self.width
    }

    pub fn get_height(&self) -> (h: usize)
        ensures
            h == self.height,
    {
        self.height
    }

    /// Paints the sky over the upper half of the surface and the ground over
    /// as many rows below it.
    pub fn draw_sky_and_ground(&mut self)
        ensures
            final(self).width == old(self).width,
            final(self).height == old(self).height,
            final(self).buffer@ == painted(
                old(self).buffer@,
                old(self).width as int,
                old(self).height as int,
                sky_and_ground_ink(old(self).width as int, old(self).height as int),
            ),
            final(final(self).buffer)@ == final(old(self).buffer)@,
    {
        let ghost before = self.buffer@;
        let width = self.width;
        let half = self.height / 2;
        self.draw_rect(0, 0, width, half, SKY_COLOR);
        self.draw_rect(0, half, width, half, GROUND_COLOR);
        proof {
            lemma_painted_twice(
                before,
                self.width as int,
                self.height as int,
                rect_ink(0, 0, width as int, half as int, SKY_COLOR),
                rect_ink(0, half as int, width as int, half as int, GROUND_COLOR),
            );
        }
    }

    /// Draws rasterized text: each sample of `glyphs` in turn becomes a gray
    /// pixel of its intensity at its place, and a sample that falls outside
    /// the surface is ignored.
    pub fn draw_text(&mut self, glyphs: &Vec<GlyphPixel>)
        ensures
            final(self).width == old(self).width,
            final(self).height == old(self).height,
            final(self).buffer@ == painted(
                old(self).buffer@,
                old(self).width as int,
                old(self).height as int,
                stacked(
                    glyph_inks(
                        glyphs@,
                        old(self).width as int,
                        old(self).height as int,
                        glyphs@.len() as int,
                    ),
                ),
            ),
            final(final(self).buffer)@ == final(old(self).buffer)@,
    {
        let ghost before = self.buffer@;
        let ghost w = self.width as int;
        let ghost h = self.height as int;
        proof {
            lemma_painted_nothing(before, w, h, stacked(glyph_inks(glyphs@, w, h, 0)));
        }
        let mut k: usize = 0;
        while k < glyphs.len()
            invariant
                k <= glyphs.len(),
                self.width == w,
                self.height == h,
                self.buffer@ == painted(
                    before,
                    w,
                    h,
                    stacked(glyph_inks(glyphs@, w, h, k as int)),
                ),
                final(self.buffer)@ == final(old(self).buffer)@,
            decreases glyphs.len() - k,
        {
            let g = glyphs[k];
            let x = g.gx as i64 + g.min_x as i64;
            let y = g.gy as i64 + g.min_y as i64;
            let ghost mid = self.buffer@;
            if 0 <= x && 0 <= y && (x as u64) < self.width as u64 && (y as u64)
                < self.height as u64 {
                self.point(x as usize, y as usize, [g.intensity, g.intensity, g.intensity, 255]);
            } else {
                proof {
                    lemma_painted_nothing(mid, w, h, g.ink(w, h));
                }
            }
            proof {
                let done = glyph_inks(glyphs@, w, h, k as int);
                assert(self.buffer@ == painted(mid, w, h, g.ink(w, h)));
                lemma_painted_stack_push(before, w, h, done, g.ink(w, h));
                assert(done.push(g.ink(w, h)) =~= glyph_inks(glyphs@, w, h, k + 1));
            }
            k = k + 1;
        }
    }
}

} // verus!
