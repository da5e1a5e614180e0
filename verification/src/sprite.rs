use vstd::prelude::*;
use crate::fixed::ONE;
use crate::framebuffer::Framebuffer;
use crate::framebuffer::Ink;
use crate::framebuffer::Tint;
use crate::framebuffer::painted;
use crate::framebuffer::region_ink;
use crate::framebuffer::sweep_ink;
use crate::framebuffer::lemma_painted_nothing;
use crate::framebuffer::lemma_sweep_begin;
use crate::framebuffer::lemma_sweep_step;
use crate::framebuffer::lemma_sweep_row;
use crate::framebuffer::lemma_sweep_end;
use crate::grid::Grid;
use crate::player::Player;
use crate::player::Point;
use crate::player::relative_angle;
use crate::texture::Texture;
use crate::wall::EPSILON;
use crate::wall::scale;
use crate::wall::scaled;
use crate::wall::stripe_height;

verus! {

/// The pixels that a sprite covers on the screen: the columns from `left` up
/// to `right` and the rows from `top` up to `bottom`.
#[derive(Clone, Copy, Debug, PartialEq, Eq, Structural)]
pub struct SpriteRect {
    pub left: usize,
    pub right: usize,
    pub top: usize,
    pub bottom: usize,
}

/// The square of the distance between two points.
pub open spec fn squared_distance(a: Point, b: Point) -> int {
    (b.x - a.x) * (b.x - a.x) + (b.y - a.y) * (b.y - a.y)
}

/// Whether `r` is the square root of `n`, rounded down.
pub open spec fn is_floor_sqrt(n: int, r: int) -> bool {
    0 <= r && r * r <= n < (r + 1) * (r + 1)
}

/// The square root of `n`, rounded down.
pub open spec fn floor_sqrt(n: int) -> int {
    choose|r: int| is_floor_sqrt(n, r)
}

/// The distance between two points, rounded down; beyond what the number
/// type holds it is the largest number of the type.
pub open spec fn distance_between(a: Point, b: Point) -> int {
    if squared_distance(a, b) > u128::MAX {
        u64::MAX as int
    } else {
        floor_sqrt(squared_distance(a, b))
    }
}

/// `v`, or the nearer of `lo` and `hi` where it lies outside them.
pub open spec fn clamped(v: int, lo: int, hi: int) -> int {
    if v < lo {
        lo
    } else if v > hi {
        hi
    } else {
        v
    }
}

/// The column at which a sprite begins that is seen at `angle` from the
/// viewing direction, on a screen `width` pixels wide:
/// `width / 2 + angle * plane`.
pub open spec fn sprite_left(width: int, angle: int, plane: int) -> int {
    width / 2 + angle * plane / (ONE * ONE)
}

/// The row at which a sprite of `size` rows begins on a screen of `height`
/// rows: `height / 2 - size / 2`.
pub open spec fn sprite_top(height: int, size: int) -> int {
    height / 2 - size / 2
}

/// The pixels that the sprite at `sprite` covers on a screen of `width` by
/// `height` pixels, for a viewer that sees it in the direction `bearing`:
/// none where the sprite stands in a solid cell or where the viewer stands;
/// else a square about the screen's middle row, of the size that a cell has
/// at the sprite's distance, cut to the screen.
pub open spec fn sprite_rect_of(
    grid: &Grid,
    player: Player,
    sprite: Point,
    bearing: int,
    plane: int,
    width: int,
    height: int,
) -> Option<SpriteRect> {
    let distance = distance_between(player.pos, sprite);
    if grid.solid_at(sprite.x as int, sprite.y as int) || distance < EPSILON {
        None
    } else {
        let size = stripe_height(plane, grid.cell_size as int, distance);
        let left = sprite_left(width, relative_angle(player.a as int, bearing), plane);
        let top = sprite_top(height, size);
        Some(
            SpriteRect {
                left: clamped(left, 0, width) as usize,
                right: clamped(left + size, 0, width) as usize,
                top: clamped(top, 0, height) as usize,
                bottom: clamped(top + size, 0, height) as usize,
            },
        )
    }
}

/// The tint of a sprite: the texture stretched over the rectangle.
pub open spec fn sprite_tint(rect: SpriteRect, texture: &Texture) -> Tint {
    |px: int, py: int|
        texture.color_at(
            scaled(px - rect.left, rect.right - rect.left, texture.width as int),
            scaled(py - rect.top, rect.bottom - rect.top, texture.height as int),
        )
}

/// The ink of a sprite: the texture stretched over its rectangle, or nothing
/// where it has none.
pub open spec fn sprite_ink(rect: Option<SpriteRect>, texture: &Texture) -> Ink {
    match rect {
        Some(r) => region_ink(
            r.left as int,
            r.right as int,
            r.top as int,
            r.bottom as int,
            sprite_tint(r, texture),
        ),
        None => |px: int, py: int| None,
    }
}

/// A number has one square root rounded down, at most.
pub proof fn lemma_floor_sqrt_unique(n: int, r: int)
    requires
        is_floor_sqrt(n, r),
    ensures
        floor_sqrt(n) == r,
{
    let s = floor_sqrt(n);
    assert(is_floor_sqrt(n, s));
    assert(s == r) by (nonlinear_arith)
        requires
            0 <= r,
            r * r <= n < (r + 1) * (r + 1),
            0 <= s,
            s * s <= n < (s + 1) * (s + 1),
    ;
}

/// The square root of `n`, rounded down.
pub fn integer_sqrt(n: u128) -> (r: u64)
    ensures
        r == floor_sqrt(n as int),
        is_floor_sqrt(n as int, r as int),
{
    let mut lo: u128 = 0;
    let mut hi: u128 = 0x1_0000_0000_0000_0000;
    while hi - lo > 1
        invariant
            lo < hi <= 0x1_0000_0000_0000_0000,
            lo * lo <= n < hi * hi,
        decreases hi - lo,
    {
        let mid = lo + (hi - lo) / 2;
        assert(mid * mid <= 0xffff_ffff_ffff_ffff * 0xffff_ffff_ffff_ffff) by (nonlinear_arith)
            requires
                0 <= mid <= 0xffff_ffff_ffff_ffff,
        ;
        if mid * mid <= n {
            lo = mid;
        } else {
            hi = mid;
        }
    }
    proof {
        lemma_floor_sqrt_unique(n as int, lo as int);
    }
    lo as u64
}

/// The distance from `a` to `b` along one axis.
fn gap(a: i64, b: i64) -> (r: u128)
    ensures
        r == (if a <= b {
            b - a
        } else {
            a - b
        }),
        r <= 0xffff_ffff_ffff_ffff,
{
    if a <= b {
        (b as i128 - a as i128) as u128
    } else {
        (a as i128 - b as i128) as u128
    }
}

/// The distance between two points, rounded down.
pub fn distance(a: &Point, b: &Point) -> (r: u64)
    ensures
        r == distance_between(*a, *b),
{
    let dx = gap(a.x, b.x);
    let dy = gap(a.y, b.y);
    proof {
        assert(dx * dx == (b.x - a.x) * (b.x - a.x)) by (nonlinear_arith)
            requires
                dx == b.x - a.x || dx == a.x - b.x,
        ;
        assert(dy * dy == (b.y - a.y) * (b.y - a.y)) by (nonlinear_arith)
            requires
                dy == b.y - a.y || dy == a.y - b.y,
        ;
        assert(dx * dx <= 0xffff_ffff_ffff_ffff * 0xffff_ffff_ffff_ffff) by (nonlinear_arith)
            requires
                0 <= dx <= 0xffff_ffff_ffff_ffff,
        ;
        assert(dy * dy <= 0xffff_ffff_ffff_ffff * 0xffff_ffff_ffff_ffff) by (nonlinear_arith)
            requires
                0 <= dy <= 0xffff_ffff_ffff_ffff,
        ;
    }
    match (dx * dx).checked_add(dy * dy) {
        Some(sum) => integer_sqrt(sum),
        None => u64::MAX,
    }
}

/// `v` cut to the range from zero to `hi`.
fn clamp_to(v: i128, hi: usize) -> (r: usize)
    ensures
        r == clamped(v as int, 0, hi as int),
{
    if v < 0 {
        0
    } else if v > hi as i128 {
        hi
    } else {
        v as usize
    }
}

/// The pixels that the sprite at `sprite` covers on a screen of `width` by
/// `height` pixels, if it is to be drawn at all.
pub fn project_sprite(
    grid: &Grid,
    player: &Player,
    sprite: &Point,
    bearing: i64,
    plane: u64,
    width: usize,
    height: usize,
) -> (r: Option<SpriteRect>)
    requires
        grid.wf(),
    ensures
        r == sprite_rect_of(
            grid,
            *player,
            *sprite,
            bearing as int,
            plane as int,
            width as int,
            height as int,
        ),
        r is None <==> grid.solid_at(sprite.x as int, sprite.y as int) || distance_between(
            player.pos,
            *sprite,
        ) < EPSILON,
        r matches Some(rect) ==> rect.left <= rect.right <= width && rect.top <= rect.bottom
            <= height,
{
    if check_cat_collision(sprite, grid) {
        return None;
    }
    let far = distance(&player.pos, sprite);
    if far < EPSILON {
        return None;
    }
    let angle = player.angle_to(bearing);
    proof {
        grid.lemma_extent();
        assert(plane * grid.cell_size <= 0xffff_ffff_ffff_ffff * 0x4000_0000_0000)
            by (nonlinear_arith)
            requires
                0 <= plane <= 0xffff_ffff_ffff_ffff,
                0 <= grid.cell_size <= 0x4000_0000_0000,
        ;
        assert(-0x8000_0000_0000_0000 * 0xffff_ffff_ffff_ffff <= angle * plane
            <= 0x7fff_ffff_ffff_ffff * 0xffff_ffff_ffff_ffff) by (nonlinear_arith)
            requires
                -0x8000_0000_0000_0000 <= angle <= 0x7fff_ffff_ffff_ffff,
                0 <= plane <= 0xffff_ffff_ffff_ffff,
        ;
        let m = (plane * grid.cell_size) as int;
        assert(0 <= m / (far as int) <= m) by (nonlinear_arith)
            requires
                0 <= m,
                far >= 1,
        ;
    }
    let size = ((plane as u128) * (grid.cell_size as u128) / (far as u128)) as i128;
    let turn = (angle as i128) * (plane as i128);
    let shift = match turn.checked_div_euclid(0x1_0000_0000) {
        Some(v) => v,
        None => 0,
    };
    let left = (width / 2) as i128 + shift;
    let top = (height / 2) as i128 - size / 2;
    Some(
        SpriteRect {
            left: clamp_to(left, width),
            right: clamp_to(left + size, width),
            top: clamp_to(top, height),
            bottom: clamp_to(top + size, height),
        },
    )
}

/// Whether the world point `pos` lies in a solid cell of the grid, where a
/// sprite cannot be seen.
pub fn check_cat_collision(pos: &Point, grid: &Grid) -> (r: bool)
    requires
        grid.wf(),
    ensures
        r == grid.solid_at(pos.x as int, pos.y as int),
{
    match grid.kind_at_world(pos.x, pos.y) {
        Some(kind) => kind.is_wall_like(),
        None => false,
    }
}

/// Draws the sprite that stands at `cat_pos` as the viewer sees it in the
/// direction `bearing`: the texture stretched over its square on the screen,
/// over whatever was drawn there. A sprite inside a solid cell, or where the
/// viewer stands, is not drawn.
pub fn render_cat_sprite(
    fb: &mut Framebuffer,
    player: &Player,
    cat_pos: &Point,
    bearing: i64,
    plane: u64,
    grid: &Grid,
    texture: &Texture,
)
    requires
        grid.wf(),
        texture.wf(),
        !texture.is_empty(),
    ensures
        final(fb).width == old(fb).width,
        final(fb).height == old(fb).height,
        final(fb).buffer@ == painted(
            old(fb).buffer@,
            old(fb).width as int,
            old(fb).height as int,
            sprite_ink(
                sprite_rect_of(
                    grid,
                    *player,
                    *cat_pos,
                    bearing as int,
                    plane as int,
                    old(fb).width as int,
                    old(fb).height as int,
                ),
                texture,
            ),
        ),
        grid.solid_at(cat_pos.x as int, cat_pos.y as int) ==> final(fb).buffer@ == old(fb).buffer@,
        distance_between(player.pos, *cat_pos) < EPSILON ==> final(fb).buffer@ == old(fb).buffer@,
        final(final(fb).buffer)@ == final(old(fb).buffer)@,
{
    let ghost before = fb.buffer@;
    let ghost w = fb.width as int;
    let ghost h = fb.height as int;
    let rect = match project_sprite(grid, player, cat_pos, bearing, plane, fb.width, fb.height) {
        Some(rect) => rect,
        None => {
            proof {
                lemma_painted_nothing(before, w, h, sprite_ink(None, texture));
            }
            return ;
        },
    };
    let ghost tint = sprite_tint(rect, texture);
    proof {
        lemma_sweep_begin(before, w, h, rect.left as int, rect.right as int, rect.top as int, tint);
    }
    let mut y = rect.top;
    while y < rect.bottom
        invariant
            texture.wf(),
            !texture.is_empty(),
            rect.left <= rect.right <= w,
            rect.top <= y <= rect.bottom <= h,
            tint == sprite_tint(rect, texture),
            fb.width == w,
            fb.height == h,
            fb.buffer@ == painted(
                before,
                w,
                h,
                sweep_ink(
                    rect.left as int,
                    rect.right as int,
                    rect.top as int,
                    y as int,
                    rect.left as int,
                    tint,
                ),
            ),
            final(fb.buffer)@ == final(old(fb).buffer)@,
        decreases rect.bottom - y,
    {
        let ty = scale(y - rect.top, rect.bottom - rect.top, texture.height);
        let mut x = rect.left;
        while x < rect.right
            invariant
                texture.wf(),
                !texture.is_empty(),
                rect.left <= x <= rect.right <= w,
                rect.top <= y < rect.bottom <= h,
                ty == scaled(y - rect.top, rect.bottom - rect.top, texture.height as int),
                ty < texture.height,
                tint == sprite_tint(rect, texture),
                fb.width == w,
                fb.height == h,
                fb.buffer@ == painted(
                    before,
                    w,
                    h,
                    sweep_ink(
                        rect.left as int,
                        rect.right as int,
                        rect.top as int,
                        y as int,
                        x as int,
                        tint,
                    ),
                ),
                final(fb.buffer)@ == final(old(fb).buffer)@,
            decreases rect.right - x,
        {
            let tx = scale(x - rect.left, rect.right - rect.left, texture.width);
            let color = texture.get_pixel_color(tx, ty);
            fb.point(x, y, color);
            proof {
                lemma_sweep_step(
                    before,
                    w,
                    h,
                    rect.left as int,
                    rect.right as int,
                    rect.top as int,
                    y as int,
                    x as int,
                    tint,
                );
            }
            x = x + 1;
        }
        proof {
            lemma_sweep_row(
                before,
                w,
                h,
                rect.left as int,
                rect.right as int,
                rect.top as int,
                y as int,
                tint,
            );
        }
        y = y + 1;
    }
    proof {
        lemma_sweep_end(
            before,
            w,
            h,
            rect.left as int,
            rect.right as int,
            rect.top as int,
            rect.bottom as int,
            tint,
        );
    }
}

} // verus!
