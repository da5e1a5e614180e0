use vstd::prelude::*;
use crate::framebuffer::Framebuffer;
use crate::framebuffer::Ink;
use crate::framebuffer::painted;
use crate::framebuffer::dot_ink;
use crate::framebuffer::layered;
use crate::framebuffer::lemma_painted_twice;
use crate::framebuffer::lemma_painted_same;
use crate::framebuffer::lemma_painted_nothing;
use crate::ray::RayHit;
use crate::texture::Textures;
use crate::texture::BLACK;

verus! {

/// A wall no farther off than this, as a fixed-point distance, is not drawn.
pub const EPSILON: u64 = 655;

/// The rows of a screen column that a wall covers: from `top` up to, and
/// without, `bottom`.
#[derive(Clone, Copy, Debug, PartialEq, Eq, Structural)]
pub struct Stripe {
    pub top: usize,
    pub bottom: usize,
}

/// The height on screen of a wall `cell_size` world units high at
/// `distance`, for a projection plane at `plane`:
/// `plane / distance * cell_size`, rounded down to whole rows.
pub open spec fn stripe_height(plane: int, cell_size: int, distance: int) -> int {
    plane * cell_size / distance
}

/// The stripe that a hit is drawn as on a screen of `screen_height` rows:
/// none for a miss or a wall at no distance; else a stripe about the
/// screen's middle row, cut to the screen, of the wall's height on screen or
/// one row more.
pub open spec fn stripe_of(hit: RayHit, plane: int, cell_size: int, screen_height: int) -> Option<
    Stripe,
> {
    if hit.is_miss() || hit.distance <= EPSILON {
        None
    } else {
        let rows = stripe_height(plane, cell_size, hit.distance as int);
        let top = if rows <= 0 {
            screen_height / 2
        } else if rows >= screen_height {
            0
        } else {
            (screen_height - rows) / 2
        };
        let bottom = if rows <= 0 {
            top
        } else {
            screen_height - top
        };
        Some(Stripe { top: top as usize, bottom: bottom as usize })
    }
}

/// `part` of `whole`, taken of `size`: `part / whole * size`, rounded down.
pub open spec fn scaled(part: int, whole: int, size: int) -> int {
    part * size / whole
}

/// The color of row `row` of the stripe of a hit: that of the texture of the
/// cell's kind, at the column that the place along the wall's face gives and
/// at the row that the place along the stripe gives; black for a kind
/// without a texture.
pub open spec fn wall_color(
    textures: &Textures,
    hit: RayHit,
    cell_size: int,
    stripe: Stripe,
    row: int,
) -> [u8; 4] {
    match textures.surface_of(hit.cell_kind) {
        Some(texture) => texture.color_at(
            scaled(hit.wall_offset as int, cell_size, texture.width as int),
            scaled(row - stripe.top, stripe.bottom - stripe.top, texture.height as int),
        ),
        None => BLACK,
    }
}

/// What drawing a hit in a screen column puts on the screen: the wall's
/// colors on the rows of its stripe, up to row `upto`.
pub open spec fn column_ink_upto(
    textures: &Textures,
    hit: RayHit,
    plane: int,
    cell_size: int,
    screen_height: int,
    column: int,
    upto: int,
) -> Ink {
    |px: int, py: int|
        match stripe_of(hit, plane, cell_size, screen_height) {
            Some(stripe) => if px == column && stripe.top <= py < stripe.bottom && py < upto {
                Some(wall_color(textures, hit, cell_size, stripe, py))
            } else {
                None
            },
            None => None,
        }
}

/// What drawing a hit in a screen column puts on the screen: the wall's
/// colors on the rows of its stripe.
pub open spec fn column_ink(
    textures: &Textures,
    hit: RayHit,
    plane: int,
    cell_size: int,
    screen_height: int,
    column: int,
) -> Ink {
    column_ink_upto(textures, hit, plane, cell_size, screen_height, column, screen_height)
}

/// The stripe of a hit lies inside the screen, and one that covers a row is
/// centered on the screen's middle: its top and its bottom add up to the
/// screen's height. It covers a row exactly when the wall is at least a row
/// high on a screen that has a row.
pub proof fn law_stripe_centered(hit: RayHit, plane: int, cell_size: int, screen_height: int)
    requires
        0 <= plane,
        0 <= cell_size,
        0 <= screen_height <= usize::MAX,
        stripe_of(hit, plane, cell_size, screen_height) is Some,
    ensures
        ({
            let stripe = stripe_of(hit, plane, cell_size, screen_height).unwrap();
            &&& stripe.top <= stripe.bottom <= screen_height
            &&& stripe.top < stripe.bottom ==> stripe.top + stripe.bottom == screen_height
            &&& stripe.top < stripe.bottom <==> stripe_height(plane, cell_size, hit.distance as int)
                > 0 && screen_height > 0
        }),
{
    let distance = hit.distance as int;
    let product = plane * cell_size;
    assert(0 <= product) by (nonlinear_arith)
        requires
            0 <= plane,
            0 <= cell_size,
            product == plane * cell_size,
    ;
    vstd::arithmetic::div_mod::lemma_fundamental_div_mod(product, distance);
    let rows = product / distance;
    let rest = product % distance;
    assert(0 <= rows) by (nonlinear_arith)
        requires
            product == distance * rows + rest,
            0 <= rest < distance,
            0 <= product,
    ;
}

/// `part / whole * size`, rounded down, for a part less than the whole.
pub fn scale(part: usize, whole: usize, size: u32) -> (r: u32)
    requires
        part < whole,
    ensures
        r == scaled(part as int, whole as int, size as int),
        size > 0 ==> r < size,
{
    proof {
        lemma_scaled(part as int, whole as int, size as int);
        assert(part * size <= 0xffff_ffff_ffff_ffff * 0xffff_ffff) by (nonlinear_arith)
            requires
                0 <= part <= 0xffff_ffff_ffff_ffff,
                0 <= size <= 0xffff_ffff,
        ;
    }
    let product = (part as u128) * (size as u128);
    (product / (whole as u128)) as u32
}

/// A part less than the whole scales to less than the size.
pub proof fn lemma_scaled(part: int, whole: int, size: int)
    requires
        0 <= part < whole,
        0 <= size,
    ensures
        0 <= scaled(part, whole, size) <= size,
        0 <= part * size <= whole * size,
        size > 0 ==> scaled(part, whole, size) < size,
{
    assert(0 <= part * size <= whole * size && (size > 0 ==> part * size < whole * size))
        by (nonlinear_arith)
        requires
            0 <= part < whole,
            0 <= size,
    ;
    vstd::arithmetic::div_mod::lemma_fundamental_div_mod(part * size, whole);
    let q = part * size / whole;
    let r = (part * size) % whole;
    assert(0 <= q <= size && (size > 0 ==> q < size)) by (nonlinear_arith)
        requires
            part * size == whole * q + r,
            0 <= r < whole,
            0 <= part * size <= whole * size,
            size > 0 ==> part * size < whole * size,
            0 <= size,
    ;
}

/// The stripe to draw a hit as on a screen of `screen_height` rows, if any
/// is to be drawn.
pub fn project_wall(hit: &RayHit, plane: u64, cell_size: usize, screen_height: usize) -> (r:
    Option<Stripe>)
    ensures
        r == stripe_of(*hit, plane as int, cell_size as int, screen_height as int),
        r matches Some(stripe) ==> stripe.top <= stripe.bottom <= screen_height,
        r matches Some(stripe) ==> (stripe.top < stripe.bottom <==> stripe_height(
            plane as int,
            cell_size as int,
            hit.distance as int,
        ) > 0 && screen_height > 0),
        r matches Some(stripe) ==> (stripe.top < stripe.bottom ==> stripe.top + stripe.bottom
            == screen_height),
{
    if hit.missed() || hit.distance <= EPSILON {
        return None;
    }
    assert(plane * cell_size <= 0xffff_ffff_ffff_ffff * 0xffff_ffff_ffff_ffff)
        by (nonlinear_arith)
        requires
            0 <= plane <= 0xffff_ffff_ffff_ffff,
            0 <= cell_size <= 0xffff_ffff_ffff_ffff,
    ;
    let rows = (plane as u128) * (cell_size as u128) / (hit.distance as u128);
    if rows == 0 {
        let middle = screen_height / 2;
        Some(Stripe { top: middle, bottom: middle })
    } else if rows >= screen_height as u128 {
        Some(Stripe { top: 0, bottom: screen_height })
    } else {
        let top = (screen_height - rows as usize) / 2;
        Some(Stripe { top, bottom: screen_height - top })
    }
}

/// Draws a hit in screen column `column`: the rows of its stripe in the
/// colors of the wall's texture.
pub fn draw_wall_column(
    fb: &mut Framebuffer,
    column: usize,
    hit: &RayHit,
    plane: u64,
    cell_size: usize,
    textures: &Textures,
)
    requires
        textures.wf(),
        hit.wall_offset < cell_size,
    ensures
        final(fb).width == old(fb).width,
        final(fb).height == old(fb).height,
        final(fb).buffer@ == painted(
            old(fb).buffer@,
            old(fb).width as int,
            old(fb).height as int,
            column_ink(
                textures,
                *hit,
                plane as int,
                cell_size as int,
                old(fb).height as int,
                column as int,
            ),
        ),
        final(final(fb).buffer)@ == final(old(fb).buffer)@,
{
    let ghost before = fb.buffer@;
    let ghost w = fb.width as int;
    let ghost h = fb.height as int;
    let stripe = match project_wall(hit, plane, cell_size, fb.height) {
        Some(stripe) => stripe,
        None => {
            proof {
                lemma_painted_nothing(
                    before,
                    w,
                    h,
                    column_ink(textures, *hit, plane as int, cell_size as int, h, column as int),
                );
            }
            return ;
        },
    };
    let texture = textures.for_kind(hit.cell_kind);
    let tx = match texture {
        Some(t) => scale(hit.wall_offset, cell_size, t.width),
        None => 0,
    };
    proof {
        lemma_painted_nothing(
            before,
            w,
            h,
            column_ink_upto(
                textures,
                *hit,
                plane as int,
                cell_size as int,
                h,
                column as int,
                stripe.top as int,
            ),
        );
    }
    let mut row = stripe.top;
    while row < stripe.bottom
        invariant
            textures.wf(),
            stripe.top <= row <= stripe.bottom <= h,
            fb.width == w,
            fb.height == h,
            stripe_of(*hit, plane as int, cell_size as int, h) == Some(stripe),
            match texture {
                Some(t) => textures.surface_of(hit.cell_kind) == Some(*t) && tx == scaled(
                    hit.wall_offset as int,
                    cell_size as int,
                    t.width as int,
                ) && tx < t.width && t.wf() && t.height > 0,
                None => textures.surface_of(hit.cell_kind) is None,
            },
            fb.buffer@ == painted(
                before,
                w,
                h,
                column_ink_upto(
                    textures,
                    *hit,
                    plane as int,
                    cell_size as int,
                    h,
                    column as int,
                    row as int,
                ),
            ),
            final(fb.buffer)@ == final(old(fb).buffer)@,
        decreases stripe.bottom - row,
    {
        let color = match texture {
            Some(t) => {
                let ty = scale(row - stripe.top, stripe.bottom - stripe.top, t.height);
                t.get_pixel_color(tx, ty)
            },
            None => BLACK,
        };
        fb.point(column, row, color);
        proof {
            let done = column_ink_upto(
                textures,
                *hit,
                plane as int,
                cell_size as int,
                h,
                column as int,
                row as int,
            );
            let dot = dot_ink(column as int, row as int, color);
            lemma_painted_twice(before, w, h, done, dot);
            lemma_painted_same(
                before,
                w,
                h,
                layered(done, dot),
                column_ink_upto(
                    textures,
                    *hit,
                    plane as int,
                    cell_size as int,
                    h,
                    column as int,
                    row + 1,
                ),
            );
        }
        row = row + 1;
    }
    proof {
        lemma_painted_same(
            before,
            w,
            h,
            column_ink_upto(
                textures,
                *hit,
                plane as int,
                cell_size as int,
                h,
                column as int,
                row as int,
            ),
            column_ink(textures, *hit, plane as int, cell_size as int, h, column as int),
        );
    }
}

} // verus!
