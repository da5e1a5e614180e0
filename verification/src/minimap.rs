use vstd::prelude::*;
use crate::framebuffer::Framebuffer;
use crate::framebuffer::Ink;
use crate::framebuffer::painted;
use crate::framebuffer::rect_ink;
use crate::framebuffer::layered;
use crate::framebuffer::stacked;
use crate::framebuffer::lemma_painted_twice;
use crate::framebuffer::lemma_painted_nothing;
use crate::framebuffer::lemma_painted_stack_push;
use crate::grid::CellKind;
use crate::grid::Grid;
use crate::player::Player;
use crate::player::Point;
use crate::texture::BLACK;

verus! {

pub const FLOOR_COLOR: [u8; 4] = [255, 215, 179, 255];

pub const MARKER_COLOR: [u8; 4] = [0, 255, 0, 255];

pub const GOAL_COLOR: [u8; 4] = [255, 0, 0, 255];

/// The side of the square that marks the viewer, in pixels.
pub const MARKER_SIZE: usize = 3;

/// The color of a cell on the minimap: one for the floor, one for the goal,
/// and the color of the walls, black, for every other kind.
pub open spec fn minimap_color(kind: CellKind) -> [u8; 4] {
    match kind {
        CellKind::Empty => FLOOR_COLOR,
        CellKind::Goal => GOAL_COLOR,
        _ => BLACK,
    }
}

/// `a / b`, rounded up.
pub open spec fn ceil_div(a: int, b: int) -> int {
    (a + b - 1) / b
}

/// Where the `index`-th of `count` cells begins on an overlay `size` pixels
/// long: at `index * (size / count)`, rounded down.
pub open spec fn cell_start(size: int, count: int, index: int) -> int {
    index * size / count
}

/// How long each of `count` cells is on an overlay `size` pixels long:
/// `size / count`, rounded up.
pub open spec fn cell_extent(size: int, count: int) -> int {
    ceil_div(size, count)
}

/// The ink of the cell number `n` of the grid, counted row by row, on an
/// overlay of `size` pixels whose corner is `(ox, oy)`.
pub open spec fn cell_ink(grid: &Grid, size: int, ox: int, oy: int, n: int) -> Ink {
    let row = n / grid.cols();
    let col = n % grid.cols();
    rect_ink(
        ox + cell_start(size, grid.cols(), col),
        oy + cell_start(size, grid.rows(), row),
        cell_extent(size, grid.cols()),
        cell_extent(size, grid.rows()),
        minimap_color(grid.kind(row, col)),
    )
}

/// The inks of the first `n` cells of the grid, counted row by row.
pub open spec fn cell_inks(grid: &Grid, size: int, ox: int, oy: int, n: int) -> Seq<Ink> {
    Seq::new(n as nat, |k: int| cell_ink(grid, size, ox, oy, k))
}

/// Where the world coordinate `v` falls on an overlay `size` pixels long
/// that shows `count` cells: at `v / cell_size * (size / count)`, rounded
/// down, and at the overlay's start for a coordinate below zero.
pub open spec fn marker_start(v: int, span: int, size: int, count: int) -> int {
    if v < 0 {
        0
    } else {
        v * size / (count * span)
    }
}

/// The ink of the square that marks the viewer.
pub open spec fn marker_ink(grid: &Grid, pos: Point, size: int, ox: int, oy: int) -> Ink {
    rect_ink(
        ox + marker_start(pos.x as int, grid.span(), size, grid.cols()),
        oy + marker_start(pos.y as int, grid.span(), size, grid.rows()),
        MARKER_SIZE as int,
        MARKER_SIZE as int,
        MARKER_COLOR,
    )
}

/// The ink of the minimap: the cells of the grid in their order, each over
/// those before it, and the viewer's mark on top.
pub open spec fn minimap_ink(grid: &Grid, pos: Point, size: int, ox: int, oy: int) -> Ink {
    layered(
        stacked(cell_inks(grid, size, ox, oy, grid.rows() * grid.cols())),
        marker_ink(grid, pos, size, ox, oy),
    )
}

/// Every cell of a grid gets a rectangle of the overlay that is at least one
/// pixel wide and high and lies inside the overlay, for an overlay of one
/// pixel or more.
pub proof fn law_minimap_coverage(grid: &Grid, size: int, row: int, col: int)
    requires
        grid.wf(),
        1 <= size,
        grid.inside(row, col),
    ensures
        cell_extent(size, grid.cols()) >= 1,
        cell_extent(size, grid.rows()) >= 1,
        0 <= cell_start(size, grid.cols(), col),
        0 <= cell_start(size, grid.rows(), row),
        cell_start(size, grid.cols(), col) + cell_extent(size, grid.cols()) <= size,
        cell_start(size, grid.rows(), row) + cell_extent(size, grid.rows()) <= size,
{
    law_minimap_cell_fits(size, grid.cols(), col);
    law_minimap_cell_fits(size, grid.rows(), row);
}

/// Along one axis: each of `count` cells is at least one pixel long on an
/// overlay of `size` pixels, and ends inside the overlay.
pub proof fn law_minimap_cell_fits(size: int, count: int, index: int)
    requires
        1 <= size,
        0 <= index < count,
    ensures
        cell_extent(size, count) >= 1,
        0 <= cell_start(size, count, index),
        cell_start(size, count, index) + cell_extent(size, count) <= size,
{
    let q = size / count;
    let r = size % count;
    vstd::arithmetic::div_mod::lemma_fundamental_div_mod(size, count);
    let e = cell_extent(size, count);
    vstd::arithmetic::div_mod::lemma_fundamental_div_mod(size + count - 1, count);
    let er = (size + count - 1) % count;
    assert(e >= 1 && (r == 0 ==> e == q) && (r > 0 ==> e == q + 1)) by (nonlinear_arith)
        requires
            size == count * q + r,
            0 <= r < count,
            size + count - 1 == count * e + er,
            0 <= er < count,
            size >= 1,
    ;
    let s = cell_start(size, count, index);
    vstd::arithmetic::div_mod::lemma_fundamental_div_mod(index * size, count);
    let sr = (index * size) % count;
    assert(0 <= s && s + e <= size) by (nonlinear_arith)
        requires
            size == count * q + r,
            0 <= r < count,
            index * size == count * s + sr,
            0 <= sr < count,
            0 <= index < count,
            size >= 1,
            q >= 0,
            r == 0 ==> e == q,
            r > 0 ==> e == q + 1,
    ;
}

/// `index * size / count`, rounded down.
fn start_of(size: usize, count: usize, index: usize) -> (r: usize)
    requires
        index < count,
    ensures
        r == cell_start(size as int, count as int, index as int),
        r <= size,
{
    proof {
        crate::wall::lemma_scaled(index as int, count as int, size as int);
        assert(index * size <= 0xffff_ffff_ffff_ffff * 0xffff_ffff_ffff_ffff) by (nonlinear_arith)
            requires
                0 <= index <= 0xffff_ffff_ffff_ffff,
                0 <= size <= 0xffff_ffff_ffff_ffff,
        ;
    }
    (((index as u128) * (size as u128)) / (count as u128)) as usize
}

/// `size / count`, rounded up.
fn extent_of(size: usize, count: usize) -> (r: usize)
    requires
        count > 0,
    ensures
        r == cell_extent(size as int, count as int),
{
    proof {
        let total = size + count - 1;
        vstd::arithmetic::div_mod::lemma_fundamental_div_mod(total, count as int);
        let q = total / (count as int);
        let m = total % (count as int);
        assert(0 <= q <= size) by (nonlinear_arith)
            requires
                total == count * q + m,
                0 <= m < count,
                total == size + count - 1,
                size >= 0,
                count >= 1,
        ;
    }
    (((size as u128) + (count as u128) - 1) / (count as u128)) as usize
}

/// Where the viewer's mark begins along one axis, unless that is farther
/// than any surface reaches.
fn marker_at(v: i64, cell_size: usize, size: usize, count: usize, origin: i128) -> (r: Option<
    i128,
>)
    requires
        0 < count,
        0 < cell_size,
        count * cell_size <= crate::fixed::MAX_EXTENT,
        -0x1_0000_0000_0000_0000 <= origin <= 0x1_0000_0000_0000_0000,
    ensures
        match r {
            Some(at) => at == origin + marker_start(
                v as int,
                cell_size * crate::fixed::ONE,
                size as int,
                count as int,
            ),
            None => marker_start(
                v as int,
                cell_size * crate::fixed::ONE,
                size as int,
                count as int,
            ) > 0xffff_ffff_ffff_ffff,
        },
{
    let ghost span = cell_size * crate::fixed::ONE;
    let place: u128 = if v < 0 {
        0
    } else {
        proof {
            assert(v * size <= 0x7fff_ffff_ffff_ffff * 0xffff_ffff_ffff_ffff) by (nonlinear_arith)
                requires
                    0 <= v <= 0x7fff_ffff_ffff_ffff,
                    0 <= size <= 0xffff_ffff_ffff_ffff,
            ;
            assert(count * span == (count * cell_size) * crate::fixed::ONE) by (nonlinear_arith)
                requires
                    span == cell_size * crate::fixed::ONE,
            ;
            assert(count * span >= 1) by (nonlinear_arith)
                requires
                    count >= 1,
                    span >= 1,
            ;
        }
        let whole = (count as u128) * (cell_size as u128) * (crate::fixed::ONE as u128);
        ((v as u128) * (size as u128)) / whole
    };
    if place > 0xffff_ffff_ffff_ffff {
        None
    } else {
        Some(origin + place as i128)
    }
}

/// Draws the minimap into the lower right corner of the surface: an overlay
/// of `minimap_size` by `minimap_size` pixels that shows every cell of the
/// grid in the color of its kind, and the viewer as a small square. Of an
/// overlay larger than the surface the part to the left of the surface and
/// above it is left out.
pub fn render_minimap(fb: &mut Framebuffer, player: &Player, grid: &Grid, minimap_size: usize)
    requires
        grid.wf(),
    ensures
        final(fb).width == old(fb).width,
        final(fb).height == old(fb).height,
        final(fb).buffer@ == painted(
            old(fb).buffer@,
            old(fb).width as int,
            old(fb).height as int,
            minimap_ink(
                grid,
                player.pos,
                minimap_size as int,
                old(fb).width - minimap_size,
                old(fb).height - minimap_size,
            ),
        ),
        final(final(fb).buffer)@ == final(old(fb).buffer)@,
{
    let ghost before = fb.buffer@;
    let ghost w = fb.width as int;
    let ghost h = fb.height as int;
    let ox = fb.width as i128 - minimap_size as i128;
    let oy = fb.height as i128 - minimap_size as i128;
    let ghost size = minimap_size as int;
    let rows = grid.num_rows();
    let cols = grid.num_cols();
    proof {
        grid.lemma_extent();
    }
    let cell_w = extent_of(minimap_size, cols);
    let cell_h = extent_of(minimap_size, rows);
    proof {
        lemma_painted_nothing(
            before,
            w,
            h,
            stacked(cell_inks(grid, size, ox as int, oy as int, 0)),
        );
    }
    let mut row: usize = 0;
    while row < rows
        invariant
            grid.wf(),
            rows == grid.rows(),
            cols == grid.cols(),
            cols > 0,
            0 <= row <= rows,
            ox + minimap_size == w,
            oy + minimap_size == h,
            size == minimap_size,
            cell_w == cell_extent(size, cols as int),
            cell_h == cell_extent(size, rows as int),
            fb.width == w,
            fb.height == h,
            fb.buffer@ == painted(
                before,
                w,
                h,
                stacked(cell_inks(grid, size, ox as int, oy as int, row * cols)),
            ),
            final(fb.buffer)@ == final(old(fb).buffer)@,
        decreases rows - row,
    {
        let y = start_of(minimap_size, rows, row);
        let mut col: usize = 0;
        proof {
            assert(row * cols + 0 == row * cols);
        }
        while col < cols
            invariant
                grid.wf(),
                rows == grid.rows(),
                cols == grid.cols(),
                0 <= row < rows,
                0 <= col <= cols,
                ox + minimap_size == w,
                oy + minimap_size == h,
                size == minimap_size,
                y == cell_start(size, rows as int, row as int),
                y <= minimap_size,
                cell_w == cell_extent(size, cols as int),
                cell_h == cell_extent(size, rows as int),
                fb.width == w,
                fb.height == h,
                fb.buffer@ == painted(
                    before,
                    w,
                    h,
                    stacked(cell_inks(grid, size, ox as int, oy as int, row * cols + col)),
                ),
                final(fb.buffer)@ == final(old(fb).buffer)@,
            decreases cols - col,
        {
            let kind = match grid.kind_at(row, col) {
                Some(kind) => kind,
                None => CellKind::Empty,
            };
            let color = match kind {
                CellKind::Empty => FLOOR_COLOR,
                CellKind::Goal => GOAL_COLOR,
                _ => BLACK,
            };
            let x = start_of(minimap_size, cols, col);
            fb.draw_rect_at(ox + x as i128, oy + y as i128, cell_w, cell_h, color);
            proof {
                let n = row * cols + col;
                vstd::arithmetic::div_mod::lemma_fundamental_div_mod_converse(
                    n,
                    cols as int,
                    row as int,
                    col as int,
                );
                let done = cell_inks(grid, size, ox as int, oy as int, n);
                let top = cell_ink(grid, size, ox as int, oy as int, n);
                lemma_painted_stack_push(before, w, h, done, top);
                assert(done.push(top) =~= cell_inks(grid, size, ox as int, oy as int, n + 1));
            }
            col = col + 1;
        }
        proof {
            assert(row * cols + cols == (row + 1) * cols) by (nonlinear_arith);
        }
        row = row + 1;
    }
    let ghost cells = stacked(cell_inks(grid, size, ox as int, oy as int, rows * cols));
    let ghost mark = marker_ink(grid, player.pos, size, ox as int, oy as int);
    let ghost mid = fb.buffer@;
    let mx = marker_at(player.pos.x, grid.cell_size, minimap_size, cols, ox);
    let my = marker_at(player.pos.y, grid.cell_size, minimap_size, rows, oy);
    match (mx, my) {
        (Some(x), Some(y)) => {
            fb.draw_rect_at(x, y, MARKER_SIZE, MARKER_SIZE, MARKER_COLOR);
        },
        _ => {
            proof {
                lemma_painted_nothing(mid, w, h, mark);
            }
        },
    }
    proof {
        lemma_painted_twice(before, w, h, cells, mark);
    }
}

} // verus!
