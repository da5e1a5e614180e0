use vstd::prelude::*;
use image::DynamicImage;
use crate::framebuffer::Framebuffer;
use crate::framebuffer::Ink;
use crate::framebuffer::Tint;
use crate::framebuffer::painted;
use crate::framebuffer::layered;
use crate::framebuffer::region_ink;
use crate::framebuffer::sweep_ink;
use crate::framebuffer::sky_and_ground_ink;
use crate::framebuffer::lemma_painted_twice;
use crate::framebuffer::lemma_painted_same;
use crate::framebuffer::lemma_painted_nothing;
use crate::framebuffer::lemma_sweep_begin;
use crate::framebuffer::lemma_sweep_step;
use crate::framebuffer::lemma_sweep_row;
use crate::framebuffer::lemma_sweep_end;
use crate::framebuffer::GlyphPixel;
use crate::framebuffer::glyph_inks;
use crate::framebuffer::rect_ink;
use crate::framebuffer::stacked;
use crate::framebuffer::lemma_painted_stack_push;
use crate::grid::CellKind;
use crate::grid::Grid;
use crate::minimap::FLOOR_COLOR;
use crate::minimap::MARKER_COLOR;
use crate::ray::RAY_COLOR;
use crate::ray::trace;
use crate::ray::trace_ink;
use crate::minimap::minimap_ink;
use crate::minimap::render_minimap;
use crate::player::Player;
use crate::player::Point;
use crate::fixed::ONE;
use crate::ray::Ray;
use crate::ray::RayHit;
use crate::ray::halts;
use crate::ray::raw_length;
use crate::ray::lemma_fisheye;
use crate::ray::law_cast_reaches_wall;
use crate::ray::law_cast_gives_up;
use crate::wall::EPSILON;
use crate::wall::stripe_of;
use crate::wall::law_stripe_centered;
use crate::ray::cast;
use crate::ray::cast_result;
use crate::texture::Textures;
use crate::texture::image_width;
use crate::texture::image_height;
use crate::texture::image_texels;
use crate::texture::image_get_pixel;
use crate::texture::image_float;
use crate::texture::image_has_float_samples;
use crate::wall::column_ink;
use crate::wall::draw_wall_column;

verus! {

/// The side of the minimap that the three-dimensional view carries, in
/// pixels.
pub const MINIMAP_SIZE: usize = 200;

/// Whether each of the rays is well formed.
pub open spec fn all_wf(rays: Seq<Ray>) -> bool {
    forall|i: int| 0 <= i < rays.len() ==> (#[trigger] rays[i]).wf()
}

/// How a view is projected: the ray of each screen column, from the left;
/// the distance from the viewer to the projection plane, a fixed-point
/// number; and how many steps a ray may march.
pub struct Projection {
    pub rays: Vec<Ray>,
    pub plane: u64,
    pub max_steps: u32,
}

impl Projection {
    /// A projection is well formed when each of its rays is.
    pub open spec fn wf(&self) -> bool {
        all_wf(self.rays@)
    }

    /// Makes a projection, if each of the rays is well formed.
    pub fn new(rays: Vec<Ray>, plane: u64, max_steps: u32) -> (r: Option<Projection>)
        ensures
            r is Some <==> all_wf(rays@),
            r matches Some(p) ==> p.rays == rays && p.plane == plane && p.max_steps == max_steps,
    {
        let projection = Projection { rays, plane, max_steps };
        if projection.is_wf() {
            Some(projection)
        } else {
            None
        }
    }

    /// Whether the projection is well formed.
    pub fn is_wf(&self) -> (r: bool)
        ensures
            r == self.wf(),
    {
        let mut i: usize = 0;
        while i < self.rays.len()
            invariant
                i <= self.rays.len(),
                forall|k: int| 0 <= k < i ==> (#[trigger] self.rays@[k]).wf(),
            decreases self.rays.len() - i,
        {
            if !self.rays[i].is_wf() {
                return false;
            }
            i = i + 1;
        }
        true
    }

    /// The number of screen columns that a surface `width` pixels wide gets a
    /// wall drawn in: each that has a ray.
    pub open spec fn columns(&self, width: int) -> int {
        if width <= self.rays@.len() {
            width
        } else {
            self.rays@.len() as int
        }
    }
}

/// What the viewer at `origin` sees through screen column `column`.
pub open spec fn column_hit(grid: &Grid, origin: Point, projection: &Projection, column: int)
    -> RayHit {
    cast_result(
        grid,
        origin.x as int,
        origin.y as int,
        projection.rays@[column],
        projection.max_steps as int,
        false,
    )
}

/// The ink of the walls in the first `columns` screen columns: in each the
/// stripe of what its ray sees.
pub open spec fn walls_ink(
    grid: &Grid,
    origin: Point,
    projection: &Projection,
    textures: &Textures,
    screen_height: int,
    columns: int,
) -> Ink {
    |px: int, py: int|
        if 0 <= px < columns {
            column_ink(
                textures,
                column_hit(grid, origin, projection, px),
                projection.plane as int,
                grid.cell_size as int,
                screen_height,
                px,
            )(px, py)
        } else {
            None
        }
}

/// The ink of the three-dimensional view on a surface of `width` by `height`
/// pixels: sky and ground, over them the walls, and the minimap on top in
/// the lower right corner.
pub open spec fn scene_ink(
    grid: &Grid,
    player: Player,
    projection: &Projection,
    textures: &Textures,
    width: int,
    height: int,
) -> Ink {
    layered(
        layered(
            sky_and_ground_ink(width, height),
            walls_ink(grid, player.pos, projection, textures, height, projection.columns(width)),
        ),
        minimap_ink(
            grid,
            player.pos,
            MINIMAP_SIZE as int,
            width - MINIMAP_SIZE,
            height - MINIMAP_SIZE,
        ),
    )
}

/// Draws the three-dimensional view: sky and ground, then for each screen
/// column the wall that its ray sees, then the minimap.
pub fn render3d(
    fb: &mut Framebuffer,
    player: &Player,
    grid: &Grid,
    textures: &Textures,
    projection: &Projection,
)
    requires
        grid.wf(),
        textures.wf(),
        projection.wf(),
    ensures
        final(fb).width == old(fb).width,
        final(fb).height == old(fb).height,
        final(fb).buffer@ == painted(
            old(fb).buffer@,
            old(fb).width as int,
            old(fb).height as int,
            scene_ink(
                grid,
                *player,
                projection,
                textures,
                old(fb).width as int,
                old(fb).height as int,
            ),
        ),
        final(final(fb).buffer)@ == final(old(fb).buffer)@,
{
    let ghost before = fb.buffer@;
    let ghost w = fb.width as int;
    let ghost h = fb.height as int;
    fb.draw_sky_and_ground();
    let ghost base = fb.buffer@;
    let columns = if fb.width <= projection.rays.len() {
        fb.width
    } else {
        projection.rays.len()
    };
    proof {
        lemma_painted_nothing(base, w, h, walls_ink(grid, player.pos, projection, textures, h, 0));
    }
    let mut i: usize = 0;
    while i < columns
        invariant
            grid.wf(),
            textures.wf(),
            projection.wf(),
            0 <= i <= columns,
            columns == projection.columns(w),
            fb.width == w,
            fb.height == h,
            fb.buffer@ == painted(
                base,
                w,
                h,
                walls_ink(grid, player.pos, projection, textures, h, i as int),
            ),
            final(fb.buffer)@ == final(old(fb).buffer)@,
        decreases columns - i,
    {
        let hit = cast(
            grid,
            player.pos.x,
            player.pos.y,
            &projection.rays[i],
            projection.max_steps,
            false,
        );
        draw_wall_column(fb, i, &hit, projection.plane, grid.cell_size, textures);
        proof {
            let done = walls_ink(grid, player.pos, projection, textures, h, i as int);
            let stripe = column_ink(
                textures,
                hit,
                projection.plane as int,
                grid.cell_size as int,
                h,
                i as int,
            );
            lemma_painted_twice(base, w, h, done, stripe);
            lemma_painted_same(
                base,
                w,
                h,
                layered(done, stripe),
                walls_ink(grid, player.pos, projection, textures, h, i + 1),
            );
        }
        i = i + 1;
    }
    render_minimap(fb, player, grid, MINIMAP_SIZE);
    proof {
        let sky = sky_and_ground_ink(w, h);
        let walls = walls_ink(grid, player.pos, projection, textures, h, columns as int);
        let map = minimap_ink(
            grid,
            player.pos,
            MINIMAP_SIZE as int,
            w - MINIMAP_SIZE,
            h - MINIMAP_SIZE,
        );
        lemma_painted_twice(before, w, h, sky, walls);
        lemma_painted_twice(before, w, h, layered(sky, walls), map);
    }
}

/// A column whose ray stays inside the grid, passes `n` cells that do not
/// stop it and then stands in a solid one, shows that cell: at a distance
/// that is finite and no longer than the ray, and as long where the ray's
/// cosine to the viewing direction is one. Farther off than `EPSILON` the
/// cell gets a stripe inside the screen, centered where it covers a row.
pub proof fn law_view_sees_wall(
    grid: &Grid,
    origin: Point,
    projection: &Projection,
    screen_height: int,
    column: int,
    n: int,
    kind: CellKind,
)
    requires
        grid.wf(),
        projection.wf(),
        0 <= screen_height <= usize::MAX,
        0 <= column < projection.rays@.len(),
        0 <= n <= projection.max_steps,
        forall|j: int|
            0 <= j < n ==> !#[trigger] halts(
                grid,
                origin.x as int,
                origin.y as int,
                projection.rays@[column],
                false,
                j,
            ),
        grid.kind_at_point(
            projection.rays@[column].at(origin.x as int, origin.y as int, n).0,
            projection.rays@[column].at(origin.x as int, origin.y as int, n).1,
        ) == Some(kind),
        kind.wall_like(),
    ensures
        ({
            let hit = column_hit(grid, origin, projection, column);
            let ray = projection.rays@[column];
            let stripe = stripe_of(
                hit,
                projection.plane as int,
                grid.cell_size as int,
                screen_height,
            );
            &&& hit.cell_kind == kind
            &&& !hit.is_miss()
            &&& hit.distance == n * ray.cos_offset
            &&& hit.distance <= raw_length(n)
            &&& ray.cos_offset == ONE ==> hit.distance == raw_length(n)
            &&& hit.distance > EPSILON ==> stripe is Some && stripe.unwrap().top
                <= stripe.unwrap().bottom <= screen_height && (stripe.unwrap().top
                < stripe.unwrap().bottom ==> stripe.unwrap().top + stripe.unwrap().bottom
                == screen_height)
        }),
{
    let ray = projection.rays@[column];
    assert(ray.wf());
    law_cast_reaches_wall(
        grid,
        origin.x as int,
        origin.y as int,
        ray,
        projection.max_steps as int,
        false,
        n,
        kind,
    );
    lemma_fisheye(n, ray.cos_offset as int);
    let hit = column_hit(grid, origin, projection, column);
    if hit.distance > EPSILON {
        law_stripe_centered(hit, projection.plane as int, grid.cell_size as int, screen_height);
    }
}

/// A column whose ray no solid cell stops within the steps it may march, or
/// whose ray leaves the grid before one does, shows nothing: its ray reports
/// a miss, and no row of the column gets a wall's color.
pub proof fn law_view_misses(
    grid: &Grid,
    origin: Point,
    projection: &Projection,
    textures: &Textures,
    screen_height: int,
    columns: int,
    column: int,
    n: int,
)
    requires
        grid.wf(),
        projection.wf(),
        0 <= column < projection.rays@.len(),
        0 <= n <= projection.max_steps + 1,
        forall|j: int|
            0 <= j < n ==> !#[trigger] halts(
                grid,
                origin.x as int,
                origin.y as int,
                projection.rays@[column],
                false,
                j,
            ),
        n == projection.max_steps + 1 || grid.kind_at_point(
            projection.rays@[column].at(origin.x as int, origin.y as int, n).0,
            projection.rays@[column].at(origin.x as int, origin.y as int, n).1,
        ) is None,
    ensures
        column_hit(grid, origin, projection, column) == RayHit::miss(),
        forall|py: int|
            (#[trigger] walls_ink(grid, origin, projection, textures, screen_height, columns)(
                column,
                py,
            )) is None,
{
    let ray = projection.rays@[column];
    assert(ray.wf());
    law_cast_gives_up(
        grid,
        origin.x as int,
        origin.y as int,
        ray,
        projection.max_steps as int,
        false,
        n,
    );
}

/// The tint of a picture: at each pixel its own color there.
pub open spec fn picture_tint(image: DynamicImage) -> Tint {
    |px: int, py: int| image_texels(image)[(px, py)]
}

/// The ink of a picture laid on a surface corner to corner: of a picture of
/// integer samples its pixels, of one of float samples nothing.
pub open spec fn picture_ink(image: DynamicImage) -> Ink {
    if image_float(image) {
        |px: int, py: int| None
    } else {
        region_ink(
            0,
            image_width(image) as int,
            0,
            image_height(image) as int,
            picture_tint(image),
        )
    }
}

/// Draws a picture onto the surface, corner to corner; what does not fit is
/// left out. A picture that keeps its samples as floats is not drawn, and
/// the result says so.
pub fn render_image(fb: &mut Framebuffer, image: &DynamicImage) -> (drawn: bool)
    ensures
        drawn == !image_float(*image),
        final(fb).width == old(fb).width,
        final(fb).height == old(fb).height,
        final(fb).buffer@ == painted(
            old(fb).buffer@,
            old(fb).width as int,
            old(fb).height as int,
            picture_ink(*image),
        ),
        final(final(fb).buffer)@ == final(old(fb).buffer)@,
{
    let ghost before = fb.buffer@;
    let ghost w = fb.width as int;
    let ghost h = fb.height as int;
    let ghost tint = picture_tint(*image);
    if image_has_float_samples(image) {
        proof {
            lemma_painted_nothing(before, w, h, picture_ink(*image));
        }
        return false;
    }
    let image_w = image.width();
    let image_h = image.height();
    let x1: u32 = if (image_w as u64) < fb.width as u64 {
        image_w
    } else {
        fb.width as u32
    };
    let y1: u32 = if (image_h as u64) < fb.height as u64 {
        image_h
    } else {
        fb.height as u32
    };
    proof {
        lemma_sweep_begin(before, w, h, 0, x1 as int, 0, tint);
    }
    let mut y: u32 = 0;
    while y < y1
        invariant
            0 <= y <= y1 <= image_h,
            y1 <= h,
            x1 <= image_w,
            x1 <= w,
            !image_float(*image),
            image_w == image_width(*image),
            image_h == image_height(*image),
            tint == picture_tint(*image),
            fb.width == w,
            fb.height == h,
            fb.buffer@ == painted(before, w, h, sweep_ink(0, x1 as int, 0, y as int, 0, tint)),
            final(fb.buffer)@ == final(old(fb).buffer)@,
        decreases y1 - y,
    {
        let mut x: u32 = 0;
        while x < x1
            invariant
                0 <= y < y1 <= image_h,
                y1 <= h,
                0 <= x <= x1 <= image_w,
                x1 <= w,
                !image_float(*image),
                image_w == image_width(*image),
                image_h == image_height(*image),
                tint == picture_tint(*image),
                fb.width == w,
                fb.height == h,
                fb.buffer@ == painted(
                    before,
                    w,
                    h,
                    sweep_ink(0, x1 as int, 0, y as int, x as int, tint),
                ),
                final(fb.buffer)@ == final(old(fb).buffer)@,
            decreases x1 - x,
        {
            let texel = image_get_pixel(image, x, y);
            fb.point(x as usize, y as usize, texel);
            proof {
                lemma_sweep_step(before, w, h, 0, x1 as int, 0, y as int, x as int, tint);
            }
            x = x + 1;
        }
        proof {
            lemma_sweep_row(before, w, h, 0, x1 as int, 0, y as int, tint);
        }
        y = y + 1;
    }
    proof {
        lemma_sweep_end(before, w, h, 0, x1 as int, 0, y1 as int, tint);
        lemma_painted_same(
            before,
            w,
            h,
            region_ink(0, x1 as int, 0, y1 as int, tint),
            picture_ink(*image),
        );
    }
    true
}

/// The color of a cell on the map: for solid cells and for collectibles the
/// first texel of their texture, for the floor and the spawn marker a color
/// of their own.
pub open spec fn map_color(textures: &Textures, kind: CellKind) -> [u8; 4] {
    match kind {
        CellKind::Empty => FLOOR_COLOR,
        CellKind::SpawnMarker => MARKER_COLOR,
        CellKind::Collectible => textures.collectible.color_at(0, 0),
        _ => textures.wall.color_at(0, 0),
    }
}

/// The ink of the cell number `n` of the grid, counted row by row, on a map
/// drawn one pixel to the world unit.
pub open spec fn map_cell_ink(grid: &Grid, textures: &Textures, n: int) -> Ink {
    let row = n / grid.cols();
    let col = n % grid.cols();
    rect_ink(
        col * grid.cell_size,
        row * grid.cell_size,
        grid.cell_size as int,
        grid.cell_size as int,
        map_color(textures, grid.kind(row, col)),
    )
}

/// The inks of the first `n` cells of the grid, counted row by row.
pub open spec fn map_inks(grid: &Grid, textures: &Textures, n: int) -> Seq<Ink> {
    Seq::new(n as nat, |k: int| map_cell_ink(grid, textures, k))
}

/// The inks of the paths of the first `n` rays of a projection, each
/// marched until a cell that is not empty stops it.
pub open spec fn ray_inks(grid: &Grid, origin: Point, projection: &Projection, n: int) -> Seq<Ink> {
    Seq::new(
        n as nat,
        |i: int|
            trace_ink(
                grid,
                origin.x as int,
                origin.y as int,
                projection.rays@[i],
                projection.max_steps as int,
                true,
                RAY_COLOR,
            ),
    )
}

/// The ink of the view from above: the cells of the grid, and over them the
/// paths of the rays.
pub open spec fn topdown_ink(
    grid: &Grid,
    player: Player,
    projection: &Projection,
    textures: &Textures,
) -> Ink {
    layered(
        stacked(map_inks(grid, textures, grid.rows() * grid.cols())),
        stacked(ray_inks(grid, player.pos, projection, projection.rays@.len() as int)),
    )
}

/// Fills the square of `side` pixels whose corner is `(x, y)`, where the
/// surface can have such pixels.
fn fill_square(fb: &mut Framebuffer, x: u64, y: u64, side: usize, color: [u8; 4])
    ensures
        final(fb).width == old(fb).width,
        final(fb).height == old(fb).height,
        final(fb).buffer@ == painted(
            old(fb).buffer@,
            old(fb).width as int,
            old(fb).height as int,
            rect_ink(x as int, y as int, side as int, side as int, color),
        ),
        final(final(fb).buffer)@ == final(old(fb).buffer)@,
{
    if x < fb.width as u64 && y < fb.height as u64 {
        fb.draw_rect(x as usize, y as usize, side, side, color);
    } else {
        proof {
            lemma_painted_nothing(
                fb.buffer@,
                fb.width as int,
                fb.height as int,
                rect_ink(x as int, y as int, side as int, side as int, color),
            );
        }
    }
}

/// Draws the view from above, one pixel to the world unit: every cell of the
/// grid as a square in the color of its kind, then the path of every ray of
/// the projection up to the first cell that is not empty.
pub fn render2d(
    fb: &mut Framebuffer,
    player: &Player,
    grid: &Grid,
    textures: &Textures,
    projection: &Projection,
)
    requires
        grid.wf(),
        textures.wf(),
        projection.wf(),
    ensures
        final(fb).width == old(fb).width,
        final(fb).height == old(fb).height,
        final(fb).buffer@ == painted(
            old(fb).buffer@,
            old(fb).width as int,
            old(fb).height as int,
            topdown_ink(grid, *player, projection, textures),
        ),
        final(final(fb).buffer)@ == final(old(fb).buffer)@,
{
    let ghost before = fb.buffer@;
    let ghost w = fb.width as int;
    let ghost h = fb.height as int;
    let rows = grid.num_rows();
    let cols = grid.num_cols();
    let side = grid.cell_size;
    let wall_color = textures.wall.get_pixel_color(0, 0);
    let collectible_color = textures.collectible.get_pixel_color(0, 0);
    proof {
        grid.lemma_extent();
        lemma_painted_nothing(before, w, h, stacked(map_inks(grid, textures, 0)));
    }
    let mut row: usize = 0;
    while row < rows
        invariant
            grid.wf(),
            rows == grid.rows(),
            cols == grid.cols(),
            side == grid.cell_size,
            cols > 0,
            0 <= row <= rows,
            wall_color == textures.wall.color_at(0, 0),
            collectible_color == textures.collectible.color_at(0, 0),
            fb.width == w,
            fb.height == h,
            fb.buffer@ == painted(before, w, h, stacked(map_inks(grid, textures, row * cols))),
            final(fb.buffer)@ == final(old(fb).buffer)@,
        decreases rows - row,
    {
        proof {
            grid.lemma_extent();
            assert(row * side <= rows * side) by (nonlinear_arith)
                requires
                    0 <= row <= rows,
                    0 <= side,
            ;
            assert(row * cols + 0 == row * cols);
        }
        let y = (row as u64) * (side as u64);
        let mut col: usize = 0;
        while col < cols
            invariant
                grid.wf(),
                rows == grid.rows(),
                cols == grid.cols(),
                side == grid.cell_size,
                0 <= row < rows,
                0 <= col <= cols,
                y == row * side,
                wall_color == textures.wall.color_at(0, 0),
                collectible_color == textures.collectible.color_at(0, 0),
                fb.width == w,
                fb.height == h,
                fb.buffer@ == painted(
                    before,
                    w,
                    h,
                    stacked(map_inks(grid, textures, row * cols + col)),
                ),
                final(fb.buffer)@ == final(old(fb).buffer)@,
            decreases cols - col,
        {
            let kind = match grid.kind_at(row, col) {
                Some(kind) => kind,
                None => CellKind::Empty,
            };
            let color = match kind {
                CellKind::Empty => FLOOR_COLOR,
                CellKind::SpawnMarker => MARKER_COLOR,
                CellKind::Collectible => collectible_color,
                _ => wall_color,
            };
            proof {
                grid.lemma_extent();
                assert(col * side <= cols * side) by (nonlinear_arith)
                    requires
                        0 <= col <= cols,
                        0 <= side,
                ;
            }
            let x = (col as u64) * (side as u64);
            fill_square(fb, x, y, side, color);
            proof {
                let n = row * cols + col;
                vstd::arithmetic::div_mod::lemma_fundamental_div_mod_converse(
                    n,
                    cols as int,
                    row as int,
                    col as int,
                );
                let done = map_inks(grid, textures, n);
                let top = map_cell_ink(grid, textures, n);
                lemma_painted_stack_push(before, w, h, done, top);
                assert(done.push(top) =~= map_inks(grid, textures, n + 1));
            }
            col = col + 1;
        }
        proof {
            assert(row * cols + cols == (row + 1) * cols) by (nonlinear_arith);
        }
        row = row + 1;
    }
    let ghost map = fb.buffer@;
    proof {
        lemma_painted_nothing(map, w, h, stacked(ray_inks(grid, player.pos, projection, 0)));
    }
    let mut i: usize = 0;
    while i < projection.rays.len()
        invariant
            grid.wf(),
            projection.wf(),
            0 <= i <= projection.rays@.len(),
            fb.width == w,
            fb.height == h,
            fb.buffer@ == painted(
                map,
                w,
                h,
                stacked(ray_inks(grid, player.pos, projection, i as int)),
            ),
            final(fb.buffer)@ == final(old(fb).buffer)@,
        decreases projection.rays@.len() - i,
    {
        trace(
            fb,
            grid,
            player.pos.x,
            player.pos.y,
            &projection.rays[i],
            projection.max_steps,
            true,
            RAY_COLOR,
        );
        proof {
            let done = ray_inks(grid, player.pos, projection, i as int);
            let top = trace_ink(
                grid,
                player.pos.x as int,
                player.pos.y as int,
                projection.rays@[i as int],
                projection.max_steps as int,
                true,
                RAY_COLOR,
            );
            lemma_painted_stack_push(map, w, h, done, top);
            assert(done.push(top) =~= ray_inks(grid, player.pos, projection, i + 1));
        }
        i = i + 1;
    }
    proof {
        lemma_painted_twice(
            before,
            w,
            h,
            stacked(map_inks(grid, textures, rows * cols)),
            stacked(ray_inks(grid, player.pos, projection, projection.rays@.len() as int)),
        );
    }
}

/// Draws rasterized text onto the surface, as `Framebuffer::draw_text` does.
pub fn render_text(fb: &mut Framebuffer, glyphs: &Vec<GlyphPixel>)
    ensures
        final(fb).width == old(fb).width,
        final(fb).height == old(fb).height,
        final(fb).buffer@ == painted(
            old(fb).buffer@,
            old(fb).width as int,
            old(fb).height as int,
            stacked(
                glyph_inks(
                    glyphs@,
                    old(fb).width as int,
                    old(fb).height as int,
                    glyphs@.len() as int,
                ),
            ),
        ),
        final(final(fb).buffer)@ == final(old(fb).buffer)@,
{
    fb.draw_text(glyphs);
}

} // verus!
