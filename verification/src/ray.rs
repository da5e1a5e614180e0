use vstd::prelude::*;
use crate::fixed::ONE;
use crate::framebuffer::Framebuffer;
use crate::framebuffer::Ink;
use crate::framebuffer::painted;
use crate::framebuffer::dot_ink;
use crate::framebuffer::stacked;
use crate::framebuffer::lemma_painted_nothing;
use crate::framebuffer::lemma_painted_stack_push;
use crate::grid::CellKind;
use crate::grid::Grid;

verus! {

/// The distance that a ray reports when it struck nothing.
pub const NO_HIT_DISTANCE: u64 = 0xffff_ffff_ffff_ffff;

/// One ray of a view: the step it takes along each axis for one world unit
/// of its length (the cosine and the sine of its angle), and the cosine of
/// the angle between it and the direction the viewer faces. All three are
/// fixed-point numbers.
#[derive(Clone, Copy, Debug, PartialEq, Eq, Structural)]
pub struct Ray {
    pub dx: i64,
    pub dy: i64,
    pub cos_offset: i64,
}

impl Ray {
    /// A ray is well formed when its steps are no longer than one world unit
    /// and it points into the half plane in front of the viewer.
    pub open spec fn wf(&self) -> bool {
        &&& -ONE <= self.dx <= ONE
        &&& -ONE <= self.dy <= ONE
        &&& 0 <= self.cos_offset <= ONE
    }

    /// Whether the ray is well formed.
    pub fn is_wf(&self) -> (r: bool)
        ensures
            r == self.wf(),
    {
        -ONE <= self.dx && self.dx <= ONE && -ONE <= self.dy && self.dy <= ONE && 0
            <= self.cos_offset && self.cos_offset <= ONE
    }

    /// Makes a ray, if the three numbers are those of a well-formed one.
    pub fn new(dx: i64, dy: i64, cos_offset: i64) -> (r: Option<Ray>)
        ensures
            r == (if (Ray { dx, dy, cos_offset }).wf() {
                Some(Ray { dx, dy, cos_offset })
            } else {
                None
            }),
    {
        let ray = Ray { dx, dy, cos_offset };
        if ray.is_wf() {
            Some(ray)
        } else {
            None
        }
    }

    /// The point that the ray from `(x0, y0)` has reached after `k` steps.
    pub open spec fn at(&self, x0: int, y0: int, k: int) -> (int, int) {
        (x0 + k * self.dx, y0 + k * self.dy)
    }
}

/// What one ray saw: how far off along the viewing direction, which kind of
/// cell, and where along the face of that cell, in world units from the
/// face's edge.
#[derive(Clone, Copy, Debug, PartialEq, Eq, Structural)]
pub struct RayHit {
    pub distance: u64,
    pub cell_kind: CellKind,
    pub wall_offset: usize,
}

impl RayHit {
    /// The hit that stands for a ray that struck nothing.
    pub open spec fn miss() -> RayHit {
        RayHit { distance: NO_HIT_DISTANCE, cell_kind: CellKind::Empty, wall_offset: 0 }
    }

    pub open spec fn is_miss(&self) -> bool {
        self.distance == NO_HIT_DISTANCE
    }

    /// Whether the ray struck nothing.
    pub fn missed(&self) -> (r: bool)
        ensures
            r == self.is_miss(),
    {
        self.distance == NO_HIT_DISTANCE
    }
}

/// Whether a ray stops at a cell of this kind: at a solid one, or in the
/// permissive mode at any that is not empty.
pub open spec fn stops_at(kind: CellKind, permissive: bool) -> bool {
    if permissive {
        kind != CellKind::Empty
    } else {
        kind.wall_like()
    }
}

/// The length of a ray corrected for the angle between it and the viewing
/// direction: `raw * cos`.
pub open spec fn fisheye(raw: int, cos_offset: int) -> int {
    raw * cos_offset / (ONE as int)
}

/// The length of a ray of `steps` steps, as a fixed-point number.
pub open spec fn raw_length(steps: int) -> int {
    steps * ONE
}

/// Where along the face of its cell the world point `(x, y)` lies: its
/// distance from the cell's edge along the x axis, unless it is within a
/// world unit of an edge that way, and then its distance along the y axis.
pub open spec fn face_offset(cell_size: int, x: int, y: int) -> int {
    let hx = (x / (ONE as int)) % cell_size;
    let hy = (y / (ONE as int)) % cell_size;
    if 1 < hx && hx < cell_size - 1 {
        hx
    } else {
        hy
    }
}

/// Whether the march of `ray` from `(x0, y0)` ends at step `k`: there it has
/// left the grid or stands in a cell that stops it.
pub open spec fn halts(grid: &Grid, x0: int, y0: int, ray: Ray, permissive: bool, k: int) -> bool {
    match grid.kind_at_point(ray.at(x0, y0, k).0, ray.at(x0, y0, k).1) {
        Some(kind) => stops_at(kind, permissive),
        None => true,
    }
}

/// The first step from `k` up to `limit` at which the march ends, or
/// `limit + 1` if it ends at none of them.
pub open spec fn first_halt(
    grid: &Grid,
    x0: int,
    y0: int,
    ray: Ray,
    permissive: bool,
    k: int,
    limit: int,
) -> int
    decreases limit + 1 - k,
{
    if k > limit {
        limit + 1
    } else if halts(grid, x0, y0, ray, permissive, k) {
        k
    } else {
        first_halt(grid, x0, y0, ray, permissive, k + 1, limit)
    }
}

/// The number of steps that the ray takes before its march ends,
/// `max_steps + 1` if it does not end within `max_steps` steps.
pub open spec fn steps_taken(
    grid: &Grid,
    x0: int,
    y0: int,
    ray: Ray,
    max_steps: int,
    permissive: bool,
) -> int {
    first_halt(grid, x0, y0, ray, permissive, 0, max_steps)
}

/// What the ray from `(x0, y0)` sees: the cell in which its march ends, at
/// the corrected length of the march, or a miss where the march leaves the
/// grid or does not end within `max_steps` steps.
pub open spec fn cast_result(
    grid: &Grid,
    x0: int,
    y0: int,
    ray: Ray,
    max_steps: int,
    permissive: bool,
) -> RayHit {
    let k = steps_taken(grid, x0, y0, ray, max_steps, permissive);
    let (x, y) = ray.at(x0, y0, k);
    if k > max_steps {
        RayHit::miss()
    } else {
        match grid.kind_at_point(x, y) {
            Some(kind) => RayHit {
                distance: fisheye(raw_length(k), ray.cos_offset as int) as u64,
                cell_kind: kind,
                wall_offset: face_offset(grid.cell_size as int, x, y) as usize,
            },
            None => RayHit::miss(),
        }
    }
}

/// Whether a ray stops at a cell of this kind.
pub fn ray_stops_at(kind: CellKind, permissive: bool) -> (r: bool)
    ensures
        r == stops_at(kind, permissive),
{
    if permissive {
        match kind {
            CellKind::Empty => false,
            _ => true,
        }
    } else {
        kind.is_wall_like()
    }
}

/// Corrects the length of a ray of `steps` steps for the angle between the
/// ray and the viewing direction.
pub fn corrected_distance(steps: u32, cos_offset: i64) -> (d: u64)
    requires
        0 <= cos_offset <= ONE,
    ensures
        d == fisheye(raw_length(steps as int), cos_offset as int),
        d <= raw_length(steps as int),
        cos_offset == ONE ==> d == raw_length(steps as int),
{
    proof {
        lemma_fisheye(steps as int, cos_offset as int);
    }
    (steps as u64) * (cos_offset as u64)
}

/// Where along the face of its cell a world point inside the grid lies.
pub fn wall_offset_at(cell_size: usize, x: i64, y: i64) -> (r: usize)
    requires
        cell_size > 0,
        0 <= x,
        0 <= y,
    ensures
        r == face_offset(cell_size as int, x as int, y as int),
        r < cell_size,
{
    let size = cell_size as u64;
    let hx = ((x as u64) / (ONE as u64)) % size;
    let hy = ((y as u64) / (ONE as u64)) % size;
    if 1 < hx && hx + 1 < size {
        hx as usize
    } else {
        hy as usize
    }
}

/// Where a march ended: after how many steps, at which point, and in which
/// kind of cell, if it ended in one.
struct March {
    steps: u64,
    x: i64,
    y: i64,
    kind: Option<CellKind>,
}

/// Marches along the ray from `(x, y)`, one world unit at a time, until a
/// cell stops it, it leaves the grid, or it has gone `max_steps` steps.
fn march(grid: &Grid, x: i64, y: i64, ray: &Ray, max_steps: u32, permissive: bool) -> (end: March)
    requires
        grid.wf(),
        ray.wf(),
    ensures
        end.steps == steps_taken(grid, x as int, y as int, *ray, max_steps as int, permissive),
        end.steps <= max_steps ==> (end.x as int, end.y as int) == ray.at(
            x as int,
            y as int,
            end.steps as int,
        ) && end.kind == grid.kind_at_point(end.x as int, end.y as int),
        end.steps > max_steps ==> end.kind is None,
{
    let mut k: u32 = 0;
    let mut px = x;
    let mut py = y;
    loop
        invariant
            grid.wf(),
            ray.wf(),
            0 <= k <= max_steps,
            (px as int, py as int) == ray.at(x as int, y as int, k as int),
            steps_taken(grid, x as int, y as int, *ray, max_steps as int, permissive)
                == first_halt(
                grid,
                x as int,
                y as int,
                *ray,
                permissive,
                k as int,
                max_steps as int,
            ),
        decreases max_steps - k,
    {
        match grid.kind_at_world(px, py) {
            Some(kind) => {
                if ray_stops_at(kind, permissive) {
                    return March { steps: k as u64, x: px, y: py, kind: Some(kind) };
                }
            },
            None => {
                return March { steps: k as u64, x: px, y: py, kind: None };
            },
        }
        if k == max_steps {
            assert(first_halt(
                grid,
                x as int,
                y as int,
                *ray,
                permissive,
                k + 1,
                max_steps as int,
            ) == max_steps + 1);
            return March { steps: k as u64 + 1, x: px, y: py, kind: None };
        }
        proof {
            grid.lemma_point_inside(px as int, py as int);
            assert((k + 1) * ray.dx == k * ray.dx + ray.dx) by (nonlinear_arith);
            assert((k + 1) * ray.dy == k * ray.dy + ray.dy) by (nonlinear_arith);
        }
        px = px + ray.dx;
        py = py + ray.dy;
        k = k + 1;
    }
}

/// What the march that ended at `end` saw.
fn hit_of(grid: &Grid, x: i64, y: i64, ray: &Ray, max_steps: u32, permissive: bool, end: &March)
    -> (hit: RayHit)
    requires
        grid.wf(),
        ray.wf(),
        end.steps == steps_taken(grid, x as int, y as int, *ray, max_steps as int, permissive),
        end.steps <= max_steps ==> (end.x as int, end.y as int) == ray.at(
            x as int,
            y as int,
            end.steps as int,
        ) && end.kind == grid.kind_at_point(end.x as int, end.y as int),
        end.steps > max_steps ==> end.kind is None,
    ensures
        hit == cast_result(grid, x as int, y as int, *ray, max_steps as int, permissive),
        hit.wall_offset < grid.cell_size,
        !hit.is_miss() ==> hit.distance <= raw_length(max_steps as int),
{
    proof {
        grid.lemma_extent();
        assert(raw_length(max_steps as int) <= 0xffff_ffff * 0x1_0000);
    }
    match end.kind {
        Some(kind) => {
            proof {
                grid.lemma_point_inside(end.x as int, end.y as int);
            }
            RayHit {
                distance: corrected_distance(end.steps as u32, ray.cos_offset),
                cell_kind: kind,
                wall_offset: wall_offset_at(grid.cell_size, end.x, end.y),
            }
        },
        None => RayHit { distance: NO_HIT_DISTANCE, cell_kind: CellKind::Empty, wall_offset: 0 },
    }
}

/// Casts one ray from the world point `(x, y)`: marches along it one world
/// unit at a time and reports the first cell that stops it, or a miss when
/// the ray leaves the grid or has gone `max_steps` steps without being
/// stopped.
pub fn cast(grid: &Grid, x: i64, y: i64, ray: &Ray, max_steps: u32, permissive: bool) -> (hit:
    RayHit)
    requires
        grid.wf(),
        ray.wf(),
    ensures
        hit == cast_result(grid, x as int, y as int, *ray, max_steps as int, permissive),
        hit.wall_offset < grid.cell_size,
        !hit.is_miss() ==> hit.distance <= raw_length(max_steps as int),
{
    let end = march(grid, x, y, ray, max_steps, permissive);
    hit_of(grid, x, y, ray, max_steps, permissive, &end)
}

pub const RAY_COLOR: [u8; 4] = [255, 221, 221, 255];

/// The pixel that the `k`-th point of a ray falls on, on a map drawn one
/// pixel to the world unit.
pub open spec fn sample_pixel(x0: int, y0: int, ray: Ray, k: int) -> (int, int) {
    (ray.at(x0, y0, k).0 / (ONE as int), ray.at(x0, y0, k).1 / (ONE as int))
}

/// The inks of the first `n` points of a ray, a dot each.
pub open spec fn path_inks(x0: int, y0: int, ray: Ray, n: int, color: [u8; 4]) -> Seq<Ink> {
    Seq::new(
        n as nat,
        |k: int| dot_ink(sample_pixel(x0, y0, ray, k).0, sample_pixel(x0, y0, ray, k).1, color),
    )
}

/// The ink of the path of a ray: a dot at each point of its march before the
/// one at which the march ends.
pub open spec fn trace_ink(
    grid: &Grid,
    x0: int,
    y0: int,
    ray: Ray,
    max_steps: int,
    permissive: bool,
    color: [u8; 4],
) -> Ink {
    stacked(
        path_inks(x0, y0, ray, steps_taken(grid, x0, y0, ray, max_steps, permissive), color),
    )
}

/// Sets the pixel `(x, y)`, where the surface can have such a pixel.
fn dot(fb: &mut Framebuffer, x: u64, y: u64, color: [u8; 4])
    ensures
        final(fb).width == old(fb).width,
        final(fb).height == old(fb).height,
        final(fb).buffer@ == painted(
            old(fb).buffer@,
            old(fb).width as int,
            old(fb).height as int,
            dot_ink(x as int, y as int, color),
        ),
        final(final(fb).buffer)@ == final(old(fb).buffer)@,
{
    if x < fb.width as u64 && y < fb.height as u64 {
        fb.point(x as usize, y as usize, color);
    } else {
        proof {
            lemma_painted_nothing(
                fb.buffer@,
                fb.width as int,
                fb.height as int,
                dot_ink(x as int, y as int, color),
            );
        }
    }
}

/// Casts one ray as `cast` does, and draws its path in `color` on a map of
/// the grid drawn one pixel to the world unit.
pub fn trace(
    fb: &mut Framebuffer,
    grid: &Grid,
    x: i64,
    y: i64,
    ray: &Ray,
    max_steps: u32,
    permissive: bool,
    color: [u8; 4],
) -> (hit: RayHit)
    requires
        grid.wf(),
        ray.wf(),
    ensures
        hit == cast_result(grid, x as int, y as int, *ray, max_steps as int, permissive),
        hit.wall_offset < grid.cell_size,
        !hit.is_miss() ==> hit.distance <= raw_length(max_steps as int),
        final(fb).width == old(fb).width,
        final(fb).height == old(fb).height,
        final(fb).buffer@ == painted(
            old(fb).buffer@,
            old(fb).width as int,
            old(fb).height as int,
            trace_ink(grid, x as int, y as int, *ray, max_steps as int, permissive, color),
        ),
        final(final(fb).buffer)@ == final(old(fb).buffer)@,
{
    let ghost before = fb.buffer@;
    let ghost w = fb.width as int;
    let ghost h = fb.height as int;
    let end = march(grid, x, y, ray, max_steps, permissive);
    proof {
        lemma_first_halt(grid, x as int, y as int, *ray, permissive, 0, max_steps as int);
        lemma_painted_nothing(
            before,
            w,
            h,
            stacked(path_inks(x as int, y as int, *ray, 0, color)),
        );
    }
    let mut k: u64 = 0;
    let mut px = x;
    let mut py = y;
    while k < end.steps
        invariant
            grid.wf(),
            ray.wf(),
            0 <= k <= end.steps <= max_steps + 1,
            (px as int, py as int) == ray.at(x as int, y as int, k as int),
            forall|j: int|
                0 <= j < end.steps ==> !#[trigger] halts(
                    grid,
                    x as int,
                    y as int,
                    *ray,
                    permissive,
                    j,
                ),
            fb.width == w,
            fb.height == h,
            fb.buffer@ == painted(
                before,
                w,
                h,
                stacked(path_inks(x as int, y as int, *ray, k as int, color)),
            ),
            final(fb.buffer)@ == final(old(fb).buffer)@,
        decreases end.steps - k,
    {
        proof {
            assert(!halts(grid, x as int, y as int, *ray, permissive, k as int));
            grid.lemma_point_inside(px as int, py as int);
            assert((k + 1) * ray.dx == k * ray.dx + ray.dx) by (nonlinear_arith);
            assert((k + 1) * ray.dy == k * ray.dy + ray.dy) by (nonlinear_arith);
        }
        dot(fb, (px as u64) / (ONE as u64), (py as u64) / (ONE as u64), color);
        proof {
            let done = path_inks(x as int, y as int, *ray, k as int, color);
            let top = dot_ink(
                sample_pixel(x as int, y as int, *ray, k as int).0,
                sample_pixel(x as int, y as int, *ray, k as int).1,
                color,
            );
            lemma_painted_stack_push(before, w, h, done, top);
            assert(done.push(top) =~= path_inks(x as int, y as int, *ray, k + 1, color));
        }
        px = px + ray.dx;
        py = py + ray.dy;
        k = k + 1;
    }
    hit_of(grid, x, y, ray, max_steps, permissive, &end)
}

/// The corrected length of a ray of `steps` steps is `steps * cos_offset`: no
/// longer than the ray, and as long where the ray points straight ahead.
pub proof fn lemma_fisheye(steps: int, cos_offset: int)
    requires
        0 <= steps,
        0 <= cos_offset <= ONE,
    ensures
        fisheye(raw_length(steps), cos_offset) == steps * cos_offset,
        0 <= fisheye(raw_length(steps), cos_offset) <= raw_length(steps),
        cos_offset == ONE ==> fisheye(raw_length(steps), cos_offset) == raw_length(steps),
{
    let one = ONE as int;
    assert(steps * one * cos_offset == (steps * cos_offset) * one) by (nonlinear_arith);
    vstd::arithmetic::div_mod::lemma_div_multiples_vanish(steps * cos_offset, one);
    assert(0 <= steps * cos_offset <= steps * one) by (nonlinear_arith)
        requires
            0 <= steps,
            0 <= cos_offset <= one,
    ;
}

/// `first_halt` is the least step from `k` on at which the march ends.
pub proof fn lemma_first_halt(
    grid: &Grid,
    x0: int,
    y0: int,
    ray: Ray,
    permissive: bool,
    k: int,
    limit: int,
)
    requires
        0 <= k <= limit + 1,
    ensures
        k <= first_halt(grid, x0, y0, ray, permissive, k, limit) <= limit + 1,
        first_halt(grid, x0, y0, ray, permissive, k, limit) <= limit ==> halts(
            grid,
            x0,
            y0,
            ray,
            permissive,
            first_halt(grid, x0, y0, ray, permissive, k, limit),
        ),
        forall|j: int|
            k <= j < first_halt(grid, x0, y0, ray, permissive, k, limit) ==> !#[trigger] halts(
                grid,
                x0,
                y0,
                ray,
                permissive,
                j,
            ),
    decreases limit + 1 - k,
{
    if k <= limit && !halts(grid, x0, y0, ray, permissive, k) {
        lemma_first_halt(grid, x0, y0, ray, permissive, k + 1, limit);
    }
}

/// A ray that stays inside the grid, passes `n` cells that do not stop it and
/// then stands in one that does, reports that cell, at the corrected length
/// of `n` steps: a finite distance.
pub proof fn law_cast_reaches_wall(
    grid: &Grid,
    x0: int,
    y0: int,
    ray: Ray,
    max_steps: int,
    permissive: bool,
    n: int,
    kind: CellKind,
)
    requires
        grid.wf(),
        ray.wf(),
        0 <= n <= max_steps <= u32::MAX,
        forall|j: int| 0 <= j < n ==> !#[trigger] halts(grid, x0, y0, ray, permissive, j),
        grid.kind_at_point(ray.at(x0, y0, n).0, ray.at(x0, y0, n).1) == Some(kind),
        stops_at(kind, permissive),
    ensures
        steps_taken(grid, x0, y0, ray, max_steps, permissive) == n,
        cast_result(grid, x0, y0, ray, max_steps, permissive).cell_kind == kind,
        cast_result(grid, x0, y0, ray, max_steps, permissive).distance == n * ray.cos_offset,
        cast_result(grid, x0, y0, ray, max_steps, permissive).wall_offset < grid.cell_size,
        !cast_result(grid, x0, y0, ray, max_steps, permissive).is_miss(),
{
    lemma_first_halt(grid, x0, y0, ray, permissive, 0, max_steps);
    let k = steps_taken(grid, x0, y0, ray, max_steps, permissive);
    assert(halts(grid, x0, y0, ray, permissive, n));
    if k < n {
        assert(halts(grid, x0, y0, ray, permissive, k));
    }
    lemma_fisheye(n, ray.cos_offset as int);
    assert(n * ray.cos_offset <= 0xffff_ffff * 0x1_0000) by (nonlinear_arith)
        requires
            0 <= n <= 0xffff_ffff,
            0 <= ray.cos_offset <= 0x1_0000,
    ;
    grid.lemma_point_inside(ray.at(x0, y0, n).0, ray.at(x0, y0, n).1);
    grid.lemma_extent();
    lemma_face_offset(grid.cell_size as int, ray.at(x0, y0, n).0, ray.at(x0, y0, n).1);
}

/// A ray that no cell stops within `max_steps` steps, or that leaves the
/// grid before one does, reports a miss.
pub proof fn law_cast_gives_up(
    grid: &Grid,
    x0: int,
    y0: int,
    ray: Ray,
    max_steps: int,
    permissive: bool,
    n: int,
)
    requires
        grid.wf(),
        ray.wf(),
        0 <= n <= max_steps + 1,
        forall|j: int| 0 <= j < n ==> !#[trigger] halts(grid, x0, y0, ray, permissive, j),
        n == max_steps + 1 || grid.kind_at_point(ray.at(x0, y0, n).0, ray.at(x0, y0, n).1)
            is None,
    ensures
        cast_result(grid, x0, y0, ray, max_steps, permissive) == RayHit::miss(),
{
    lemma_first_halt(grid, x0, y0, ray, permissive, 0, max_steps);
    let k = steps_taken(grid, x0, y0, ray, max_steps, permissive);
    if k < n {
        assert(halts(grid, x0, y0, ray, permissive, k));
    }
    if n <= max_steps {
        assert(halts(grid, x0, y0, ray, permissive, n));
    }
}

/// A ray cast straight ahead, whose cosine to the viewing direction is one,
/// reports the length of its march uncorrected; any other reports no more
/// than that length.
pub proof fn law_fisheye_correction(
    grid: &Grid,
    x0: int,
    y0: int,
    ray: Ray,
    max_steps: int,
    permissive: bool,
)
    requires
        grid.wf(),
        ray.wf(),
        0 <= max_steps <= u32::MAX,
        !cast_result(grid, x0, y0, ray, max_steps, permissive).is_miss(),
    ensures
        cast_result(grid, x0, y0, ray, max_steps, permissive).distance <= raw_length(
            steps_taken(grid, x0, y0, ray, max_steps, permissive),
        ),
        ray.cos_offset == ONE ==> cast_result(grid, x0, y0, ray, max_steps, permissive).distance
            == raw_length(steps_taken(grid, x0, y0, ray, max_steps, permissive)),
{
    lemma_first_halt(grid, x0, y0, ray, permissive, 0, max_steps);
    let k = steps_taken(grid, x0, y0, ray, max_steps, permissive);
    lemma_fisheye(k, ray.cos_offset as int);
    assert(k * ray.cos_offset <= 0xffff_ffff * 0x1_0000) by (nonlinear_arith)
        requires
            0 <= k <= 0xffff_ffff,
            0 <= ray.cos_offset <= 0x1_0000,
    ;
}

/// The place of a point along the face of its cell is less than the cell's
/// size.
pub proof fn lemma_face_offset(cell_size: int, x: int, y: int)
    requires
        cell_size > 0,
    ensures
        0 <= face_offset(cell_size, x, y) < cell_size,
{
}

} // verus!
