use vstd::prelude::*;
use crate::fixed::saturated;
use crate::fixed::saturate;

verus! {

/// A point of the world, in fixed-point coordinates.
#[derive(Clone, Copy, Debug, PartialEq, Eq, Structural)]
pub struct Point {
    pub x: i64,
    pub y: i64,
}

/// The viewer: where it stands, the angle it faces and the angle its view
/// spans, both in fixed-point radians.
#[derive(Clone, Copy, Debug, PartialEq, Eq, Structural)]
pub struct Player {
    pub pos: Point,
    pub a: i64,
    pub fov: i64,
}

/// The angle of the ray through column `column` of `columns`, for a viewer
/// that faces `a` with a field of view `fov`: the view spans from
/// `a - fov / 2` to `a + fov / 2`.
pub open spec fn ray_angle_of(a: int, fov: int, column: int, columns: int) -> int {
    a - fov / 2 + fov * column / columns
}

/// The angle from the direction `a` to the direction `bearing`:
/// `bearing - a`, kept within the number type.
pub open spec fn relative_angle(a: int, bearing: int) -> int {
    saturated(bearing - a)
}

/// The angle by which the viewer turns at a time: a tenth of a half turn.
pub const TURN_STEP: i64 = 20589;

/// How far the viewer walks at a time, in world units.
pub const MOVE_STEP: i64 = 10;

/// The point `MOVE_STEP` world units from `pos` along the heading
/// `(dx, dy)`, or against it, kept within the number type.
pub open spec fn stepped(pos: Point, dx: int, dy: int, forward: bool) -> Point {
    if forward {
        Point {
            x: saturated(pos.x + MOVE_STEP * dx) as i64,
            y: saturated(pos.y + MOVE_STEP * dy) as i64,
        }
    } else {
        Point {
            x: saturated(pos.x - MOVE_STEP * dx) as i64,
            y: saturated(pos.y - MOVE_STEP * dy) as i64,
        }
    }
}

impl Player {
    pub fn new(pos: Point, a: i64, fov: i64) -> (player: Self)
        ensures
            player == (Player { pos, a, fov }),
    {
        Self { pos, a, fov }
    }

    /// The angle of the ray through column `column` of `columns`, unless
    /// there is no such column or the angle does not fit the number type.
    pub fn ray_angle(&self, column: usize, columns: usize) -> (r: Option<i64>)
        ensures
            r == (if column <= columns && 0 < columns && i64::MIN <= ray_angle_of(
                self.a as int,
                self.fov as int,
                column as int,
                columns as int,
            ) <= i64::MAX {
                Some(
                    ray_angle_of(self.a as int, self.fov as int, column as int, columns as int)
                        as i64,
                )
            } else {
                None
            }),
    {
        if columns == 0 || column > columns {
            return None;
        }
        proof {
            lemma_share_bounds(self.fov as int, column as int, columns as int);
        }
        let half = match self.fov.checked_div_euclid(2) {
            Some(v) => v,
            None => { return None; },
        };
        let sweep = (self.fov as i128) * (column as i128);
        let part = match sweep.checked_div_euclid(columns as i128) {
            Some(v) => v,
            None => { return None; },
        };
        let angle = self.a as i128 - half as i128 + part;
        if angle < i64::MIN as i128 || angle > i64::MAX as i128 {
            None
        } else {
            Some(angle as i64)
        }
    }

    /// The angle from the direction the viewer faces to the direction
    /// `bearing`, kept within the number type.
    pub fn angle_to(&self, bearing: i64) -> (r: i64)
        ensures
            r == relative_angle(self.a as int, bearing as int),
    {
        saturate(bearing as i128 - self.a as i128)
    }

    /// Turns the viewer by `TURN_STEP`: to the left, to the right, or, asked
    /// for both, not at all.
    pub fn turn(&mut self, left: bool, right: bool)
        ensures
            final(self).pos == old(self).pos,
            final(self).fov == old(self).fov,
            final(self).a == saturated(
                saturated(
                    old(self).a - (if left {
                        TURN_STEP as int
                    } else {
                        0
                    }),
                ) + (if right {
                    TURN_STEP as int
                } else {
                    0
                }),
            ),
    {
        if left {
            self.a = saturate(self.a as i128 - TURN_STEP as i128);
        }
        if right {
            self.a = saturate(self.a as i128 + TURN_STEP as i128);
        }
    }

    /// Where the viewer comes to stand when it walks along the heading
    /// `(dx, dy)`, the cosine and the sine of the angle it faces, or against
    /// it.
    pub fn target(&self, dx: i64, dy: i64, forward: bool) -> (r: Point)
        ensures
            r == stepped(self.pos, dx as int, dy as int, forward),
    {
        let sx = MOVE_STEP as i128 * dx as i128;
        let sy = MOVE_STEP as i128 * dy as i128;
        if forward {
            Point { x: saturate(self.pos.x as i128 + sx), y: saturate(self.pos.y as i128 + sy) }
        } else {
            Point { x: saturate(self.pos.x as i128 - sx), y: saturate(self.pos.y as i128 - sy) }
        }
    }

    /// Walks the viewer along the heading if `up` is set, then against it if
    /// `down` is set, whatever stands in the way.
    pub fn advance(&mut self, up: bool, down: bool, dx: i64, dy: i64)
        ensures
            final(self).a == old(self).a,
            final(self).fov == old(self).fov,
            final(self).pos == ({
                let first = if up {
                    stepped(old(self).pos, dx as int, dy as int, true)
                } else {
                    old(self).pos
                };
                if down {
                    stepped(first, dx as int, dy as int, false)
                } else {
                    first
                }
            }),
    {
        if up {
            self.pos = self.target(dx, dy, true);
        }
        if down {
            self.pos = self.target(dx, dy, false);
        }
    }
}

/// A share `column / columns` of an angle is no larger than the angle.
proof fn lemma_share_bounds(fov: int, column: int, columns: int)
    requires
        0 <= column <= columns,
        0 < columns,
        i64::MIN <= fov <= i64::MAX,
        column <= usize::MAX,
    ensures
        i128::MIN <= fov * column <= i128::MAX,
        -0x8000_0000_0000_0000 <= fov * column / columns <= 0x8000_0000_0000_0000,
{
    assert(-0x8000_0000_0000_0000 * 0xffff_ffff_ffff_ffff <= fov * column
        <= 0x7fff_ffff_ffff_ffff * 0xffff_ffff_ffff_ffff) by (nonlinear_arith)
        requires
            -0x8000_0000_0000_0000 <= fov <= 0x7fff_ffff_ffff_ffff,
            0 <= column <= 0xffff_ffff_ffff_ffff,
    ;
    let q = fov * column / columns;
    vstd::arithmetic::div_mod::lemma_fundamental_div_mod(fov * column, columns);
    let r = (fov * column) % columns;
    assert(-0x8000_0000_0000_0000 <= q <= 0x8000_0000_0000_0000) by (nonlinear_arith)
        requires
            fov * column == columns * q + r,
            0 <= r < columns,
            0 <= column <= columns,
            -0x8000_0000_0000_0000 <= fov <= 0x8000_0000_0000_0000,
    ;
}

} // verus!
