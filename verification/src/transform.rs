use vstd::prelude::*;

use crate::angle::{
    add_angles, angle_add, angle_neg, angle_sub, angle_wf, cos_fp, cos_of, lemma_trig_bounds,
    lemma_trig_quarter, neg_angle, sin_fp, sin_of, sub_angles, QUARTER_TURN, TRIG_ONE,
};
use crate::{abs_i, div_by, div_trunc};

verus! {

// Lengths are integers in milli-units (one unit of the arena is 1000).
// Scale factors are integers in per-mille (an unscaled axis is SCALE_ONE).

pub const SCALE_ONE: i64 = 1_000;

/// Widest coordinate magnitude a well-formed pose may carry.
pub const COORD_LIMIT: i64 = 100_000_000;

/// Widest scale magnitude a well-formed pose may carry.
pub const SCALE_LIMIT: i64 = 1_000_000;

#[derive(Clone, Copy, Debug, PartialEq, Eq, Structural)]
pub struct Vec2 {
    pub x: i64,
    pub y: i64,
}

/// A 2D pose: position, rotation and per-axis scale.
#[derive(Clone, Copy, Debug, PartialEq, Eq, Structural)]
pub struct Transform {
    pub position: Vec2,
    pub rotation: i64,
    pub scale: Vec2,
}

/// The x coordinate of a point rotated about the origin.
pub open spec fn rotate_x(px: int, py: int, a: int) -> int {
    div_trunc(px * cos_of(a) - py * sin_of(a), 1_000_000)
}

/// The y coordinate of a point rotated about the origin.
pub open spec fn rotate_y(px: int, py: int, a: int) -> int {
    div_trunc(px * sin_of(a) + py * cos_of(a), 1_000_000)
}

impl Vec2 {
    pub open spec fn wf(self) -> bool {
        &&& -COORD_LIMIT <= self.x <= COORD_LIMIT
        &&& -COORD_LIMIT <= self.y <= COORD_LIMIT
    }
}

impl Transform {
    /// A well-formed pose: normalized rotation, bounded position,
    /// and nonzero bounded scale on both axes.
    pub open spec fn wf(self) -> bool {
        &&& self.position.wf()
        &&& angle_wf(self.rotation as int)
        &&& self.scale.x != 0 && -SCALE_LIMIT <= self.scale.x <= SCALE_LIMIT
        &&& self.scale.y != 0 && -SCALE_LIMIT <= self.scale.y <= SCALE_LIMIT
    }

    /// The identity pose.
    pub fn new() -> (t: Transform)
        ensures
            t.position.x == 0,
            t.position.y == 0,
            t.rotation == 0,
            t.scale.x == SCALE_ONE,
            t.scale.y == SCALE_ONE,
            t.wf(),
    {
        Transform {
            position: Vec2 { x: 0, y: 0 },
            rotation: 0,
            scale: Vec2 { x: SCALE_ONE, y: SCALE_ONE },
        }
    }

    /// Unit vector (in trig units) pointing along the rotation.
    pub fn forward(&self) -> (v: Vec2)
        requires
            angle_wf(self.rotation as int),
        ensures
            v.x == cos_of(self.rotation as int),
            v.y == sin_of(self.rotation as int),
            -1_000_000 <= v.x <= 1_000_000,
            -1_000_000 <= v.y <= 1_000_000,
    {
        Vec2 { x: cos_fp(self.rotation), y: sin_fp(self.rotation) }
    }

    /// Unit vector (in trig units) pointing against the rotation.
    pub fn back(&self) -> (v: Vec2)
        requires
            angle_wf(self.rotation as int),
        ensures
            v.x == -cos_of(self.rotation as int),
            v.y == -sin_of(self.rotation as int),
            -1_000_000 <= v.x <= 1_000_000,
            -1_000_000 <= v.y <= 1_000_000,
    {
        proof {
            lemma_trig_bounds(self.rotation as int);
        }
        Vec2 { x: -cos_fp(self.rotation), y: -sin_fp(self.rotation) }
    }

    /// Unit vector a quarter turn ahead of the rotation.
    pub fn right(&self) -> (v: Vec2)
        requires
            angle_wf(self.rotation as int),
        ensures
            v.x == cos_of(add_angles(self.rotation as int, 90_000)),
            v.y == sin_of(add_angles(self.rotation as int, 90_000)),
            -1_000_000 <= v.x <= 1_000_000,
            -1_000_000 <= v.y <= 1_000_000,
    {
        let a = angle_add(self.rotation, QUARTER_TURN);
        Vec2 { x: cos_fp(a), y: sin_fp(a) }
    }

    /// Unit vector a quarter turn behind the rotation.
    pub fn left(&self) -> (v: Vec2)
        requires
            angle_wf(self.rotation as int),
        ensures
            v.x == cos_of(sub_angles(self.rotation as int, 90_000)),
            v.y == sin_of(sub_angles(self.rotation as int, 90_000)),
            -1_000_000 <= v.x <= 1_000_000,
            -1_000_000 <= v.y <= 1_000_000,
    {
        let a = angle_sub(self.rotation, QUARTER_TURN);
        Vec2 { x: cos_fp(a), y: sin_fp(a) }
    }

    /// Turns the pose by a normalized angle.
    pub fn rotate(&mut self, rotation: i64)
        requires
            angle_wf(old(self).rotation as int),
            angle_wf(rotation as int),
        ensures
            final(self).rotation == add_angles(old(self).rotation as int, rotation as int),
            final(self).position == old(self).position,
            final(self).scale == old(self).scale,
    {
        self.rotation = angle_add(self.rotation, rotation);
    }

    /// Translates the pose by an offset.
    pub fn move_offset(&mut self, offset: Vec2)
        requires
            -COORD_LIMIT <= old(self).position.x + offset.x <= COORD_LIMIT,
            -COORD_LIMIT <= old(self).position.y + offset.y <= COORD_LIMIT,
            old(self).position.wf(),
        ensures
            final(self).position.x == old(self).position.x + offset.x,
            final(self).position.y == old(self).position.y + offset.y,
            final(self).rotation == old(self).rotation,
            final(self).scale == old(self).scale,
            final(self).position.wf(),
    {
        self.position.x = self.position.x + offset.x;
        self.position.y = self.position.y + offset.y;
    }

    /// Translates the pose along the x axis.
    pub fn move_offset_x(&mut self, offset_x: i64)
        requires
            -COORD_LIMIT <= old(self).position.x + offset_x <= COORD_LIMIT,
            old(self).position.wf(),
        ensures
            final(self).position.x == old(self).position.x + offset_x,
            final(self).position.y == old(self).position.y,
            final(self).rotation == old(self).rotation,
            final(self).scale == old(self).scale,
            final(self).position.wf(),
    {
        self.position.x = self.position.x + offset_x;
    }

    /// Translates the pose along the y axis.
    pub fn move_offset_y(&mut self, offset_y: i64)
        requires
            -COORD_LIMIT <= old(self).position.y + offset_y <= COORD_LIMIT,
            old(self).position.wf(),
        ensures
            final(self).position.y == old(self).position.y + offset_y,
            final(self).position.x == old(self).position.x,
            final(self).rotation == old(self).rotation,
            final(self).scale == old(self).scale,
            final(self).position.wf(),
    {
        self.position.y = self.position.y + offset_y;
    }

    /// Euclidean norm of the position, rounded down to a whole number of
    /// milli-units.
    pub fn magnitude(&self) -> (r: i64)
        requires
            -100_000_000 <= self.position.x <= 100_000_000,
            -100_000_000 <= self.position.y <= 100_000_000,
        ensures
            r >= 0,
            r * r <= self.position.x * self.position.x + self.position.y * self.position.y,
            (r + 1) * (r + 1) > self.position.x * self.position.x + self.position.y
                * self.position.y,
    {
        proof {
            assert(0 <= self.position.x * self.position.x <= 10_000_000_000_000_000 && 0
                <= self.position.y * self.position.y
                <= 10_000_000_000_000_000) by (nonlinear_arith)
                requires
                    -100_000_000 <= self.position.x <= 100_000_000,
                    -100_000_000 <= self.position.y <= 100_000_000,
            ;
        }
        isqrt64(self.position.x * self.position.x + self.position.y * self.position.y)
    }

    /// Rotates a point about the origin by a normalized angle.
    pub fn rotate_point(point: Vec2, rotation: i64) -> (r: Vec2)
        requires
            angle_wf(rotation as int),
            -1_000_000_000_000 <= point.x <= 1_000_000_000_000,
            -1_000_000_000_000 <= point.y <= 1_000_000_000_000,
        ensures
            r.x == rotate_x(point.x as int, point.y as int, rotation as int),
            r.y == rotate_y(point.x as int, point.y as int, rotation as int),
    {
        proof {
            lemma_trig_bounds(rotation as int);
        }
        let c = cos_fp(rotation);
        let s = sin_fp(rotation);
        proof {
            assert(-1_000_000_000_000_000_000 <= point.x * c <= 1_000_000_000_000_000_000
                && -1_000_000_000_000_000_000 <= point.y * s <= 1_000_000_000_000_000_000
                && -1_000_000_000_000_000_000 <= point.x * s <= 1_000_000_000_000_000_000
                && -1_000_000_000_000_000_000 <= point.y * c
                <= 1_000_000_000_000_000_000) by (nonlinear_arith)
                requires
                    -1_000_000_000_000 <= point.x <= 1_000_000_000_000,
                    -1_000_000_000_000 <= point.y <= 1_000_000_000_000,
                    -1_000_000 <= c <= 1_000_000,
                    -1_000_000 <= s <= 1_000_000,
            ;
        }
        let rx = div_by(point.x * c - point.y * s, TRIG_ONE);
        let ry = div_by(point.x * s + point.y * c, TRIG_ONE);
        Vec2 { x: rx, y: ry }
    }
}

/// Whole square root, rounded down.
pub fn isqrt64(n: i64) -> (r: i64)
    requires
        0 <= n <= 1_000_000_000_000_000_000,
    ensures
        r >= 0,
        r * r <= n,
        (r + 1) * (r + 1) > n,
{
    let mut lo: i64 = 0;
    let mut hi: i64 = 1_000_000_001;
    proof {
        assert((1_000_000_001int) * (1_000_000_001int) > 1_000_000_000_000_000_000int)
            by (nonlinear_arith);
    }
    while lo + 1 < hi
        invariant
            0 <= lo < hi <= 1_000_000_001,
            lo * lo <= n,
            hi * hi > n,
        decreases hi - lo,
    {
        let mid = lo + (hi - lo) / 2;
        proof {
            assert(lo < mid < hi);
            assert(0 <= mid * mid <= 1_000_000_002_000_000_001) by (nonlinear_arith)
                requires
                    0 <= mid <= 1_000_000_001,
            ;
        }
        if mid * mid <= n {
            lo = mid;
        } else {
            hi = mid;
        }
    }
    proof {
        assert((lo + 1) * (lo + 1) > n);
    }
    lo
}

/// A multiple of the trig unit divides back exactly.
pub proof fn lemma_trig_one_cancel(x: int)
    ensures
        div_trunc(x * 1_000_000, 1_000_000) == x,
{
    if x >= 0 {
        assert(x * 1_000_000 / 1_000_000 == x);
    } else {
        assert(-(x * 1_000_000) == (-x) * 1_000_000);
        assert((-x) * 1_000_000 / 1_000_000 == -x);
    }
}

/// A rotated point is no farther out than the sum of the coordinate
/// magnitudes of the original point.
pub proof fn lemma_rotate_bound(px: int, py: int, a: int)
    requires
        angle_wf(a),
    ensures
        -(abs_i(px) + abs_i(py)) <= rotate_x(px, py, a) <= abs_i(px) + abs_i(py),
        -(abs_i(px) + abs_i(py)) <= rotate_y(px, py, a) <= abs_i(px) + abs_i(py),
{
    lemma_trig_bounds(a);
    let c = cos_of(a);
    let s = sin_of(a);
    let b = abs_i(px) + abs_i(py);
    assert(-(b * 1_000_000) <= px * c - py * s <= b * 1_000_000
        && -(b * 1_000_000) <= px * s + py * c <= b * 1_000_000) by (nonlinear_arith)
        requires
            -1_000_000 <= c <= 1_000_000,
            -1_000_000 <= s <= 1_000_000,
            b == abs_i(px) + abs_i(py),
            abs_i(px) == if px < 0 { -px } else { px },
            abs_i(py) == if py < 0 { -py } else { py },
    ;
    crate::lemma_div_trunc_bound(px * c - py * s, 1_000_000, b);
    crate::lemma_div_trunc_bound(px * s + py * c, 1_000_000, b);
}

/// Rotating by a quarter-turn multiple permutes and negates the
/// coordinates exactly.
pub proof fn lemma_rotate_quarter(px: int, py: int, a: int)
    requires
        angle_wf(a),
        a % 90_000 == 0,
    ensures
        a == 0 ==> rotate_x(px, py, a) == px && rotate_y(px, py, a) == py,
        a == 90_000 ==> rotate_x(px, py, a) == -py && rotate_y(px, py, a) == px,
        a == 180_000 ==> rotate_x(px, py, a) == -px && rotate_y(px, py, a) == -py,
        a == 270_000 ==> rotate_x(px, py, a) == py && rotate_y(px, py, a) == -px,
{
    lemma_trig_quarter(a);
    assert(a == 0 || a == 90_000 || a == 180_000 || a == 270_000);
    if a == 0 {
        assert(px * 1_000_000 - py * 0 == px * 1_000_000);
        assert(px * 0 + py * 1_000_000 == py * 1_000_000);
        lemma_trig_one_cancel(px);
        lemma_trig_one_cancel(py);
    } else if a == 90_000 {
        assert(px * 0 - py * 1_000_000 == (-py) * 1_000_000);
        assert(px * 1_000_000 + py * 0 == px * 1_000_000);
        lemma_trig_one_cancel(-py);
        lemma_trig_one_cancel(px);
    } else if a == 180_000 {
        assert(px * (-1_000_000) - py * 0 == (-px) * 1_000_000);
        assert(px * 0 + py * (-1_000_000) == (-py) * 1_000_000);
        lemma_trig_one_cancel(-px);
        lemma_trig_one_cancel(-py);
    } else {
        assert(px * 0 - py * (-1_000_000) == py * 1_000_000);
        assert(px * (-1_000_000) + py * 0 == (-px) * 1_000_000);
        lemma_trig_one_cancel(py);
        lemma_trig_one_cancel(-px);
    }
}

/// A rotation by a quarter-turn multiple is undone exactly by the
/// opposite rotation.
pub proof fn lemma_rotate_quarter_inverse(px: int, py: int, a: int)
    requires
        angle_wf(a),
        a % 90_000 == 0,
    ensures
        rotate_x(rotate_x(px, py, a), rotate_y(px, py, a), neg_angle(a)) == px,
        rotate_y(rotate_x(px, py, a), rotate_y(px, py, a), neg_angle(a)) == py,
{
    assert(a == 0 || a == 90_000 || a == 180_000 || a == 270_000);
    let rx = rotate_x(px, py, a);
    let ry = rotate_y(px, py, a);
    lemma_rotate_quarter(px, py, a);
    lemma_rotate_quarter(rx, ry, neg_angle(a));
}

} // verus!
