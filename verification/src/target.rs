use vstd::prelude::*;

use crate::angle::{angle_wf, neg_angle};
use crate::node::{
    composed_pos_x, composed_pos_y, composed_rotation, composed_scale_x, composed_scale_y,
    GameObject,
};
use crate::transform::SCALE_ONE;
use crate::{abs_i, clamp_i, div_trunc};

verus! {

// The aim oscillator: a node that sweeps an aim point left and right
// and faces the owner toward it.

pub const AIM_BOUND: i64 = 440_000;

pub const AIM_SPEED: i64 = 800_000;

pub const AIM_VERTICAL: i64 = 580_000;

/// The signed sweep ratio of the aim offset against the fixed vertical
/// distance, in thousandths.
pub open spec fn aim_ratio(dist_x: int) -> int {
    div_trunc(dist_x * 1_000, 580_000)
}

/// Rational arctangent over a nonnegative thousandth ratio, in
/// millidegrees; exact at zero.
pub open spec fn atan_approx(z: int) -> int {
    div_trunc(57_296 * z * 100_000, 100_000_000 + 28 * (z * z))
}

/// The facing angle toward an aim point offset by `dist_x` at the fixed
/// vertical distance, as a normalized angle: ahead for a positive
/// offset, behind a full turn for a negative one.
pub open spec fn facing_of(dist_x: int) -> int {
    let a = atan_approx(aim_ratio(abs_i(dist_x)));
    if dist_x >= 0 {
        a
    } else {
        neg_angle(a)
    }
}

/// Computes the facing angle toward an aim point.
pub fn facing_angle(dist_x: i64) -> (r: i64)
    requires
        -12_000_000 <= dist_x <= 12_000_000,
    ensures
        r == facing_of(dist_x as int),
        angle_wf(r as int),
        dist_x == 0 ==> r == 0,
        dist_x > 0 ==> 0 <= r < 90_000,
        dist_x < 0 ==> r == 0 || 270_000 < r < 360_000,
{
    let d = crate::abs64(dist_x);
    proof {
        crate::lemma_div_trunc_bound(d * 1_000, 580_000, 21_000);
        assert(div_trunc(d as int * 1_000, 580_000) >= 0);
    }
    let z = crate::div_by(d * 1_000, AIM_VERTICAL);
    proof {
        assert(0 <= z * z <= 441_000_000 && 0 <= 57_296 * z * 100_000
            <= 120_321_600_000_000) by (nonlinear_arith)
            requires
                0 <= z <= 21_000,
        ;
        assert(57_296 * z * 100_000 < 89_999 * (100_000_000 + 28 * (z * z))) by (nonlinear_arith)
            requires
                0 <= z <= 21_000,
        ;
        crate::lemma_div_trunc_bound(57_296 * z * 100_000, 100_000_000 + 28 * (z * z), 89_999);
        assert(div_trunc(57_296 * z as int * 100_000, 100_000_000 + 28 * (z as int * z as int))
            >= 0);
        if z == 0 {
            assert(atan_approx(0) == 0);
        }
    }
    let a = crate::div_by(57_296 * z * 100_000, 100_000_000 + 28 * (z * z));
    if dist_x >= 0 {
        a
    } else {
        crate::angle::angle_neg(a)
    }
}

/// The sweep's unclamped advance over one tick.
pub open spec fn sweep_raw(look: int, dir: int, dt: int, speed: int) -> int {
    look + dir * div_trunc(dt * speed, 1_000)
}

/// The aim point after one tick: the advance, stopped exactly at a
/// bound it crosses, with no overshoot carried to the next tick.
pub open spec fn sweep_look(look: int, dir: int, dt: int, speed: int) -> int {
    clamp_i(sweep_raw(look, dir, dt, speed), -AIM_BOUND as int, AIM_BOUND as int)
}

/// The sweep direction after one tick: turned around exactly when the
/// advance crossed a bound, kept otherwise.
pub open spec fn sweep_dir(look: int, dir: int, dt: int, speed: int) -> int {
    let raw = sweep_raw(look, dir, dt, speed);
    if raw > AIM_BOUND as int {
        -1
    } else if raw < -AIM_BOUND as int {
        1
    } else {
        dir
    }
}

/// The aim point after a run of ticks.
pub open spec fn sweep_run_look(look: int, dir: int, dts: Seq<int>, speed: int) -> int
    decreases dts.len(),
{
    if dts.len() == 0 {
        look
    } else {
        sweep_run_look(
            sweep_look(look, dir, dts[0], speed),
            sweep_dir(look, dir, dts[0], speed),
            dts.drop_first(),
            speed,
        )
    }
}

/// The sweep direction after a run of ticks.
pub open spec fn sweep_run_dir(look: int, dir: int, dts: Seq<int>, speed: int) -> int
    decreases dts.len(),
{
    if dts.len() == 0 {
        dir
    } else {
        sweep_run_dir(
            sweep_look(look, dir, dts[0], speed),
            sweep_dir(look, dir, dts[0], speed),
            dts.drop_first(),
            speed,
        )
    }
}

/// How many ticks of a run cross a bound.
pub open spec fn sweep_touches(look: int, dir: int, dts: Seq<int>, speed: int) -> int
    decreases dts.len(),
{
    if dts.len() == 0 {
        0
    } else {
        let raw = sweep_raw(look, dir, dts[0], speed);
        (if raw > AIM_BOUND as int || raw < -AIM_BOUND as int {
            1int
        } else {
            0int
        }) + sweep_touches(
            sweep_look(look, dir, dts[0], speed),
            sweep_dir(look, dir, dts[0], speed),
            dts.drop_first(),
            speed,
        )
    }
}

/// Over any run of nonnegative ticks the aim point never leaves the
/// bound, and the final direction is the starting one flipped once per
/// boundary touch: an even number of touches restores the starting
/// direction, an odd number leaves it flipped.
pub proof fn lemma_sweep_parity(look: int, dir: int, dts: Seq<int>, speed: int)
    requires
        dir == 1 || dir == -1,
        -AIM_BOUND <= look <= AIM_BOUND,
        0 <= speed,
        forall|k: int| 0 <= k < dts.len() ==> 0 <= #[trigger] dts[k],
    ensures
        -AIM_BOUND <= sweep_run_look(look, dir, dts, speed) <= AIM_BOUND,
        0 <= sweep_touches(look, dir, dts, speed),
        sweep_run_dir(look, dir, dts, speed) == if sweep_touches(look, dir, dts, speed) % 2 == 0 {
            dir
        } else {
            -dir
        },
    decreases dts.len(),
{
    if dts.len() > 0 {
        let raw = sweep_raw(look, dir, dts[0], speed);
        let l1 = sweep_look(look, dir, dts[0], speed);
        let d1 = sweep_dir(look, dir, dts[0], speed);
        assert(0 <= dts[0] * speed) by (nonlinear_arith)
            requires
                0 <= dts[0],
                0 <= speed,
        ;
        assert(div_trunc(dts[0] * speed, 1_000) >= 0);
        assert(dir == 1 ==> raw >= look);
        assert(dir == -1 ==> raw <= look);
        assert forall|k: int| 0 <= k < dts.drop_first().len() implies 0 <= #[trigger] dts.drop_first()[k] by {
            assert(dts.drop_first()[k] == dts[k + 1]);
        }
        lemma_sweep_parity(l1, d1, dts.drop_first(), speed);
    }
}

/// The aim oscillator: sweeps `look_at_x` inside the fixed bound and
/// faces its node toward the aim point.
pub struct Target {
    pub gameobject: GameObject,
    pub speed: i64,
    pub direction: i64,
    pub look_at_x: i64,
}

impl Target {
    pub open spec fn wf(self) -> bool {
        &&& self.direction == 1 || self.direction == -1
        &&& 0 <= self.speed <= 1_000_000
        &&& -AIM_BOUND <= self.look_at_x <= AIM_BOUND
    }

    /// A fresh oscillator at the center, sweeping ahead.
    pub fn new() -> (t: Target)
        ensures
            t.gameobject.global_transform == t.gameobject.transform,
            t.gameobject.transform.position.x == 0,
            t.gameobject.transform.position.y == 0,
            t.gameobject.transform.rotation == 0,
            t.gameobject.transform.scale.x == SCALE_ONE,
            t.gameobject.transform.scale.y == SCALE_ONE,
            t.direction == 1,
            t.speed == AIM_SPEED,
            t.look_at_x == 0,
            t.wf(),
    {
        Target { gameobject: GameObject::new(), direction: 1, speed: AIM_SPEED, look_at_x: 0 }
    }

    /// The node's current local facing.
    pub fn get_rotation(&self) -> (r: i64)
        ensures
            r == self.gameobject.transform.rotation,
    {
        self.gameobject.transform.rotation
    }

    /// Advances the sweep by the elapsed time: the aim point moves with
    /// the current direction and speed, stops exactly at a bound it
    /// crosses, and turns around there; then the node is faced toward
    /// the aim point and its global pose is refreshed from the owner's.
    pub fn update(&mut self, dt: i64, owner: &GameObject)
        requires
            old(self).wf(),
            0 <= dt <= 100_000,
            -10_000_000 <= owner.transform.position.x <= 10_000_000,
            -10_000_000 <= owner.transform.position.y <= 10_000_000,
            angle_wf(owner.global_transform.rotation as int),
            owner.global_transform.scale.x == SCALE_ONE,
            owner.global_transform.scale.y == SCALE_ONE,
            -100_000_000 <= owner.global_transform.position.x <= 100_000_000,
            -100_000_000 <= owner.global_transform.position.y <= 100_000_000,
            old(self).gameobject.transform.scale.x == SCALE_ONE,
            old(self).gameobject.transform.scale.y == SCALE_ONE,
            -10_000_000 <= old(self).gameobject.transform.position.x <= 10_000_000,
            -10_000_000 <= old(self).gameobject.transform.position.y <= 10_000_000,
        ensures
            ({
                let look = old(self).look_at_x as int;
                let dir = old(self).direction as int;
                let speed = old(self).speed as int;
                &&& final(self).look_at_x == sweep_look(look, dir, dt as int, speed)
                &&& final(self).direction == sweep_dir(look, dir, dt as int, speed)
                &&& -AIM_BOUND <= final(self).look_at_x <= AIM_BOUND
                &&& final(self).speed == old(self).speed
            }),
            ({
                let off = if owner.transform.position.y > 0 {
                    1int
                } else {
                    -1int
                };
                let dist = off * (final(self).look_at_x - owner.transform.position.x);
                let l = final(self).gameobject.transform;
                &&& l.rotation == facing_of(dist)
                &&& angle_wf(l.rotation as int)
                &&& l.position == old(self).gameobject.transform.position
                &&& l.scale == old(self).gameobject.transform.scale
            }),
            ({
                let g = final(self).gameobject.global_transform;
                let p = owner.global_transform;
                let l = final(self).gameobject.transform;
                &&& g.rotation == composed_rotation(p, l)
                &&& g.scale.x == composed_scale_x(p, l)
                &&& g.scale.y == composed_scale_y(p, l)
                &&& g.position.x == composed_pos_x(p, l)
                &&& g.position.y == composed_pos_y(p, l)
            }),
            final(self).wf(),
    {
        proof {
            assert(0 <= dt * self.speed <= 100_000_000_000) by (nonlinear_arith)
                requires
                    0 <= dt <= 100_000,
                    0 <= self.speed <= 1_000_000,
            ;
        }
        let step = crate::div_by(dt * self.speed, 1_000);
        proof {
            crate::lemma_div_trunc_bound(dt * self.speed, 1_000, 100_000_000);
        }
        let delta: i64 = if self.direction == 1 {
            step
        } else {
            -step
        };
        let raw = self.look_at_x + delta;
        if raw > AIM_BOUND {
            self.direction = -1;
            self.look_at_x = AIM_BOUND;
        } else if raw < -AIM_BOUND {
            self.direction = 1;
            self.look_at_x = -AIM_BOUND;
        } else {
            self.look_at_x = raw;
        }
        let diff = self.look_at_x - owner.transform.position.x;
        let dist_x: i64 = if owner.transform.position.y > 0 {
            diff
        } else {
            -diff
        };
        let rot = facing_angle(dist_x);
        self.gameobject.transform.rotation = rot;
        proof {
            crate::node::lemma_unit_compose(owner.global_transform, self.gameobject.transform);
        }
        self.gameobject.update_global_transform(Some(&owner.global_transform));
    }
}

} // verus!
