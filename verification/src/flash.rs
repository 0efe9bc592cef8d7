use vstd::prelude::*;

use crate::angle::{add_angles, angle_wf, cos_of};
use crate::node::GameObject;
use crate::transform::Vec2;
use crate::{clamp_i, div_trunc};

verus! {

// The dash ability: a cooldown-gated instantaneous reposition along the
// owner's right vector.

pub const DASH_COOLTIME: i64 = 5_000;

pub const DASH_DISTANCE: i64 = 200_000;

/// How far a dash moves the owner along x, in milli-units: the right
/// vector's x component times the requested direction and the dash
/// distance, brought back from trig units.
pub open spec fn dash_offset_x(rot: int, direction: int, distance: int) -> int {
    div_trunc(cos_of(add_angles(rot, 90_000)) * direction * distance, 1_000_000)
}

#[derive(Clone, Copy, Debug, PartialEq, Eq, Structural)]
pub struct Flash {
    pub cooltime: i64,
    pub cooldown: i64,
    pub distance: i64,
    pub position: Vec2,
    pub is_opponent: bool,
}

impl Flash {
    pub open spec fn wf(self) -> bool {
        &&& 0 < self.cooltime <= 1_000_000
        &&& 0 <= self.cooldown <= self.cooltime
        &&& 0 <= self.distance <= 1_000_000
    }

    /// A fresh ability, off cooldown.
    pub fn new() -> (f: Flash)
        ensures
            f.cooltime == DASH_COOLTIME,
            f.cooldown == 0,
            f.distance == DASH_DISTANCE,
            f.position == (Vec2 { x: 0, y: 0 }),
            !f.is_opponent,
            f.wf(),
    {
        Flash {
            cooltime: DASH_COOLTIME,
            cooldown: 0,
            distance: DASH_DISTANCE,
            position: Vec2 { x: 0, y: 0 },
            is_opponent: false,
        }
    }

    /// Fires the dash: a no-op while the cooldown runs or without a
    /// movement direction; otherwise resets the cooldown to the full
    /// duration and teleports the owner along its right vector.  The
    /// landing spot is kept inside the simulation's coordinate box.
    pub fn use_skill(&mut self, gameobject: &mut GameObject, direction: i64)
        requires
            old(self).wf(),
            -1 <= direction <= 1,
            angle_wf(old(gameobject).transform.rotation as int),
            -10_000_000 <= old(gameobject).transform.position.x <= 10_000_000,
        ensures
            old(self).cooldown > 0 || direction == 0 ==> {
                &&& *final(self) == *old(self)
                &&& *final(gameobject) == *old(gameobject)
            },
            old(self).cooldown == 0 && direction != 0 ==> {
                let o = old(gameobject).transform;
                &&& final(self).cooldown == old(self).cooltime
                &&& final(self).position == old(gameobject).global_transform.position
                &&& final(self).cooltime == old(self).cooltime
                &&& final(self).distance == old(self).distance
                &&& final(self).is_opponent == old(self).is_opponent
                &&& final(gameobject).transform.position.x == clamp_i(
                    o.position.x + dash_offset_x(
                        o.rotation as int,
                        direction as int,
                        old(self).distance as int,
                    ),
                    -10_000_000,
                    10_000_000,
                )
                &&& final(gameobject).transform.position.y == o.position.y
                &&& final(gameobject).transform.rotation == o.rotation
                &&& final(gameobject).transform.scale == o.scale
                &&& final(gameobject).global_transform == old(gameobject).global_transform
            },
            final(self).wf(),
    {
        if self.cooldown > 0 || direction == 0 {
            return ;
        }
        self.cooldown = self.cooltime;
        self.position = gameobject.global_transform.position;
        let right = gameobject.transform.right();
        proof {
            assert(-1_000_000 <= right.x * direction <= 1_000_000 && -1_000_000_000_000_000
                <= right.x * direction * self.distance <= 1_000_000_000_000_000) by (nonlinear_arith)
                requires
                    -1_000_000 <= right.x <= 1_000_000,
                    -1 <= direction <= 1,
                    0 <= self.distance <= 1_000_000,
            ;
        }
        let offset = crate::div_by(right.x * direction * self.distance, 1_000_000);
        proof {
            crate::lemma_div_trunc_bound(
                right.x * direction * self.distance,
                1_000_000,
                1_000_000_000,
            );
        }
        let nx = crate::clamp(
            gameobject.transform.position.x + offset,
            -10_000_000,
            10_000_000,
        );
        gameobject.transform.position.x = nx;
    }

    /// Lets the cooldown run down, never below zero.
    pub fn update(&mut self, dt: i64)
        requires
            old(self).wf(),
            0 <= dt <= 1_000_000,
        ensures
            final(self).cooldown == if old(self).cooldown - dt >= 0 {
                old(self).cooldown - dt
            } else {
                0
            },
            final(self).cooltime == old(self).cooltime,
            final(self).distance == old(self).distance,
            final(self).position == old(self).position,
            final(self).is_opponent == old(self).is_opponent,
            final(self).wf(),
    {
        if self.cooldown - dt >= 0 {
            self.cooldown = self.cooldown - dt;
        } else {
            self.cooldown = 0;
        }
    }
}

} // verus!
