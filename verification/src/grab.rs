use vstd::prelude::*;

use crate::angle::{angle_wf, cos_of, sin_of, sub_angles};
use crate::character::Character;
use crate::node::{
    composed_pos_x, composed_pos_y, composed_rotation, node_ok, root_ok, GameObject, CHILD_GBOUND,
    LOCAL_BOX, OWNER_GBOUND,
};
use crate::transform::{Transform, Vec2, SCALE_ONE};
use crate::{abs_i, clamp_i, div_trunc};

verus! {

// The grab hook: a node parented to its owner that flies out, may catch
// the opposing character, drags it back while retracting, and releases
// it.

pub const GRAB_THRESHOLD: i64 = 580_000;

pub const GRAB_SPEED: i64 = 800_000;

pub const CATCH_RANGE: i64 = 80_000;

/// The three phases of a grab's lifecycle.
#[derive(Clone, Copy, Debug, PartialEq, Eq, Structural)]
pub enum GrabState {
    Idle,
    Thrown,
    Retracting,
}

/// The sign of the hook's travel: outward while thrown, inward while
/// retracting, still while idle.
pub open spec fn grab_sign(s: GrabState) -> int {
    match s {
        GrabState::Idle => 0,
        GrabState::Thrown => 1,
        GrabState::Retracting => -1,
    }
}

/// What one tick may do to the grab state: an idle grab stays idle, a
/// thrown one may fly on, catch, or miss back to idle, a retracting one
/// may pull on or finish.
pub open spec fn grab_step(pre: GrabState, post: GrabState) -> bool {
    match pre {
        GrabState::Idle => post is Idle,
        GrabState::Thrown => true,
        GrabState::Retracting => post is Retracting || post is Idle,
    }
}

/// The hook's local x after one tick of travel, kept inside the box.
pub open spec fn hook_step_x(g: Grab, dt: int) -> int {
    let scalar = grab_sign(g.state) * div_trunc(dt * g.speed, 1_000);
    clamp_i(
        g.gameobject.transform.position.x + div_trunc(
            scalar * cos_of(g.gameobject.transform.rotation as int),
            1_000_000,
        ),
        -LOCAL_BOX as int,
        LOCAL_BOX as int,
    )
}

/// The hook's local y after one tick of travel, kept inside the box.
pub open spec fn hook_step_y(g: Grab, dt: int) -> int {
    let scalar = grab_sign(g.state) * div_trunc(dt * g.speed, 1_000);
    clamp_i(
        g.gameobject.transform.position.y + div_trunc(
            scalar * sin_of(g.gameobject.transform.rotation as int),
            1_000_000,
        ),
        -LOCAL_BOX as int,
        LOCAL_BOX as int,
    )
}

pub struct Grab {
    pub gameobject: GameObject,
    pub threshold: i64,
    pub speed: i64,
    pub state: GrabState,
    pub check_grab_once: bool,
}

impl Grab {
    pub open spec fn wf(self) -> bool {
        &&& 0 < self.threshold <= LOCAL_BOX
        &&& 0 <= self.speed <= 1_000_000
    }

    /// A fresh idle grab with the fixed reach and speed.
    pub fn new() -> (g: Grab)
        ensures
            g.wf(),
            g.state is Idle,
            !g.check_grab_once,
            g.threshold == GRAB_THRESHOLD,
            g.speed == GRAB_SPEED,
            g.gameobject.global_transform == g.gameobject.transform,
            g.gameobject.transform.position.x == 0,
            g.gameobject.transform.position.y == 0,
            g.gameobject.transform.rotation == 0,
            g.gameobject.transform.scale.x == SCALE_ONE,
            g.gameobject.transform.scale.y == SCALE_ONE,
    {
        Grab {
            gameobject: GameObject::new(),
            threshold: GRAB_THRESHOLD,
            speed: GRAB_SPEED,
            state: GrabState::Idle,
            check_grab_once: false,
        }
    }

    /// Whether a throw or retraction is in progress; movement and the
    /// aim sweep are suppressed while it is.
    pub fn is_busy(&self) -> (b: bool)
        ensures
            b == !(self.state is Idle),
    {
        !matches!(self.state, GrabState::Idle)
    }

    /// Points the hook's local pose.
    pub fn set_rotation(&mut self, rotation: i64)
        requires
            angle_wf(rotation as int),
        ensures
            final(self).gameobject.transform.rotation == rotation,
            final(self).gameobject.transform.position == old(self).gameobject.transform.position,
            final(self).gameobject.transform.scale == old(self).gameobject.transform.scale,
            final(self).gameobject.global_transform == old(self).gameobject.global_transform,
            final(self).state == old(self).state,
            final(self).speed == old(self).speed,
            final(self).threshold == old(self).threshold,
            final(self).check_grab_once == old(self).check_grab_once,
    {
        self.gameobject.transform.rotation = rotation;
    }

    /// Places the hook's local pose.
    pub fn set_position(&mut self, position: Vec2)
        requires
            -LOCAL_BOX <= position.x <= LOCAL_BOX,
            -LOCAL_BOX <= position.y <= LOCAL_BOX,
        ensures
            final(self).gameobject.transform.position == position,
            final(self).gameobject.transform.rotation == old(self).gameobject.transform.rotation,
            final(self).gameobject.transform.scale == old(self).gameobject.transform.scale,
            final(self).gameobject.global_transform == old(self).gameobject.global_transform,
            final(self).state == old(self).state,
            final(self).speed == old(self).speed,
            final(self).threshold == old(self).threshold,
            final(self).check_grab_once == old(self).check_grab_once,
    {
        self.gameobject.transform.position = position;
    }

    /// One tick of the hook: it travels along its facing with the sign
    /// of its state, its global pose is refreshed from the owner's, and
    /// the lifecycle advances — a thrown hook past its reach catches a
    /// target within range or falls idle; a retracting hook drags its
    /// catch until it is back at the owner, then reports the catch and
    /// releases the catch into a randomized respawn; an idle hook heals
    /// a stale capture flag by respawning the target.
    #[verifier::rlimit(100)]
    pub fn update(&mut self, dt: i64, owner_global: &Transform, target: &mut Character, root: &Transform)
        requires
            old(self).wf(),
            node_ok(old(self).gameobject, CHILD_GBOUND as int),
            0 <= dt <= 100_000,
            angle_wf(owner_global.rotation as int),
            owner_global.scale.x == SCALE_ONE,
            owner_global.scale.y == SCALE_ONE,
            -OWNER_GBOUND <= owner_global.position.x <= OWNER_GBOUND,
            -OWNER_GBOUND <= owner_global.position.y <= OWNER_GBOUND,
            old(target).wf(),
            root_ok(*root),
        ensures
            final(self).wf(),
            node_ok(final(self).gameobject, CHILD_GBOUND as int),
            final(target).wf(),
            final(self).speed == old(self).speed,
            final(self).threshold == old(self).threshold,
            grab_step(old(self).state, final(self).state),
            final(target).score == old(target).score,
            final(target).move_state == old(target).move_state,
            final(target).grab == old(target).grab,
            final(target).flash == old(target).flash,
            final(target).target == old(target).target,
            ({
                let l = final(self).gameobject.transform;
                &&& l.position.x == hook_step_x(*old(self), dt as int)
                &&& l.position.y == hook_step_y(*old(self), dt as int)
                &&& l.rotation == old(self).gameobject.transform.rotation
                &&& l.scale == old(self).gameobject.transform.scale
            }),
            ({
                let l = final(self).gameobject.transform;
                let g = final(self).gameobject.global_transform;
                &&& g.rotation == composed_rotation(*owner_global, l)
                &&& g.position.x == composed_pos_x(*owner_global, l)
                &&& g.position.y == composed_pos_y(*owner_global, l)
            }),
            ({
                let lx = hook_step_x(*old(self), dt as int);
                let l = final(self).gameobject.transform;
                let hook_gx = composed_pos_x(*owner_global, l);
                let caught = abs_i(
                    old(target).gameobject.global_transform.position.x - hook_gx,
                ) < CATCH_RANGE;
                &&& (old(self).state is Thrown && lx > old(self).threshold && caught) ==> {
                    &&& final(self).state is Retracting
                    &&& final(self).check_grab_once == old(self).check_grab_once
                    &&& final(target).is_grabbed_by
                    &&& final(target).gameobject.global_transform.rotation == sub_angles(
                        composed_rotation(*owner_global, l),
                        180_000,
                    )
                }
                &&& (old(self).state is Thrown && lx > old(self).threshold && !caught) ==> {
                    &&& final(self).state is Idle
                    &&& final(self).check_grab_once == old(self).check_grab_once
                    &&& *final(target) == *old(target)
                }
                &&& (old(self).state is Thrown && lx <= old(self).threshold) ==> {
                    &&& final(self).state is Thrown
                    &&& final(self).check_grab_once == old(self).check_grab_once
                    &&& *final(target) == *old(target)
                }
                &&& (old(self).state is Retracting && lx < 0) ==> {
                    &&& final(self).state is Idle
                    &&& final(self).check_grab_once
                    &&& !final(target).is_grabbed_by
                    &&& (old(target).is_grabbed_by ==> {
                        let respawned = final(target).gameobject.transform;
                        &&& -crate::character::ARENA_HALF <= respawned.position.x
                            < crate::character::ARENA_HALF
                        &&& respawned.position.y == if old(target).is_server != old(
                            target,
                        ).is_opponent {
                            -crate::character::SPAWN_Y as int
                        } else {
                            crate::character::SPAWN_Y as int
                        }
                    })
                    &&& (!old(target).is_grabbed_by ==> *final(target) == *old(target))
                }
                &&& (old(self).state is Retracting && lx >= 0) ==> {
                    &&& final(self).state is Retracting
                    &&& final(self).check_grab_once == old(self).check_grab_once
                    &&& final(target).is_grabbed_by == old(target).is_grabbed_by
                    &&& final(target).gameobject.global_transform.position.x == clamp_i(
                        composed_pos_x(*owner_global, l),
                        -LOCAL_BOX as int,
                        LOCAL_BOX as int,
                    )
                    &&& final(target).gameobject.global_transform.position.y == clamp_i(
                        composed_pos_y(*owner_global, l),
                        -LOCAL_BOX as int,
                        LOCAL_BOX as int,
                    )
                }
                &&& (old(self).state is Idle && old(target).is_grabbed_by) ==> {
                    let respawned = final(target).gameobject.transform;
                    &&& final(self).state is Idle
                    &&& final(self).check_grab_once == old(self).check_grab_once
                    &&& !final(target).is_grabbed_by
                    &&& -crate::character::ARENA_HALF <= respawned.position.x
                        < crate::character::ARENA_HALF
                    &&& respawned.position.y == if old(target).is_server != old(
                        target,
                    ).is_opponent {
                        -crate::character::SPAWN_Y as int
                    } else {
                        crate::character::SPAWN_Y as int
                    }
                }
                &&& (old(self).state is Idle && !old(target).is_grabbed_by) ==> {
                    &&& final(self).state is Idle
                    &&& final(self).check_grab_once == old(self).check_grab_once
                    &&& *final(target) == *old(target)
                }
            }),
    {
        proof {
            assert(0 <= dt * self.speed <= 100_000_000_000) by (nonlinear_arith)
                requires
                    0 <= dt <= 100_000,
                    0 <= self.speed <= 1_000_000,
            ;
        }
        let step = crate::div_by(dt * self.speed, 1_000);
        proof {
            crate::lemma_div_trunc_bound(dt * self.speed, 1_000, 100_000_000);
        }
        let scalar: i64 = match self.state {
            GrabState::Idle => 0,
            GrabState::Thrown => step,
            GrabState::Retracting => -step,
        };
        let fwd = self.gameobject.transform.forward();
        proof {
            assert(-100_000_000_000_000 <= scalar * fwd.x <= 100_000_000_000_000
                && -100_000_000_000_000 <= scalar * fwd.y
                <= 100_000_000_000_000) by (nonlinear_arith)
                requires
                    -100_000_000 <= scalar <= 100_000_000,
                    -1_000_000 <= fwd.x <= 1_000_000,
                    -1_000_000 <= fwd.y <= 1_000_000,
            ;
        }
        let dx = crate::div_by(scalar * fwd.x, 1_000_000);
        let dy = crate::div_by(scalar * fwd.y, 1_000_000);
        proof {
            crate::lemma_div_trunc_bound(scalar * fwd.x, 1_000_000, 100_000_000);
            crate::lemma_div_trunc_bound(scalar * fwd.y, 1_000_000, 100_000_000);
        }
        let px = crate::clamp(self.gameobject.transform.position.x + dx, -LOCAL_BOX, LOCAL_BOX);
        let py = crate::clamp(self.gameobject.transform.position.y + dy, -LOCAL_BOX, LOCAL_BOX);
        self.gameobject.transform.position = Vec2 { x: px, y: py };
        proof {
            assert(px == hook_step_x(*old(self), dt as int));
            assert(py == hook_step_y(*old(self), dt as int));
            crate::node::lemma_unit_compose(*owner_global, self.gameobject.transform);
            crate::transform::lemma_rotate_bound(
                self.gameobject.transform.position.x as int,
                self.gameobject.transform.position.y as int,
                owner_global.rotation as int,
            );
        }
        self.gameobject.update_global_transform(Some(owner_global));

        if matches!(self.state, GrabState::Thrown) && self.gameobject.transform.position.x
            > self.threshold {
            let dist = crate::abs64(
                target.get_global_position().x - self.gameobject.global_transform.position.x,
            );
            if dist < CATCH_RANGE {
                self.state = GrabState::Retracting;
                let back = crate::angle::angle_sub(
                    self.gameobject.global_transform.rotation,
                    crate::angle::HALF_TURN,
                );
                target.set_global_rotation(back, root);
                target.is_grabbed_by = true;
            } else {
                self.state = GrabState::Idle;
            }
        } else if matches!(self.state, GrabState::Retracting) {
            if self.gameobject.transform.position.x < 0 {
                self.state = GrabState::Idle;
                self.check_grab_once = true;
                if target.is_grabbed_by {
                    target.rebirth(true, root);
                }
            } else {
                let pos = self.gameobject.global_transform.position;
                target.set_global_position(pos, root);
            }
        } else if matches!(self.state, GrabState::Idle) && target.is_grabbed_by {
            target.rebirth(true, root);
        }
    }
}

/// The catch flag rises only on the move from `Retracting` to `Idle`,
/// so two completed catches enclose a fresh throw: if a cycle completes
/// right after position `i` and the grab is retracting again at a later
/// position `j`, some strictly intermediate position was `Thrown`.
/// With the owner consuming the flag every tick, the flag is therefore
/// observed at most once per full cycle.
pub proof fn lemma_caught_once_per_cycle(states: Seq<GrabState>, i: int, j: int)
    requires
        forall|k: int|
            0 < k < states.len() ==> grab_step(#[trigger] states[k - 1], states[k]) || (states[k
                - 1] is Idle && states[k] is Thrown),
        0 <= i,
        i + 1 < states.len(),
        i + 1 <= j < states.len(),
        states[i] is Retracting,
        states[i + 1] is Idle,
        states[j] is Retracting,
    ensures
        exists|k: int| i + 1 <= k < j && states[k] is Thrown,
{
    let sub = states.subrange(i + 1, states.len() as int);
    assert forall|k: int| 0 < k < sub.len() implies grab_step(#[trigger] sub[k - 1], sub[k]) || (
    sub[k - 1] is Idle && sub[k] is Thrown) by {
        let idx = i + 1 + k;
        assert(0 < idx < states.len());
        assert(grab_step(states[idx - 1], states[idx]) || (states[idx - 1] is Idle
            && states[idx] is Thrown));
        assert(sub[k - 1] == states[idx - 1]);
        assert(sub[k] == states[idx]);
    }
    assert(sub[j - (i + 1)] == states[j]);
    assert(sub[0] == states[i + 1]);
    lemma_retracting_needs_thrown(sub, j - (i + 1));
    let k0 = choose|k0: int| 0 <= k0 < j - (i + 1) && sub[k0] is Thrown;
    assert(sub[k0] == states[i + 1 + k0]);
    assert(i + 1 <= i + 1 + k0 < j && states[i + 1 + k0] is Thrown);
}

/// In any run of grab states in which every move is a tick move or a
/// throw (a throw turns an idle grab into a thrown one), a retracting
/// state is always preceded, strictly earlier, by a thrown one: the
/// lifecycle can only pass through `Thrown` on its way to `Retracting`.
pub proof fn lemma_retracting_needs_thrown(states: Seq<GrabState>, i: int)
    requires
        forall|j: int|
            0 < j < states.len() ==> grab_step(#[trigger] states[j - 1], states[j]) || (states[j
                - 1] is Idle && states[j] is Thrown),
        0 <= i < states.len(),
        states[i] is Retracting,
        !(states[0] is Retracting),
    ensures
        exists|j: int| 0 <= j < i && states[j] is Thrown,
    decreases i,
{
    assert(i > 0);
    let prev = states[i - 1];
    if prev is Thrown {
        assert(0 <= i - 1 < i && states[i - 1] is Thrown);
    } else {
        assert(prev is Retracting);
        lemma_retracting_needs_thrown(states, i - 1);
        let j = choose|j: int| 0 <= j < i - 1 && states[j] is Thrown;
        assert(0 <= j < i && states[j] is Thrown);
    }
}

} // verus!
