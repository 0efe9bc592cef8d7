use vstd::prelude::*;

use crate::angle::angle_wf;
use crate::flash::Flash;
use crate::grab::{Grab, GrabState};
use crate::node::{
    composed_pos_x, composed_pos_y, composed_rotation, decomposed_pos_x, decomposed_pos_y,
    decomposed_rotation, node_global_ok, node_local_ok, root_ok, GameObject, CHILD_GBOUND,
    LOCAL_BOX, OWNER_GBOUND,
};
use crate::target::Target;
use crate::transform::{Transform, Vec2};
use crate::{clamp_i, div_trunc};

verus! {

// A playable character: a scene-graph node plus movement state, score,
// an aim oscillator, a grab hook and a dash ability.

pub const MOVE_SPEED: i64 = 300_000;

pub const ARENA_HALF: i64 = 340_000;

pub const SPAWN_Y: i64 = 290_000;

/// How far a tick of movement carries the character along x, before
/// the arena clamp: elapsed time times movement state and speed, taken
/// along the right vector, zero while the grab is busy.
pub open spec fn move_dx(c: Character, dt: int) -> int {
    if c.grab.state is Idle {
        let scalar = c.move_state * div_trunc(dt * c.move_speed, 1_000);
        div_trunc(
            scalar * crate::angle::cos_of(
                crate::angle::add_angles(c.gameobject.transform.rotation as int, 90_000),
            ),
            1_000_000,
        )
    } else {
        0
    }
}

pub struct Character {
    pub gameobject: GameObject,
    pub is_server: bool,
    pub move_state: i64,
    pub move_speed: i64,
    pub score: i32,
    pub is_opponent: bool,
    pub target: Target,
    pub grab: Grab,
    pub is_grabbed_by: bool,
    pub flash: Flash,
}

/// The keys the simulation reacts to.
#[derive(Clone, Copy, Debug, PartialEq, Eq, Structural)]
pub enum GameKey {
    Left,
    Right,
    Throw,
    Dash,
}

impl Character {
    /// The local half of a character's shape: everything but the derived
    /// global poses.
    pub open spec fn local_ok(self) -> bool {
        &&& self.move_state == -1 || self.move_state == 0 || self.move_state == 1
        &&& 0 <= self.move_speed <= 1_000_000
        &&& node_local_ok(self.gameobject)
        &&& self.target.wf()
        &&& node_local_ok(self.target.gameobject)
        &&& self.grab.wf()
        &&& node_local_ok(self.grab.gameobject)
        &&& self.flash.wf()
    }

    pub open spec fn wf(self) -> bool {
        &&& self.local_ok()
        &&& node_global_ok(self.gameobject, OWNER_GBOUND as int)
        &&& node_global_ok(self.target.gameobject, CHILD_GBOUND as int)
        &&& node_global_ok(self.grab.gameobject, CHILD_GBOUND as int)
    }

    /// A fresh character at the origin, with its aim and grab nodes.
    pub fn new() -> (c: Character)
        ensures
            c.wf(),
            c.move_state == 0,
            c.move_speed == MOVE_SPEED,
            c.score == 0,
            !c.is_opponent,
            !c.is_server,
            !c.is_grabbed_by,
            c.grab.state is Idle,
            !c.grab.check_grab_once,
            c.grab.threshold == crate::grab::GRAB_THRESHOLD,
            c.grab.speed == crate::grab::GRAB_SPEED,
            c.target.look_at_x == 0,
            c.target.direction == 1,
            c.target.speed == crate::target::AIM_SPEED,
            c.flash.cooldown == 0,
            c.flash.cooltime == crate::flash::DASH_COOLTIME,
            c.flash.distance == crate::flash::DASH_DISTANCE,
            c.gameobject.transform.position.x == 0,
            c.gameobject.transform.position.y == 0,
            c.gameobject.transform.rotation == 0,
    {
        Character {
            gameobject: GameObject::new(),
            is_server: false,
            move_state: 0,
            move_speed: MOVE_SPEED,
            score: 0,
            is_opponent: false,
            target: Target::new(),
            grab: Grab::new(),
            is_grabbed_by: false,
            flash: Flash::new(),
        }
    }

    /// Respawns the character: x is drawn inside the arena when asked to
    /// randomize and centered otherwise, the side and facing follow the
    /// character's role, the captured flag is cleared, and the global
    /// pose is refreshed against the given root.
    pub fn rebirth(&mut self, randomize: bool, root: &Transform)
        requires
            old(self).wf(),
            root_ok(*root),
        ensures
            final(self).wf(),
            randomize ==> -ARENA_HALF <= final(self).gameobject.transform.position.x < ARENA_HALF,
            !randomize ==> final(self).gameobject.transform.position.x == 0,
            final(self).gameobject.transform.position.y == if old(self).is_server
                != old(self).is_opponent {
                -SPAWN_Y as int
            } else {
                SPAWN_Y as int
            },
            final(self).gameobject.transform.rotation == if old(self).is_server != old(
                self,
            ).is_opponent {
                90_000int
            } else {
                270_000int
            },
            !final(self).is_grabbed_by,
            ({
                let g = final(self).gameobject.global_transform;
                let l = final(self).gameobject.transform;
                &&& g.rotation == composed_rotation(*root, l)
                &&& g.position.x == composed_pos_x(*root, l)
                &&& g.position.y == composed_pos_y(*root, l)
            }),
            final(self).score == old(self).score,
            final(self).move_state == old(self).move_state,
            final(self).grab == old(self).grab,
            final(self).target == old(self).target,
            final(self).flash == old(self).flash,
            final(self).is_server == old(self).is_server,
            final(self).is_opponent == old(self).is_opponent,
    {
        let x: i64 = if randomize {
            let mut rng = crate::rng::fresh_rng();
            crate::rng::gen_range_i64(&mut rng, -ARENA_HALF, ARENA_HALF)
        } else {
            0
        };
        let y: i64 = if self.is_server != self.is_opponent {
            -SPAWN_Y
        } else {
            SPAWN_Y
        };
        let rot: i64 = if self.is_server != self.is_opponent {
            90_000
        } else {
            270_000
        };
        self.gameobject.transform.position = Vec2 { x, y };
        self.gameobject.transform.rotation = rot;
        proof {
            crate::node::lemma_unit_compose(*root, self.gameobject.transform);
            crate::transform::lemma_rotate_bound(
                self.gameobject.transform.position.x as int,
                self.gameobject.transform.position.y as int,
                root.rotation as int,
            );
        }
        self.gameobject.update_global_transform(Some(root));
        self.is_grabbed_by = false;
    }

    /// Overwrites the global rotation (as the capturing grab does) and
    /// rederives the local pose from it, kept inside the local box.
    pub fn set_global_rotation(&mut self, rotation: i64, root: &Transform)
        requires
            old(self).wf(),
            root_ok(*root),
            angle_wf(rotation as int),
        ensures
            final(self).wf(),
            final(self).gameobject.global_transform.rotation == rotation,
            final(self).gameobject.global_transform.position == old(
                self,
            ).gameobject.global_transform.position,
            ({
                let g = final(self).gameobject.global_transform;
                let l = final(self).gameobject.transform;
                &&& l.rotation == decomposed_rotation(*root, rotation as int)
                &&& l.position.x == clamp_i(
                    decomposed_pos_x(*root, g.position.x as int, g.position.y as int, 1_000),
                    -LOCAL_BOX as int,
                    LOCAL_BOX as int,
                )
                &&& l.position.y == clamp_i(
                    decomposed_pos_y(*root, g.position.x as int, g.position.y as int, 1_000),
                    -LOCAL_BOX as int,
                    LOCAL_BOX as int,
                )
            }),
            final(self).score == old(self).score,
            final(self).is_grabbed_by == old(self).is_grabbed_by,
            final(self).move_state == old(self).move_state,
            final(self).grab == old(self).grab,
            final(self).target == old(self).target,
            final(self).flash == old(self).flash,
    {
        self.gameobject.global_transform.rotation = rotation;
        proof {
            crate::transform::lemma_rotate_bound(
                self.gameobject.global_transform.position.x - root.position.x,
                self.gameobject.global_transform.position.y - root.position.y,
                crate::angle::neg_angle(root.rotation as int),
            );
        }
        self.gameobject.update_local_transform(Some(root));
        proof {
            crate::lemma_div_trunc_cancel(
                crate::transform::rotate_x(
                    self.gameobject.global_transform.position.x - root.position.x,
                    self.gameobject.global_transform.position.y - root.position.y,
                    crate::angle::neg_angle(root.rotation as int),
                ),
                1_000,
            );
            crate::lemma_div_trunc_cancel(
                crate::transform::rotate_y(
                    self.gameobject.global_transform.position.x - root.position.x,
                    self.gameobject.global_transform.position.y - root.position.y,
                    crate::angle::neg_angle(root.rotation as int),
                ),
                1_000,
            );
        }
        let px = crate::clamp(self.gameobject.transform.position.x, -LOCAL_BOX, LOCAL_BOX);
        let py = crate::clamp(self.gameobject.transform.position.y, -LOCAL_BOX, LOCAL_BOX);
        self.gameobject.transform.position = Vec2 { x: px, y: py };
    }

    /// Overwrites the global position (as the retracting grab does while
    /// dragging its catch), kept inside the local box, and rederives the
    /// local pose from the new global pose.
    pub fn set_global_position(&mut self, position: Vec2, root: &Transform)
        requires
            old(self).wf(),
            root_ok(*root),
        ensures
            final(self).wf(),
            final(self).gameobject.global_transform.position.x == clamp_i(
                position.x as int,
                -LOCAL_BOX as int,
                LOCAL_BOX as int,
            ),
            final(self).gameobject.global_transform.position.y == clamp_i(
                position.y as int,
                -LOCAL_BOX as int,
                LOCAL_BOX as int,
            ),
            final(self).gameobject.global_transform.rotation == old(
                self,
            ).gameobject.global_transform.rotation,
            ({
                let g = final(self).gameobject.global_transform;
                let l = final(self).gameobject.transform;
                &&& l.rotation == decomposed_rotation(*root, g.rotation as int)
                &&& l.position.x == clamp_i(
                    decomposed_pos_x(*root, g.position.x as int, g.position.y as int, 1_000),
                    -LOCAL_BOX as int,
                    LOCAL_BOX as int,
                )
                &&& l.position.y == clamp_i(
                    decomposed_pos_y(*root, g.position.x as int, g.position.y as int, 1_000),
                    -LOCAL_BOX as int,
                    LOCAL_BOX as int,
                )
            }),
            final(self).score == old(self).score,
            final(self).is_grabbed_by == old(self).is_grabbed_by,
            final(self).move_state == old(self).move_state,
            final(self).grab == old(self).grab,
            final(self).target == old(self).target,
            final(self).flash == old(self).flash,
    {
        let gx = crate::clamp(position.x, -LOCAL_BOX, LOCAL_BOX);
        let gy = crate::clamp(position.y, -LOCAL_BOX, LOCAL_BOX);
        self.gameobject.global_transform.position = Vec2 { x: gx, y: gy };
        proof {
            crate::transform::lemma_rotate_bound(
                self.gameobject.global_transform.position.x - root.position.x,
                self.gameobject.global_transform.position.y - root.position.y,
                crate::angle::neg_angle(root.rotation as int),
            );
        }
        self.gameobject.update_local_transform(Some(root));
        proof {
            crate::lemma_div_trunc_cancel(
                crate::transform::rotate_x(
                    self.gameobject.global_transform.position.x - root.position.x,
                    self.gameobject.global_transform.position.y - root.position.y,
                    crate::angle::neg_angle(root.rotation as int),
                ),
                1_000,
            );
            crate::lemma_div_trunc_cancel(
                crate::transform::rotate_y(
                    self.gameobject.global_transform.position.x - root.position.x,
                    self.gameobject.global_transform.position.y - root.position.y,
                    crate::angle::neg_angle(root.rotation as int),
                ),
                1_000,
            );
        }
        let lx = crate::clamp(self.gameobject.transform.position.x, -LOCAL_BOX, LOCAL_BOX);
        let ly = crate::clamp(self.gameobject.transform.position.y, -LOCAL_BOX, LOCAL_BOX);
        self.gameobject.transform.position = Vec2 { x: lx, y: ly };
    }

    /// Rederives the three global poses — the character's from the root,
    /// then the aim and hook nodes' from the character's — after the
    /// local poses changed, as when a received frame was applied.
    pub fn refresh_globals(&mut self, root: &Transform)
        requires
            old(self).local_ok(),
            root_ok(*root),
        ensures
            final(self).wf(),
            ({
                let g = final(self).gameobject.global_transform;
                let l = old(self).gameobject.transform;
                &&& g.rotation == composed_rotation(*root, l)
                &&& g.position.x == composed_pos_x(*root, l)
                &&& g.position.y == composed_pos_y(*root, l)
            }),
            ({
                let p = final(self).gameobject.global_transform;
                let g = final(self).target.gameobject.global_transform;
                let l = old(self).target.gameobject.transform;
                &&& g.rotation == composed_rotation(p, l)
                &&& g.position.x == composed_pos_x(p, l)
                &&& g.position.y == composed_pos_y(p, l)
            }),
            ({
                let p = final(self).gameobject.global_transform;
                let g = final(self).grab.gameobject.global_transform;
                let l = old(self).grab.gameobject.transform;
                &&& g.rotation == composed_rotation(p, l)
                &&& g.position.x == composed_pos_x(p, l)
                &&& g.position.y == composed_pos_y(p, l)
            }),
            final(self).gameobject.transform == old(self).gameobject.transform,
            final(self).target.gameobject.transform == old(self).target.gameobject.transform,
            final(self).grab.gameobject.transform == old(self).grab.gameobject.transform,
            final(self).move_state == old(self).move_state,
            final(self).score == old(self).score,
            final(self).target.look_at_x == old(self).target.look_at_x,
            final(self).target.direction == old(self).target.direction,
            final(self).target.speed == old(self).target.speed,
            final(self).grab.state == old(self).grab.state,
            final(self).grab.speed == old(self).grab.speed,
            final(self).grab.check_grab_once == old(self).grab.check_grab_once,
            final(self).is_grabbed_by == old(self).is_grabbed_by,
            final(self).flash == old(self).flash,
            final(self).is_server == old(self).is_server,
            final(self).is_opponent == old(self).is_opponent,
    {
        proof {
            crate::node::lemma_unit_compose(*root, self.gameobject.transform);
            crate::transform::lemma_rotate_bound(
                self.gameobject.transform.position.x as int,
                self.gameobject.transform.position.y as int,
                root.rotation as int,
            );
        }
        self.gameobject.update_global_transform(Some(root));
        let owner_global = self.gameobject.global_transform;
        proof {
            crate::node::lemma_unit_compose(owner_global, self.target.gameobject.transform);
            crate::transform::lemma_rotate_bound(
                self.target.gameobject.transform.position.x as int,
                self.target.gameobject.transform.position.y as int,
                owner_global.rotation as int,
            );
            crate::node::lemma_unit_compose(owner_global, self.grab.gameobject.transform);
            crate::transform::lemma_rotate_bound(
                self.grab.gameobject.transform.position.x as int,
                self.grab.gameobject.transform.position.y as int,
                owner_global.rotation as int,
            );
        }
        self.target.gameobject.update_global_transform(Some(&owner_global));
        self.grab.gameobject.update_global_transform(Some(&owner_global));
    }

    /// The node's current global position.
    pub fn get_global_position(&self) -> (p: Vec2)
        ensures
            p == self.gameobject.global_transform.position,
    {
        self.gameobject.global_transform.position
    }

    /// One simulation tick.  A free character moves along its right
    /// vector (suppressed while its grab is busy), is clamped to the
    /// arena, banks a completed catch into its score, and updates its
    /// aim and its grab against the opponent; a captured character only
    /// has its motion and grab forced to neutral.  The dash cooldown
    /// always runs down.
    #[verifier::rlimit(60)]
    pub fn update(&mut self, dt: i64, root: &Transform, opponent: &mut Character)
        requires
            old(self).wf(),
            old(opponent).wf(),
            0 <= dt <= 100_000,
            root_ok(*root),
        ensures
            final(self).wf(),
            final(opponent).wf(),
            final(self).is_grabbed_by == old(self).is_grabbed_by,
            final(self).is_server == old(self).is_server,
            final(self).is_opponent == old(self).is_opponent,
            final(self).move_speed == old(self).move_speed,
            ({
                let f = final(self).flash;
                let o = old(self).flash;
                f.cooldown == if o.cooldown - dt >= 0 {
                    o.cooldown - dt
                } else {
                    0
                }
            }),
            old(self).is_grabbed_by ==> {
                &&& final(self).grab.state is Idle
                &&& final(self).grab.gameobject == old(self).grab.gameobject
                &&& final(self).grab.check_grab_once == old(self).grab.check_grab_once
                &&& final(self).move_state == 0
                &&& final(self).score == old(self).score
                &&& final(self).gameobject == old(self).gameobject
                &&& final(self).target == old(self).target
                &&& *final(opponent) == *old(opponent)
            },
            !old(self).is_grabbed_by ==> {
                &&& final(self).move_state == old(self).move_state
                &&& final(self).gameobject.transform.position.x == clamp_i(
                    old(self).gameobject.transform.position.x + move_dx(*old(self), dt as int),
                    -ARENA_HALF as int,
                    ARENA_HALF as int,
                )
                &&& final(self).gameobject.transform.position.y == old(
                    self,
                ).gameobject.transform.position.y
                &&& final(self).gameobject.transform.rotation == old(
                    self,
                ).gameobject.transform.rotation
                &&& ({
                    let g = final(self).gameobject.global_transform;
                    let l = final(self).gameobject.transform;
                    &&& g.rotation == composed_rotation(*root, l)
                    &&& g.position.x == composed_pos_x(*root, l)
                    &&& g.position.y == composed_pos_y(*root, l)
                })
                &&& final(self).score == if old(self).grab.check_grab_once {
                    if old(self).score < i32::MAX {
                        old(self).score + 1
                    } else {
                        old(self).score as int
                    }
                } else {
                    old(self).score as int
                }
                &&& final(self).target.speed == if old(self).grab.state is Idle {
                    crate::target::AIM_SPEED as int
                } else {
                    0
                }
                &&& -crate::target::AIM_BOUND <= final(self).target.look_at_x
                    <= crate::target::AIM_BOUND
                &&& crate::grab::grab_step(old(self).grab.state, final(self).grab.state)
                &&& (final(self).grab.check_grab_once ==> old(self).grab.state is Retracting
                    && final(self).grab.state is Idle)
                &&& final(opponent).score == old(opponent).score
                &&& final(opponent).move_state == old(opponent).move_state
                &&& final(opponent).grab == old(opponent).grab
                &&& final(opponent).flash == old(opponent).flash
                &&& final(opponent).target == old(opponent).target
                &&& (final(opponent).is_grabbed_by && !old(opponent).is_grabbed_by) ==> (old(
                    self,
                ).grab.state is Thrown && final(self).grab.state is Retracting)
                &&& (!final(opponent).is_grabbed_by && old(opponent).is_grabbed_by)
                    ==> final(self).grab.state is Idle
            },
    {
        if !self.is_grabbed_by {
            let busy = self.grab.is_busy();
            let scalar: i64 = if busy {
                0
            } else {
                proof {
                    assert(0 <= dt * self.move_speed <= 100_000_000_000) by (nonlinear_arith)
                        requires
                            0 <= dt <= 100_000,
                            0 <= self.move_speed <= 1_000_000,
                    ;
                }
                let step = crate::div_by(dt * self.move_speed, 1_000);
                proof {
                    crate::lemma_div_trunc_bound(dt * self.move_speed, 1_000, 100_000_000);
                }
                if self.move_state == 1 {
                    step
                } else if self.move_state == -1 {
                    -step
                } else {
                    0
                }
            };
            let right = self.gameobject.transform.right();
            proof {
                assert(-100_000_000_000_000 <= scalar * right.x
                    <= 100_000_000_000_000) by (nonlinear_arith)
                    requires
                        -100_000_000 <= scalar <= 100_000_000,
                        -1_000_000 <= right.x <= 1_000_000,
                ;
            }
            let dx = crate::div_by(scalar * right.x, 1_000_000);
            proof {
                crate::lemma_div_trunc_bound(scalar * right.x, 1_000_000, 100_000_000);
            }
            let nx = crate::clamp(
                self.gameobject.transform.position.x + dx,
                -ARENA_HALF,
                ARENA_HALF,
            );
            self.gameobject.transform.position.x = nx;
            proof {
                crate::node::lemma_unit_compose(*root, self.gameobject.transform);
                crate::transform::lemma_rotate_bound(
                    self.gameobject.transform.position.x as int,
                    self.gameobject.transform.position.y as int,
                    root.rotation as int,
                );
            }
            self.gameobject.update_global_transform(Some(root));
            if self.grab.check_grab_once {
                if self.score < i32::MAX {
                    self.score = self.score + 1;
                }
                self.grab.check_grab_once = false;
            }
            self.target.speed = if busy {
                0
            } else {
                crate::target::AIM_SPEED
            };
            self.target.update(dt, &self.gameobject);
            proof {
                crate::node::lemma_unit_compose(
                    self.gameobject.global_transform,
                    self.target.gameobject.transform,
                );
                crate::transform::lemma_rotate_bound(
                    self.target.gameobject.transform.position.x as int,
                    self.target.gameobject.transform.position.y as int,
                    self.gameobject.global_transform.rotation as int,
                );
            }
            let owner_global = self.gameobject.global_transform;
            self.grab.update(dt, &owner_global, opponent, root);
        } else {
            self.grab.state = GrabState::Idle;
            self.move_state = 0;
        }
        self.flash.update(dt);
    }

    /// Reacts to a key going down: a throw arms an idle grab along the
    /// current aim, the held movement keys set the movement state (the
    /// right key wins), and the dash key fires the dash with the fresh
    /// movement state.
    pub fn key_down_event(&mut self, keycode: GameKey, left_pressed: bool, right_pressed: bool)
        requires
            old(self).wf(),
        ensures
            final(self).wf(),
            final(self).move_state == if right_pressed {
                1int
            } else if left_pressed {
                -1int
            } else {
                old(self).move_state as int
            },
            keycode is Throw && old(self).grab.state is Idle ==> {
                let aim = old(self).target.gameobject.transform.rotation as int;
                &&& final(self).grab.state is Thrown
                &&& final(self).grab.gameobject.transform.rotation == aim
                &&& final(self).grab.gameobject.transform.position.x == crate::transform::rotate_x(
                    35_000,
                    60_000,
                    aim,
                )
                &&& final(self).grab.gameobject.transform.position.y == crate::transform::rotate_y(
                    35_000,
                    60_000,
                    aim,
                )
                &&& final(self).grab.check_grab_once == old(self).grab.check_grab_once
            },
            !(keycode is Throw) || !(old(self).grab.state is Idle) ==> final(self).grab == old(
                self,
            ).grab,
            keycode is Dash ==> {
                let dir = if right_pressed {
                    1int
                } else if left_pressed {
                    -1int
                } else {
                    old(self).move_state as int
                };
                &&& (old(self).flash.cooldown > 0 || dir == 0 ==> final(self).flash == old(
                    self,
                ).flash && final(self).gameobject == old(self).gameobject)
                &&& (old(self).flash.cooldown == 0 && dir != 0 ==> final(self).flash.cooldown
                    == old(self).flash.cooltime)
            },
            !(keycode is Dash) ==> final(self).flash == old(self).flash && final(self).gameobject
                == old(self).gameobject,
            final(self).score == old(self).score,
            final(self).is_grabbed_by == old(self).is_grabbed_by,
            final(self).target == old(self).target,
    {
        if matches!(keycode, GameKey::Throw) && self.grab.is_busy() == false {
            let aim = self.target.get_rotation();
            proof {
                crate::transform::lemma_rotate_bound(35_000, 60_000, aim as int);
            }
            let pos = Transform::rotate_point(Vec2 { x: 35_000, y: 60_000 }, aim);
            self.grab.state = GrabState::Thrown;
            self.grab.set_position(pos);
            self.grab.set_rotation(aim);
        }
        if left_pressed {
            self.move_state = -1;
        }
        if right_pressed {
            self.move_state = 1;
        }
        if matches!(keycode, GameKey::Dash) {
            let dir = self.move_state;
            self.flash.use_skill(&mut self.gameobject, dir);
        }
    }

    /// Reacts to a key going up: the movement state is rebuilt from the
    /// movement keys still held (the right key wins), idle otherwise.
    pub fn key_up_event(&mut self, keycode: GameKey, left_pressed: bool, right_pressed: bool)
        requires
            old(self).wf(),
        ensures
            final(self).wf(),
            final(self).move_state == if right_pressed {
                1int
            } else if left_pressed {
                -1int
            } else {
                0int
            },
            final(self).gameobject == old(self).gameobject,
            final(self).grab == old(self).grab,
            final(self).target == old(self).target,
            final(self).flash == old(self).flash,
            final(self).score == old(self).score,
            final(self).is_grabbed_by == old(self).is_grabbed_by,
    {
        self.move_state = 0;
        if left_pressed {
            self.move_state = -1;
        }
        if right_pressed {
            self.move_state = 1;
        }
    }
}

} // verus!
