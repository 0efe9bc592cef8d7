use vstd::prelude::*;

use crate::angle::{add_angles, angle_add, angle_neg, angle_sub, angle_wf, neg_angle, sub_angles};
use crate::transform::{rotate_x, rotate_y, Transform, Vec2, SCALE_ONE};
use crate::{div_trunc, lemma_div_trunc_cancel};

verus! {

// A scene-graph node owns a local pose and the global pose derived from
// it.  A node does not hold a reference to its parent; whoever owns the
// graph resolves the parent and passes its global pose down, which keeps
// the ownership a plain tree.

/// Rotation of the composed (global) pose.
pub open spec fn composed_rotation(p: Transform, l: Transform) -> int {
    add_angles(l.rotation as int, p.rotation as int)
}

/// Scale of the composed pose along x, in per-mille.
pub open spec fn composed_scale_x(p: Transform, l: Transform) -> int {
    div_trunc(l.scale.x * p.scale.x, 1_000)
}

/// Scale of the composed pose along y, in per-mille.
pub open spec fn composed_scale_y(p: Transform, l: Transform) -> int {
    div_trunc(l.scale.y * p.scale.y, 1_000)
}

/// The local position scaled by the composed scale, along x.
pub open spec fn scaled_local_x(p: Transform, l: Transform) -> int {
    div_trunc(l.position.x * composed_scale_x(p, l), 1_000)
}

/// The local position scaled by the composed scale, along y.
pub open spec fn scaled_local_y(p: Transform, l: Transform) -> int {
    div_trunc(l.position.y * composed_scale_y(p, l), 1_000)
}

/// Position of the composed pose along x: the scaled local position,
/// rotated by the parent rotation, translated by the parent position.
pub open spec fn composed_pos_x(p: Transform, l: Transform) -> int {
    p.position.x + rotate_x(scaled_local_x(p, l), scaled_local_y(p, l), p.rotation as int)
}

/// Position of the composed pose along y.
pub open spec fn composed_pos_y(p: Transform, l: Transform) -> int {
    p.position.y + rotate_y(scaled_local_x(p, l), scaled_local_y(p, l), p.rotation as int)
}

/// Rotation of the local pose recovered from a global rotation.
pub open spec fn decomposed_rotation(p: Transform, grot: int) -> int {
    sub_angles(grot, p.rotation as int)
}

/// Local scale recovered from a global scale, in per-mille.
pub open spec fn decomposed_scale(psc: int, gsc: int) -> int {
    div_trunc(gsc * 1_000, psc)
}

/// Local position along x recovered from a global position: the offset
/// from the parent, rotated back by the parent rotation, divided by the
/// recovered local scale.
pub open spec fn decomposed_pos_x(p: Transform, gx: int, gy: int, lsx: int) -> int {
    div_trunc(
        rotate_x(gx - p.position.x, gy - p.position.y, neg_angle(p.rotation as int)) * 1_000,
        lsx,
    )
}

/// Local position along y recovered from a global position.
pub open spec fn decomposed_pos_y(p: Transform, gx: int, gy: int, lsy: int) -> int {
    div_trunc(
        rotate_y(gx - p.position.x, gy - p.position.y, neg_angle(p.rotation as int)) * 1_000,
        lsy,
    )
}

/// A scene-graph node: a local pose and its derived global pose.
#[derive(Clone, Copy, Debug, PartialEq, Eq, Structural)]
pub struct GameObject {
    pub transform: Transform,
    pub global_transform: Transform,
}

impl GameObject {
    /// A node with identity local and global poses.
    pub fn new() -> (o: GameObject)
        ensures
            o.global_transform == o.transform,
            o.transform.position.x == 0,
            o.transform.position.y == 0,
            o.transform.rotation == 0,
            o.transform.scale.x == SCALE_ONE,
            o.transform.scale.y == SCALE_ONE,
    {
        GameObject { transform: Transform::new(), global_transform: Transform::new() }
    }

    /// Recomputes the global pose from the local pose and the parent's
    /// global pose; without a parent the global pose is the local pose.
    pub fn update_global_transform(&mut self, parent: Option<&Transform>)
        requires
            parent matches Some(p) ==> {
                let l = old(self).transform;
                &&& angle_wf(p.rotation as int)
                &&& angle_wf(l.rotation as int)
                &&& -1_000_000_000 <= l.scale.x * p.scale.x <= 1_000_000_000
                &&& -1_000_000_000 <= l.scale.y * p.scale.y <= 1_000_000_000
                &&& -1_000_000_000_000_000 <= l.position.x * composed_scale_x(*p, l)
                    <= 1_000_000_000_000_000
                &&& -1_000_000_000_000_000 <= l.position.y * composed_scale_y(*p, l)
                    <= 1_000_000_000_000_000
                &&& -1_000_000_000 <= p.position.x <= 1_000_000_000
                &&& -1_000_000_000 <= p.position.y <= 1_000_000_000
            },
        ensures
            final(self).transform == old(self).transform,
            parent matches Some(p) ==> {
                let l = old(self).transform;
                let g = final(self).global_transform;
                &&& g.rotation == composed_rotation(*p, l)
                &&& g.scale.x == composed_scale_x(*p, l)
                &&& g.scale.y == composed_scale_y(*p, l)
                &&& g.position.x == composed_pos_x(*p, l)
                &&& g.position.y == composed_pos_y(*p, l)
            },
            parent is None ==> final(self).global_transform == old(self).transform,
    {
        match parent {
            Some(p) => {
                let l = self.transform;
                let rot = angle_add(l.rotation, p.rotation);
                let sx = crate::mul_div(l.scale.x, p.scale.x, 1_000);
                let sy = crate::mul_div(l.scale.y, p.scale.y, 1_000);
                let spx = crate::mul_div(l.position.x, sx, 1_000);
                let spy = crate::mul_div(l.position.y, sy, 1_000);
                proof {
                    crate::lemma_div_trunc_bound(l.position.x * sx, 1_000, 1_000_000_000_000);
                    crate::lemma_div_trunc_bound(l.position.y * sy, 1_000, 1_000_000_000_000);
                }
                let rel = Transform::rotate_point(Vec2 { x: spx, y: spy }, p.rotation);
                proof {
                    crate::transform::lemma_rotate_bound(spx as int, spy as int, p.rotation as int);
                }
                self.global_transform = Transform {
                    position: Vec2 { x: p.position.x + rel.x, y: p.position.y + rel.y },
                    rotation: rot,
                    scale: Vec2 { x: sx, y: sy },
                };
            },
            None => {
                self.global_transform = self.transform;
            },
        }
    }

    /// Recomputes the local pose from the global pose and the parent's
    /// global pose; without a parent the local pose is the global pose.
    pub fn update_local_transform(&mut self, parent: Option<&Transform>)
        requires
            parent matches Some(p) ==> {
                let g = old(self).global_transform;
                &&& angle_wf(p.rotation as int)
                &&& angle_wf(g.rotation as int)
                &&& p.scale.x > 0 && p.scale.y > 0
                &&& 0 <= g.scale.x * 1_000 <= 1_000_000_000
                &&& 0 <= g.scale.y * 1_000 <= 1_000_000_000
                &&& decomposed_scale(p.scale.x as int, g.scale.x as int) > 0
                &&& decomposed_scale(p.scale.y as int, g.scale.y as int) > 0
                &&& -1_000_000_000 <= g.position.x - p.position.x <= 1_000_000_000
                &&& -1_000_000_000 <= g.position.y - p.position.y <= 1_000_000_000
            },
        ensures
            final(self).global_transform == old(self).global_transform,
            parent matches Some(p) ==> {
                let g = old(self).global_transform;
                let l = final(self).transform;
                &&& l.rotation == decomposed_rotation(*p, g.rotation as int)
                &&& l.scale.x == decomposed_scale(p.scale.x as int, g.scale.x as int)
                &&& l.scale.y == decomposed_scale(p.scale.y as int, g.scale.y as int)
                &&& l.position.x == decomposed_pos_x(
                    *p,
                    g.position.x as int,
                    g.position.y as int,
                    l.scale.x as int,
                )
                &&& l.position.y == decomposed_pos_y(
                    *p,
                    g.position.x as int,
                    g.position.y as int,
                    l.scale.y as int,
                )
            },
            parent is None ==> final(self).transform == old(self).global_transform,
    {
        match parent {
            Some(p) => {
                let g = self.global_transform;
                let rot = angle_sub(g.rotation, p.rotation);
                let lsx = crate::div_by(g.scale.x * 1_000, p.scale.x);
                let lsy = crate::div_by(g.scale.y * 1_000, p.scale.y);
                let back = angle_neg(p.rotation);
                let rel = Transform::rotate_point(
                    Vec2 { x: g.position.x - p.position.x, y: g.position.y - p.position.y },
                    back,
                );
                proof {
                    crate::transform::lemma_rotate_bound(
                        g.position.x - p.position.x,
                        g.position.y - p.position.y,
                        back as int,
                    );
                }
                let lpx = crate::div_by(rel.x * 1_000, lsx);
                let lpy = crate::div_by(rel.y * 1_000, lsy);
                self.transform = Transform {
                    position: Vec2 { x: lpx, y: lpy },
                    rotation: rot,
                    scale: Vec2 { x: lsx, y: lsy },
                };
            },
            None => {
                self.transform = self.global_transform;
            },
        }
    }
}

/// Local poses of simulated nodes stay inside this box.
pub const LOCAL_BOX: i64 = 10_000_000;

/// A pose fit to parent the characters: bounded position, normalized
/// rotation, unit scale.
pub open spec fn root_ok(r: Transform) -> bool {
    &&& -1_000_000 <= r.position.x <= 1_000_000
    &&& -1_000_000 <= r.position.y <= 1_000_000
    &&& angle_wf(r.rotation as int)
    &&& r.scale.x == SCALE_ONE
    &&& r.scale.y == SCALE_ONE
}

/// The local half of a simulated node's shape: unit scale, normalized
/// rotation, position in the local box.
pub open spec fn node_local_ok(o: GameObject) -> bool {
    &&& angle_wf(o.transform.rotation as int)
    &&& o.transform.scale.x == SCALE_ONE && o.transform.scale.y == SCALE_ONE
    &&& -LOCAL_BOX <= o.transform.position.x <= LOCAL_BOX
    &&& -LOCAL_BOX <= o.transform.position.y <= LOCAL_BOX
}

/// The global half of a simulated node's shape, within the stated bound.
pub open spec fn node_global_ok(o: GameObject, gbound: int) -> bool {
    &&& angle_wf(o.global_transform.rotation as int)
    &&& o.global_transform.scale.x == SCALE_ONE && o.global_transform.scale.y == SCALE_ONE
    &&& -gbound <= o.global_transform.position.x <= gbound
    &&& -gbound <= o.global_transform.position.y <= gbound
}

/// A simulated node: unit scales, normalized rotations, local pose in
/// the local box and global pose within the stated bound.
pub open spec fn node_ok(o: GameObject, gbound: int) -> bool {
    node_local_ok(o) && node_global_ok(o, gbound)
}

/// Global pose bound of a character's own node.
pub const OWNER_GBOUND: i64 = 21_000_000;

/// Global pose bound of the nodes parented to a character.
pub const CHILD_GBOUND: i64 = 41_000_000;

/// With unit scales on both poses the composed scale is the unit again
/// and the scaled local position is the local position itself.
pub proof fn lemma_unit_compose(p: Transform, l: Transform)
    requires
        p.scale.x == SCALE_ONE,
        p.scale.y == SCALE_ONE,
        l.scale.x == SCALE_ONE,
        l.scale.y == SCALE_ONE,
        -100_000_000 <= l.position.x <= 100_000_000,
        -100_000_000 <= l.position.y <= 100_000_000,
    ensures
        l.scale.x * p.scale.x == 1_000_000,
        l.scale.y * p.scale.y == 1_000_000,
        composed_scale_x(p, l) == SCALE_ONE,
        composed_scale_y(p, l) == SCALE_ONE,
        -100_000_000_000 <= l.position.x * composed_scale_x(p, l) <= 100_000_000_000,
        -100_000_000_000 <= l.position.y * composed_scale_y(p, l) <= 100_000_000_000,
        scaled_local_x(p, l) == l.position.x,
        scaled_local_y(p, l) == l.position.y,
{
    assert(l.scale.x * p.scale.x == 1_000_000 && l.scale.y * p.scale.y
        == 1_000_000) by (nonlinear_arith)
        requires
            p.scale.x == 1_000,
            p.scale.y == 1_000,
            l.scale.x == 1_000,
            l.scale.y == 1_000,
    ;
    assert(div_trunc(1_000_000, 1_000) == 1_000);
    let px = l.position.x as int;
    let py = l.position.y as int;
    assert(px * composed_scale_x(p, l) == px * 1_000 && py * composed_scale_y(p, l) == py
        * 1_000) by (nonlinear_arith)
        requires
            composed_scale_x(p, l) == 1_000,
            composed_scale_y(p, l) == 1_000,
    ;
    lemma_div_trunc_cancel(px, 1_000);
    lemma_div_trunc_cancel(py, 1_000);
}

/// Deriving the global pose from a local pose and then the local pose
/// back from that global pose returns the original local pose, whenever
/// the parent sits at a quarter-turn rotation and both poses carry unit
/// scale.  (With a fractional parent scale the two scale roundings need
/// not cancel, so the recovery is not exact there.)
pub proof fn lemma_pose_round_trip(p: Transform, l: Transform)
    requires
        angle_wf(p.rotation as int),
        angle_wf(l.rotation as int),
        p.rotation as int % 90_000 == 0,
        p.scale.x == SCALE_ONE && p.scale.y == SCALE_ONE,
        l.scale.x == SCALE_ONE && l.scale.y == SCALE_ONE,
    ensures
        decomposed_rotation(p, composed_rotation(p, l)) == l.rotation,
        decomposed_scale(p.scale.x as int, composed_scale_x(p, l)) == l.scale.x,
        decomposed_scale(p.scale.y as int, composed_scale_y(p, l)) == l.scale.y,
        decomposed_pos_x(p, composed_pos_x(p, l), composed_pos_y(p, l), l.scale.x as int)
            == l.position.x,
        decomposed_pos_y(p, composed_pos_x(p, l), composed_pos_y(p, l), l.scale.y as int)
            == l.position.y,
{
    lemma_div_trunc_cancel(1_000, 1_000);
    assert(composed_scale_x(p, l) == 1_000);
    assert(composed_scale_y(p, l) == 1_000);
    lemma_div_trunc_cancel(l.position.x as int, 1_000);
    lemma_div_trunc_cancel(l.position.y as int, 1_000);
    assert(scaled_local_x(p, l) == l.position.x);
    assert(scaled_local_y(p, l) == l.position.y);
    crate::transform::lemma_rotate_quarter_inverse(
        l.position.x as int,
        l.position.y as int,
        p.rotation as int,
    );
    let gx = composed_pos_x(p, l);
    let gy = composed_pos_y(p, l);
    assert(gx - p.position.x == rotate_x(
        l.position.x as int,
        l.position.y as int,
        p.rotation as int,
    ));
    assert(gy - p.position.y == rotate_y(
        l.position.x as int,
        l.position.y as int,
        p.rotation as int,
    ));
    lemma_div_trunc_cancel(
        rotate_x(gx - p.position.x, gy - p.position.y, neg_angle(p.rotation as int)),
        1_000,
    );
    lemma_div_trunc_cancel(
        rotate_y(gx - p.position.x, gy - p.position.y, neg_angle(p.rotation as int)),
        1_000,
    );
}

} // verus!
