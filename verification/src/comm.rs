use vstd::prelude::*;

use crate::character::Character;
use crate::codec::{decode_words_vec, encode_words, encode_words_vec, words_of};
use crate::grab::{Grab, GrabState};
use crate::node::GameObject;
use crate::target::Target;
use crate::transform::{Transform, Vec2, SCALE_ONE};

verus! {

// The replication schema.  Every numeric field of the replicated state
// is one signed 32-bit word; a value writes its words in a fixed order,
// and accepts an incoming word sequence only when every field lies in
// its documented range — anything else is treated as no frame at all.

/// Replicated state that can write itself onto, and read itself back
/// from, the wire.
pub trait Communication: Sized {
    /// The words this value writes on the wire.
    spec fn wire_words(&self) -> Seq<i32>;

    /// Whether this value's fields fit the schema.
    spec fn wire_ok(&self) -> bool;

    /// Whether an incoming word sequence is acceptable here.
    spec fn recv_ok(&self, ws: Seq<i32>) -> bool;

    /// The value after an acceptable word sequence is applied.
    spec fn recv_result(&self, ws: Seq<i32>) -> Self;

    fn get_send_data(&self) -> (r: Vec<u8>)
        requires
            self.wire_ok(),
        ensures
            r@ == encode_words(self.wire_words()),
    ;

    fn set_recv_data(&mut self, buf: &mut Vec<u8>)
        requires
            old(buf)@.len() % 4 == 0,
            old(self).recv_ok(words_of(old(buf)@)),
        ensures
            *final(self) == old(self).recv_result(words_of(old(buf)@)),
            final(buf)@ == old(buf)@,
    ;
}

/// Whether five words are an acceptable pose: position inside the local
/// box, normalized rotation, unit scale on both axes.
pub open spec fn pose_words_ok(px: int, py: int, rot: int, sx: int, sy: int) -> bool {
    &&& -10_000_000 <= px <= 10_000_000
    &&& -10_000_000 <= py <= 10_000_000
    &&& 0 <= rot < 360_000
    &&& sx == SCALE_ONE
    &&& sy == SCALE_ONE
}

/// The local pose rebuilt from five pose words.
pub open spec fn pose_of_words(px: int, py: int, rot: int, sx: int, sy: int) -> Transform {
    Transform {
        position: Vec2 { x: px as i64, y: py as i64 },
        rotation: rot as i64,
        scale: Vec2 { x: sx as i64, y: sy as i64 },
    }
}

impl Communication for GameObject {
    /// Five words: local position, rotation, scale.
    open spec fn wire_words(&self) -> Seq<i32> {
        seq![
            self.transform.position.x as i32,
            self.transform.position.y as i32,
            self.transform.rotation as i32,
            self.transform.scale.x as i32,
            self.transform.scale.y as i32,
        ]
    }

    open spec fn wire_ok(&self) -> bool {
        pose_words_ok(
            self.transform.position.x as int,
            self.transform.position.y as int,
            self.transform.rotation as int,
            self.transform.scale.x as int,
            self.transform.scale.y as int,
        )
    }

    open spec fn recv_ok(&self, ws: Seq<i32>) -> bool {
        &&& ws.len() == 5
        &&& pose_words_ok(ws[0] as int, ws[1] as int, ws[2] as int, ws[3] as int, ws[4] as int)
    }

    open spec fn recv_result(&self, ws: Seq<i32>) -> GameObject {
        GameObject {
            transform: pose_of_words(
                ws[0] as int,
                ws[1] as int,
                ws[2] as int,
                ws[3] as int,
                ws[4] as int,
            ),
            global_transform: self.global_transform,
        }
    }

    fn get_send_data(&self) -> (r: Vec<u8>) {
        let mut ws: Vec<i32> = Vec::new();
        ws.push(self.transform.position.x as i32);
        ws.push(self.transform.position.y as i32);
        ws.push(self.transform.rotation as i32);
        ws.push(self.transform.scale.x as i32);
        ws.push(self.transform.scale.y as i32);
        proof {
            assert(ws@ =~= self.wire_words());
        }
        encode_words_vec(&ws)
    }

    fn set_recv_data(&mut self, buf: &mut Vec<u8>) {
        let ws = decode_words_vec(buf);
        self.transform.position.x = ws[0] as i64;
        self.transform.position.y = ws[1] as i64;
        self.transform.rotation = ws[2] as i64;
        self.transform.scale.x = ws[3] as i64;
        self.transform.scale.y = ws[4] as i64;
    }
}

impl Communication for Target {
    /// One word: the aim point's x.
    open spec fn wire_words(&self) -> Seq<i32> {
        seq![self.look_at_x as i32]
    }

    open spec fn wire_ok(&self) -> bool {
        -440_000 <= self.look_at_x <= 440_000
    }

    open spec fn recv_ok(&self, ws: Seq<i32>) -> bool {
        &&& ws.len() == 1
        &&& -440_000 <= ws[0] <= 440_000
    }

    open spec fn recv_result(&self, ws: Seq<i32>) -> Target {
        Target {
            look_at_x: ws[0] as i64,
            gameobject: self.gameobject,
            speed: self.speed,
            direction: self.direction,
        }
    }

    fn get_send_data(&self) -> (r: Vec<u8>) {
        let mut ws: Vec<i32> = Vec::new();
        ws.push(self.look_at_x as i32);
        proof {
            assert(ws@ =~= self.wire_words());
        }
        encode_words_vec(&ws)
    }

    fn set_recv_data(&mut self, buf: &mut Vec<u8>) {
        let ws = decode_words_vec(buf);
        self.look_at_x = ws[0] as i64;
    }
}

/// The wire word of a grab state.
pub open spec fn grab_state_word(s: GrabState) -> int {
    match s {
        GrabState::Idle => 0,
        GrabState::Thrown => 1,
        GrabState::Retracting => -1,
    }
}

/// The grab state read from a wire word.
pub open spec fn grab_state_of_word(w: int) -> GrabState {
    if w == 1 {
        GrabState::Thrown
    } else if w == -1 {
        GrabState::Retracting
    } else {
        GrabState::Idle
    }
}

impl Communication for Grab {
    /// Seven words: speed, state, then the hook node's pose.
    open spec fn wire_words(&self) -> Seq<i32> {
        seq![
            self.speed as i32,
            grab_state_word(self.state) as i32,
        ] + self.gameobject.wire_words()
    }

    open spec fn wire_ok(&self) -> bool {
        &&& 0 <= self.speed <= 1_000_000
        &&& self.gameobject.wire_ok()
    }

    open spec fn recv_ok(&self, ws: Seq<i32>) -> bool {
        &&& ws.len() == 7
        &&& 0 <= ws[0] <= 1_000_000
        &&& ws[1] == 0 || ws[1] == 1 || ws[1] == -1
        &&& self.gameobject.recv_ok(ws.skip(2))
    }

    open spec fn recv_result(&self, ws: Seq<i32>) -> Grab {
        Grab {
            speed: ws[0] as i64,
            state: grab_state_of_word(ws[1] as int),
            gameobject: self.gameobject.recv_result(ws.skip(2)),
            threshold: self.threshold,
            check_grab_once: self.check_grab_once,
        }
    }

    fn get_send_data(&self) -> (r: Vec<u8>) {
        let mut ws: Vec<i32> = Vec::new();
        ws.push(self.speed as i32);
        let st: i32 = match self.state {
            GrabState::Idle => 0,
            GrabState::Thrown => 1,
            GrabState::Retracting => -1,
        };
        ws.push(st);
        ws.push(self.gameobject.transform.position.x as i32);
        ws.push(self.gameobject.transform.position.y as i32);
        ws.push(self.gameobject.transform.rotation as i32);
        ws.push(self.gameobject.transform.scale.x as i32);
        ws.push(self.gameobject.transform.scale.y as i32);
        proof {
            assert(ws@ =~= self.wire_words());
        }
        encode_words_vec(&ws)
    }

    fn set_recv_data(&mut self, buf: &mut Vec<u8>) {
        let ws = decode_words_vec(buf);
        self.speed = ws[0] as i64;
        self.state = if ws[1] == 1 {
            GrabState::Thrown
        } else if ws[1] == -1 {
            GrabState::Retracting
        } else {
            GrabState::Idle
        };
        self.gameobject.transform.position.x = ws[2] as i64;
        self.gameobject.transform.position.y = ws[3] as i64;
        self.gameobject.transform.rotation = ws[4] as i64;
        self.gameobject.transform.scale.x = ws[5] as i64;
        self.gameobject.transform.scale.y = ws[6] as i64;
        proof {
            assert(words_of(old(buf)@).skip(2) =~= ws@.skip(2));
            assert(self.gameobject == old(self).gameobject.recv_result(ws@.skip(2)));
        }
    }
}

impl Communication for Character {
    /// Fifteen words: movement state and score, the character's pose,
    /// the aim point, then the grab's words.
    open spec fn wire_words(&self) -> Seq<i32> {
        seq![
            self.move_state as i32,
            self.score,
        ] + self.gameobject.wire_words() + self.target.wire_words() + self.grab.wire_words()
    }

    open spec fn wire_ok(&self) -> bool {
        &&& self.move_state == -1 || self.move_state == 0 || self.move_state == 1
        &&& self.gameobject.wire_ok()
        &&& self.target.wire_ok()
        &&& self.grab.wire_ok()
    }

    open spec fn recv_ok(&self, ws: Seq<i32>) -> bool {
        &&& ws.len() == 15
        &&& (ws[0] == -1 || ws[0] == 0 || ws[0] == 1)
        &&& self.gameobject.recv_ok(ws.subrange(2, 7))
        &&& self.target.recv_ok(ws.subrange(7, 8))
        &&& self.grab.recv_ok(ws.subrange(8, 15))
    }

    open spec fn recv_result(&self, ws: Seq<i32>) -> Character {
        Character {
            move_state: ws[0] as i64,
            score: ws[1],
            gameobject: self.gameobject.recv_result(ws.subrange(2, 7)),
            target: self.target.recv_result(ws.subrange(7, 8)),
            grab: self.grab.recv_result(ws.subrange(8, 15)),
            is_server: self.is_server,
            is_opponent: self.is_opponent,
            is_grabbed_by: self.is_grabbed_by,
            flash: self.flash,
            move_speed: self.move_speed,
        }
    }

    fn get_send_data(&self) -> (r: Vec<u8>) {
        let mut ws: Vec<i32> = Vec::new();
        ws.push(self.move_state as i32);
        ws.push(self.score);
        ws.push(self.gameobject.transform.position.x as i32);
        ws.push(self.gameobject.transform.position.y as i32);
        ws.push(self.gameobject.transform.rotation as i32);
        ws.push(self.gameobject.transform.scale.x as i32);
        ws.push(self.gameobject.transform.scale.y as i32);
        ws.push(self.target.look_at_x as i32);
        ws.push(self.grab.speed as i32);
        let st: i32 = match self.grab.state {
            GrabState::Idle => 0,
            GrabState::Thrown => 1,
            GrabState::Retracting => -1,
        };
        ws.push(st);
        ws.push(self.grab.gameobject.transform.position.x as i32);
        ws.push(self.grab.gameobject.transform.position.y as i32);
        ws.push(self.grab.gameobject.transform.rotation as i32);
        ws.push(self.grab.gameobject.transform.scale.x as i32);
        ws.push(self.grab.gameobject.transform.scale.y as i32);
        proof {
            assert(ws@ =~= self.wire_words());
        }
        encode_words_vec(&ws)
    }

    fn set_recv_data(&mut self, buf: &mut Vec<u8>) {
        let ws = decode_words_vec(buf);
        self.move_state = ws[0] as i64;
        self.score = ws[1];
        self.gameobject.transform.position.x = ws[2] as i64;
        self.gameobject.transform.position.y = ws[3] as i64;
        self.gameobject.transform.rotation = ws[4] as i64;
        self.gameobject.transform.scale.x = ws[5] as i64;
        self.gameobject.transform.scale.y = ws[6] as i64;
        self.target.look_at_x = ws[7] as i64;
        self.grab.speed = ws[8] as i64;
        self.grab.state = if ws[9] == 1 {
            GrabState::Thrown
        } else if ws[9] == -1 {
            GrabState::Retracting
        } else {
            GrabState::Idle
        };
        self.grab.gameobject.transform.position.x = ws[10] as i64;
        self.grab.gameobject.transform.position.y = ws[11] as i64;
        self.grab.gameobject.transform.rotation = ws[12] as i64;
        self.grab.gameobject.transform.scale.x = ws[13] as i64;
        self.grab.gameobject.transform.scale.y = ws[14] as i64;
        proof {
            let all = words_of(old(buf)@);
            assert(all.subrange(2, 7) =~= ws@.subrange(2, 7));
            assert(all.subrange(7, 8) =~= ws@.subrange(7, 8));
            assert(all.subrange(8, 15) =~= ws@.subrange(8, 15));
            assert(*self == old(self).recv_result(all));
        }
    }
}

} // verus!
