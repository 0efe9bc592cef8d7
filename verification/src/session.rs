use vstd::prelude::*;

use crate::character::{Character, GameKey};
use crate::codec::{decode_words_vec, encode_words, encode_words_vec, words_of};
use crate::comm::Communication;
use crate::node::{root_ok, GameObject};
use crate::transform::Vec2;

verus! {

// The session: two characters around a shared root, ticked in lockstep
// with a remote peer over a last-write-wins frame stream.

/// One frame on the wire: a timestamp word, then the local character's
/// words; 64 bytes in all.
pub const FRAME_BYTES: usize = 64;

pub const WIN_SCORE: i32 = 3;

pub const ROOT_X: i64 = 640_000;

pub const ROOT_Y: i64 = 360_000;

/// What a state of the outer shell should do next: switch to the menu,
/// switch to the game, or stay where it is.
pub enum EState {
    Menu,
    Game,
    Stay,
}

/// The words of one outgoing frame: the timestamp, then the character.
pub open spec fn frame_words(now_ms: int, c: Character) -> Seq<i32> {
    seq![now_ms as i32] + c.wire_words()
}

/// Whether an incoming frame's payload is acceptable for the remote
/// character: exactly sixteen words whose character part is in range.
pub open spec fn frame_ok(c: Character, ws: Seq<i32>) -> bool {
    &&& ws.len() == 16
    &&& c.recv_ok(ws.skip(1))
}

/// One drawable entity: its id, its global pose, and whether it should
/// be drawn this tick.
#[derive(Clone, Copy, Debug, PartialEq, Eq, Structural)]
pub struct PoseEntry {
    pub entity: i32,
    pub pose: crate::transform::Transform,
    pub visible: bool,
}

pub struct GameState {
    pub player: Character,
    pub opponent: Character,
    pub global: GameObject,
    pub is_game_end: bool,
    pub last_recv: i64,
}

impl GameState {
    /// The session invariant: both characters are well formed and the
    /// shared root is fit to parent them.
    pub open spec fn wf(self) -> bool {
        &&& self.player.wf()
        &&& self.opponent.wf()
        &&& root_ok(self.global.transform)
        &&& root_ok(self.global.global_transform)
    }

    /// A fresh, uninitialized session.
    pub fn new() -> (g: GameState)
        ensures
            g.wf(),
            !g.is_game_end,
            g.last_recv == 0,
            g.player.score == 0,
            g.opponent.score == 0,
    {
        GameState {
            player: Character::new(),
            opponent: Character::new(),
            global: GameObject::new(),
            is_game_end: false,
            last_recv: 0,
        }
    }

    /// Puts the arena together: the root is placed at the arena center
    /// (turned half around on the serving side so both peers see the
    /// same world), the roles and sweep directions are assigned, and
    /// both characters respawn at their centered spawn points.
    pub fn initialize(&mut self, is_server: bool)
        requires
            old(self).wf(),
        ensures
            final(self).wf(),
            final(self).player.is_server == is_server,
            final(self).opponent.is_server == is_server,
            final(self).opponent.is_opponent,
            final(self).player.is_opponent == old(self).player.is_opponent,
            final(self).player.gameobject.transform.position.x == 0,
            final(self).opponent.gameobject.transform.position.x == 0,
            !final(self).player.is_grabbed_by,
            !final(self).opponent.is_grabbed_by,
            final(self).player.score == old(self).player.score,
            final(self).opponent.score == old(self).opponent.score,
            final(self).is_game_end == old(self).is_game_end,
            final(self).last_recv == old(self).last_recv,
            final(self).global.global_transform.position.x == ROOT_X,
            final(self).global.global_transform.position.y == ROOT_Y,
            final(self).global.global_transform.rotation == if is_server {
                180_000int
            } else {
                0int
            },
    {
        self.global.transform.position = Vec2 { x: ROOT_X, y: ROOT_Y };
        self.global.transform.rotation = if is_server {
            180_000
        } else {
            0
        };
        self.global.update_global_transform(None);
        self.player.is_server = is_server;
        self.opponent.is_server = is_server;
        self.opponent.is_opponent = true;
        self.opponent.flash.is_opponent = true;
        if is_server {
            self.opponent.target.direction = -1;
        } else {
            self.player.target.direction = -1;
        }
        let root = self.global.global_transform;
        self.player.rebirth(false, &root);
        self.opponent.rebirth(false, &root);
    }

    /// Builds the frame that carries the local character this tick: the
    /// session clock's timestamp word, then the character's words.
    pub fn send_data(&self, now_ms: i64) -> (r: Vec<u8>)
        requires
            self.wf(),
            0 <= now_ms <= i32::MAX,
        ensures
            r@ == encode_words(frame_words(now_ms as int, self.player)),
            r@.len() == FRAME_BYTES,
    {
        let mut ws: Vec<i32> = Vec::new();
        ws.push(now_ms as i32);
        let body = self.player.get_send_data();
        let mut out = encode_words_vec(&ws);
        let mut i: usize = 0;
        proof {
            assert(ws@ =~= seq![now_ms as i32]);
            assert(encode_words(seq![now_ms as i32]) + body@.take(0) =~= encode_words(
                seq![now_ms as i32],
            ));
        }
        while i < body.len()
            invariant
                0 <= i <= body@.len(),
                out@ == encode_words(seq![now_ms as i32]) + body@.take(i as int),
            decreases body@.len() - i,
        {
            let b = body[i];
            out.push(b);
            proof {
                assert(body@.take(i + 1) =~= body@.take(i as int).push(b));
                assert(encode_words(seq![now_ms as i32]) + body@.take(i + 1) =~= (encode_words(
                    seq![now_ms as i32],
                ) + body@.take(i as int)).push(b));
            }
            i = i + 1;
        }
        proof {
            crate::codec::lemma_encode_len(self.player.wire_words());
            crate::codec::lemma_encode_len(seq![now_ms as i32]);
            assert(body@.take(body@.len() as int) =~= body@);
            assert(encode_words(frame_words(now_ms as int, self.player)) =~= encode_words(
                seq![now_ms as i32],
            ) + encode_words(self.player.wire_words())) by {
                crate::codec::lemma_encode_split(
                    seq![now_ms as i32],
                    self.player.wire_words(),
                );
            }
        }
        out
    }

    /// Applies one received frame, if there is one to apply: a buffer of
    /// the wrong size, a timestamp at or below the last applied one, or
    /// a payload outside the schema is discarded without a trace; a
    /// strictly newer, valid frame overwrites the remote character's
    /// replicated fields exactly and refreshes its derived poses.
    pub fn recv_data(&mut self, buf: &Vec<u8>) -> (applied: bool)
        requires
            old(self).wf(),
        ensures
            final(self).wf(),
            applied <==> (buf@.len() == FRAME_BYTES && words_of(buf@)[0] > old(self).last_recv
                && frame_ok(old(self).opponent, words_of(buf@))),
            !applied ==> *final(self) == *old(self),
            applied ==> {
                let ws = words_of(buf@);
                let after = old(self).opponent.recv_result(ws.skip(1));
                &&& final(self).last_recv == ws[0]
                &&& final(self).opponent.move_state == after.move_state
                &&& final(self).opponent.score == after.score
                &&& final(self).opponent.gameobject.transform == after.gameobject.transform
                &&& final(self).opponent.target.look_at_x == after.target.look_at_x
                &&& final(self).opponent.grab.state == after.grab.state
                &&& final(self).opponent.grab.speed == after.grab.speed
                &&& final(self).opponent.grab.gameobject.transform
                    == after.grab.gameobject.transform
                &&& final(self).player == old(self).player
                &&& final(self).is_game_end == old(self).is_game_end
            },
            final(self).last_recv >= old(self).last_recv,
            final(self).opponent.flash == old(self).opponent.flash,
            final(self).opponent.is_grabbed_by == old(self).opponent.is_grabbed_by,
    {
        if buf.len() != FRAME_BYTES {
            return false;
        }
        let ws = decode_words_vec(buf);
        let ts = ws[0];
        if !(ts as i64 > self.last_recv) {
            return false;
        }
        if !check_character_words(&self.opponent, &ws) {
            return false;
        }
        let mut payload: Vec<u8> = Vec::new();
        let mut i: usize = 4;
        while i < FRAME_BYTES
            invariant
                4 <= i <= 64,
                buf@.len() == 64,
                payload@ == buf@.subrange(4, i as int),
            decreases 64 - i,
        {
            let b = buf[i];
            payload.push(b);
            proof {
                assert(buf@.subrange(4, i + 1) =~= buf@.subrange(4, i as int).push(b));
            }
            i = i + 1;
        }
        proof {
            assert(payload@ =~= buf@.skip(4));
            crate::codec::lemma_words_skip_one(buf@);
            assert(words_of(payload@) =~= words_of(buf@).skip(1));
        }
        self.opponent.set_recv_data(&mut payload);
        let root = self.global.global_transform;
        self.opponent.refresh_globals(&root);
        self.last_recv = ts as i64;
        true
    }

    /// One session tick: the outgoing frame for this instant is built,
    /// any incoming frame is applied by the last-write-wins rule, and —
    /// unless the match is already over — both characters simulate one
    /// step and the match ends when either reaches the winning score.
    /// A finished match stays finished and stops advancing the world.
    pub fn update(&mut self, dt: i64, now_ms: i64, incoming: Option<&Vec<u8>>) -> (out: Vec<u8>)
        requires
            old(self).wf(),
            0 <= dt <= 100_000,
            0 <= now_ms <= i32::MAX,
        ensures
            final(self).wf(),
            out@ == encode_words(frame_words(now_ms as int, old(self).player)),
            final(self).last_recv >= old(self).last_recv,
            old(self).is_game_end ==> {
                &&& final(self).is_game_end
                &&& final(self).player == old(self).player
            },
            !old(self).is_game_end ==> final(self).is_game_end == (final(self).player.score
                == WIN_SCORE || final(self).opponent.score == WIN_SCORE),
            !old(self).is_game_end ==> ({
                let p0 = old(self).player;
                let p1 = final(self).player;
                &&& p1.flash.cooldown == if p0.flash.cooldown - dt >= 0 {
                    p0.flash.cooldown - dt
                } else {
                    0
                }
                &&& (!p0.is_grabbed_by ==> {
                    &&& p1.move_state == p0.move_state
                    &&& p1.score == if p0.grab.check_grab_once {
                        if p0.score < i32::MAX {
                            p0.score + 1
                        } else {
                            p0.score as int
                        }
                    } else {
                        p0.score as int
                    }
                    &&& (p1.grab.check_grab_once ==> p0.grab.state is Retracting)
                })
                &&& (p0.is_grabbed_by ==> p1.move_state == 0 && p1.score == p0.score)
            }),
            !old(self).is_game_end ==> final(self).opponent.flash.cooldown == if old(
                self,
            ).opponent.flash.cooldown - dt >= 0 {
                old(self).opponent.flash.cooldown - dt
            } else {
                0
            },
    {
        let out = self.send_data(now_ms);
        match incoming {
            Some(buf) => {
                let _ = self.recv_data(buf);
            },
            None => {},
        }
        if self.is_game_end {
            return out;
        }
        let root = self.global.global_transform;
        let (p, o) = (&mut self.player, &mut self.opponent);
        p.update(dt, &root, o);
        o.update(dt, &root, p);
        self.is_game_end = self.player.score == WIN_SCORE || self.opponent.score == WIN_SCORE;
        out
    }

    /// Whether the match is over, and who won it: the local character is
    /// reported first when both are at the winning score.
    pub fn is_match_over(&self) -> (r: Option<bool>)
        ensures
            self.is_game_end <==> r is Some,
            r == Some(true) ==> self.player.score == WIN_SCORE || self.opponent.score != WIN_SCORE,
            self.is_game_end ==> r == Some(self.player.score == WIN_SCORE),
    {
        if self.is_game_end {
            Some(self.player.score == WIN_SCORE)
        } else {
            None
        }
    }

    /// The drawable entities this tick: for each character its body,
    /// its aim marker and its hook, with the global pose and whether the
    /// renderer should draw it — a captured character hides its aim and
    /// hook, and a hook is shown only mid-throw.
    pub fn current_poses(&self) -> (r: Vec<PoseEntry>)
        ensures
            r@.len() == 6,
            r@[0].pose == self.player.gameobject.global_transform,
            r@[0].visible,
            r@[1].pose == self.player.target.gameobject.global_transform,
            r@[1].visible == !self.player.is_grabbed_by,
            r@[2].pose == self.player.grab.gameobject.global_transform,
            r@[2].visible == (!self.player.is_grabbed_by && !(self.player.grab.state is Idle)),
            r@[3].pose == self.opponent.gameobject.global_transform,
            r@[3].visible,
            r@[4].pose == self.opponent.target.gameobject.global_transform,
            r@[4].visible == !self.opponent.is_grabbed_by,
            r@[5].pose == self.opponent.grab.gameobject.global_transform,
            r@[5].visible == (!self.opponent.is_grabbed_by && !(self.opponent.grab.state is Idle)),
    {
        let mut r: Vec<PoseEntry> = Vec::new();
        r.push(PoseEntry { entity: 0, pose: self.player.gameobject.global_transform, visible: true });
        r.push(
            PoseEntry {
                entity: 1,
                pose: self.player.target.gameobject.global_transform,
                visible: !self.player.is_grabbed_by,
            },
        );
        r.push(
            PoseEntry {
                entity: 2,
                pose: self.player.grab.gameobject.global_transform,
                visible: !self.player.is_grabbed_by && self.player.grab.is_busy(),
            },
        );
        r.push(
            PoseEntry { entity: 3, pose: self.opponent.gameobject.global_transform, visible: true },
        );
        r.push(
            PoseEntry {
                entity: 4,
                pose: self.opponent.target.gameobject.global_transform,
                visible: !self.opponent.is_grabbed_by,
            },
        );
        r.push(
            PoseEntry {
                entity: 5,
                pose: self.opponent.grab.gameobject.global_transform,
                visible: !self.opponent.is_grabbed_by && self.opponent.grab.is_busy(),
            },
        );
        r
    }

    /// Forwards a key press to the local character.
    pub fn key_down_event(&mut self, keycode: GameKey, left_pressed: bool, right_pressed: bool)
        requires
            old(self).wf(),
        ensures
            final(self).wf(),
            final(self).opponent == old(self).opponent,
            final(self).is_game_end == old(self).is_game_end,
            final(self).last_recv == old(self).last_recv,
    {
        self.player.key_down_event(keycode, left_pressed, right_pressed);
    }

    /// Forwards a key release to the local character.
    pub fn key_up_event(&mut self, keycode: GameKey, left_pressed: bool, right_pressed: bool)
        requires
            old(self).wf(),
        ensures
            final(self).wf(),
            final(self).opponent == old(self).opponent,
            final(self).is_game_end == old(self).is_game_end,
            final(self).last_recv == old(self).last_recv,
            final(self).player.move_state == if right_pressed {
                1int
            } else if left_pressed {
                -1int
            } else {
                0int
            },
    {
        self.player.key_up_event(keycode, left_pressed, right_pressed);
    }
}

/// A frame decodes back to the very words it was encoded from: encoding
/// a timestamp and a character and reading the stream back yields that
/// timestamp and those fields, bit for bit.
pub proof fn lemma_frame_round_trip(now_ms: int, c: Character)
    ensures
        words_of(encode_words(frame_words(now_ms, c))) =~= frame_words(now_ms, c),
{
    crate::codec::lemma_words_round_trip(frame_words(now_ms, c));
}

/// Checks, field by field, that a decoded sixteen-word frame carries an
/// acceptable payload for the remote character.
fn check_character_words(c: &Character, ws: &Vec<i32>) -> (b: bool)
    requires
        ws@.len() == 16,
    ensures
        b == c.recv_ok(ws@.skip(1)),
{
    let ms_ok = ws[1] == -1 || ws[1] == 0 || ws[1] == 1;
    let pose_ok = in_box(ws[3]) && in_box(ws[4]) && 0 <= ws[5] && ws[5] < 360_000 && ws[6] == 1_000
        && ws[7] == 1_000;
    let look_ok = -440_000 <= ws[8] && ws[8] <= 440_000;
    let gs_ok = 0 <= ws[9] && ws[9] <= 1_000_000 && (ws[10] == 0 || ws[10] == 1 || ws[10] == -1);
    let gpose_ok = in_box(ws[11]) && in_box(ws[12]) && 0 <= ws[13] && ws[13] < 360_000 && ws[14]
        == 1_000 && ws[15] == 1_000;
    ms_ok && pose_ok && look_ok && gs_ok && gpose_ok
}

/// Whether a word is inside the local coordinate box.
fn in_box(w: i32) -> (b: bool)
    ensures
        b == (-10_000_000 <= w <= 10_000_000),
{
    -10_000_000 <= w && w <= 10_000_000
}

} // verus!
