use grabduel::character::GameKey;
use grabduel::comm::Communication;
use grabduel::node::GameObject;
use grabduel::session::{GameState, FRAME_BYTES};
use grabduel::transform::Vec2;

#[test]
fn frame_exchange_replicates_the_pose_exactly() {
    let mut host = GameState::new();
    host.initialize(true);
    let mut guest = GameState::new();
    guest.initialize(false);
    // move the host's character a little so the frame carries a
    // non-trivial pose
    host.key_down_event(GameKey::Right, false, true);
    let _ = host.update(100, 1, None);
    let frame = host.send_data(2);
    assert_eq!(frame.len(), FRAME_BYTES);
    assert!(guest.recv_data(&frame));
    assert_eq!(guest.last_recv, 2);
    // the five pose numbers arrive bit for bit
    assert_eq!(
        guest.opponent.gameobject.transform,
        host.player.gameobject.transform
    );
    assert_eq!(guest.opponent.move_state, host.player.move_state);
    assert_eq!(guest.opponent.score, host.player.score);
    assert_eq!(guest.opponent.target.look_at_x, host.player.target.look_at_x);
    assert_eq!(
        guest.opponent.grab.gameobject.transform,
        host.player.grab.gameobject.transform
    );
}

#[test]
fn stale_frames_are_discarded() {
    let mut host = GameState::new();
    host.initialize(true);
    let mut guest = GameState::new();
    guest.initialize(false);
    let newer = host.send_data(10);
    assert!(guest.recv_data(&newer));
    assert_eq!(guest.last_recv, 10);
    let pose = guest.opponent.gameobject.transform;
    // an older frame changes nothing
    host.key_down_event(GameKey::Left, true, false);
    let _ = host.update(100, 5, None);
    let older = host.send_data(5);
    assert!(!guest.recv_data(&older));
    assert_eq!(guest.last_recv, 10);
    assert_eq!(guest.opponent.gameobject.transform, pose);
    // a frame with the same timestamp changes nothing either
    let same = host.send_data(10);
    assert!(!guest.recv_data(&same));
    assert_eq!(guest.last_recv, 10);
}

#[test]
fn malformed_frames_are_no_frames() {
    let mut guest = GameState::new();
    guest.initialize(false);
    // wrong size: a partial read is not an error, only not a frame
    let short = vec![0u8; 60];
    assert!(!guest.recv_data(&short));
    // right size, out-of-schema payload (a wild scale word)
    let mut host = GameState::new();
    host.initialize(true);
    let mut bad = host.send_data(3);
    bad[6 * 4] = 0x77;
    assert!(!guest.recv_data(&bad));
    assert_eq!(guest.last_recv, 0);
}

#[test]
fn match_ends_at_three_and_stays_ended() {
    let mut gs = GameState::new();
    gs.initialize(false);
    assert_eq!(gs.is_match_over(), None);
    gs.player.score = 3;
    let _ = gs.update(100, 1, None);
    assert!(gs.is_game_end);
    assert_eq!(gs.is_match_over(), Some(true));
    // a finished match stops advancing the world
    gs.key_down_event(GameKey::Right, false, true);
    let x = gs.player.gameobject.transform.position.x;
    let _ = gs.update(1_000, 2, None);
    let _ = gs.update(1_000, 3, None);
    assert!(gs.is_game_end);
    assert_eq!(gs.player.gameobject.transform.position.x, x);
    assert_eq!(gs.is_match_over(), Some(true));
}

#[test]
fn opponent_win_is_reported_too() {
    let mut gs = GameState::new();
    gs.initialize(false);
    gs.opponent.score = 3;
    let _ = gs.update(100, 1, None);
    assert_eq!(gs.is_match_over(), Some(false));
}

#[test]
fn current_poses_hide_a_captured_character_gear() {
    let mut gs = GameState::new();
    gs.initialize(false);
    let poses = gs.current_poses();
    assert_eq!(poses.len(), 6);
    assert!(poses[0].visible);
    assert!(poses[1].visible);
    assert!(!poses[2].visible);
    gs.player.is_grabbed_by = true;
    gs.opponent.grab.state = grabduel::grab::GrabState::Thrown;
    let poses = gs.current_poses();
    assert!(!poses[1].visible);
    assert!(!poses[2].visible);
    assert!(poses[5].visible);
    assert_eq!(
        poses[3].pose,
        gs.opponent.gameobject.global_transform
    );
}

#[test]
fn character_words_round_trip_through_the_codec() {
    let mut host = GameState::new();
    host.initialize(true);
    let bytes = host.player.get_send_data();
    assert_eq!(bytes.len(), 60);
    let mut other = GameState::new();
    other.initialize(false);
    let mut buf = bytes.clone();
    other.opponent.set_recv_data(&mut buf);
    assert_eq!(
        other.opponent.gameobject.transform,
        host.player.gameobject.transform
    );
    assert_eq!(other.opponent.target.look_at_x, host.player.target.look_at_x);
    assert_eq!(other.opponent.grab.speed, host.player.grab.speed);
}

#[test]
fn gameobject_wire_words_round_trip() {
    let mut a = GameObject::new();
    a.transform.position = Vec2 { x: -123_000, y: 45_000 };
    a.transform.rotation = 123_456;
    let bytes = a.get_send_data();
    assert_eq!(bytes.len(), 20);
    let mut b = GameObject::new();
    let mut buf = bytes.clone();
    b.set_recv_data(&mut buf);
    assert_eq!(b.transform, a.transform);
}

#[test]
fn a_full_match_is_won_and_replicated() {
    let mut host = GameState::new();
    host.initialize(true);
    let mut guest = GameState::new();
    guest.initialize(false);
    let mut now: i64 = 1;
    for point in 1..=3 {
        // place the victim back at the center and aim straight at it so
        // the hook connects every time
        host.opponent.gameobject.transform.position = Vec2 { x: 0, y: 290_000 };
        let root = host.global.global_transform;
        host.opponent.refresh_globals(&root);
        host.player.target.look_at_x = 0;
        host.player.target.gameobject.transform.rotation = 0;
        host.key_down_event(GameKey::Throw, false, false);
        // fly out past the threshold, retract home, bank the point
        for dt in [690, 1_000, 100] {
            let frame = host.update(dt, now, None);
            assert!(guest.recv_data(&frame));
            let _ = guest.update(dt, now, None);
            now += 1;
        }
        assert_eq!(host.player.score, point);
    }
    assert!(host.is_game_end);
    assert_eq!(host.is_match_over(), Some(true));
    // the final frame carries the winning score to the other side
    let frame = host.send_data(now);
    assert!(guest.recv_data(&frame));
    let _ = guest.update(16, now, None);
    assert_eq!(guest.opponent.score, 3);
    assert_eq!(guest.is_match_over(), Some(false));
}
