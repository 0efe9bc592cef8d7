use grabduel::character::{Character, GameKey};
use grabduel::flash::Flash;
use grabduel::grab::GrabState;
use grabduel::node::GameObject;
use grabduel::target::{facing_angle, Target};
use grabduel::transform::{Transform, Vec2};

fn owner_node() -> GameObject {
    let mut o = GameObject::new();
    o.transform.position = Vec2 { x: 0, y: 290_000 };
    o.update_global_transform(None);
    o
}

#[test]
fn oscillator_clamps_exactly_at_the_bound() {
    let owner = owner_node();
    let mut t = Target::new();
    // one long step shoots past the bound: it lands exactly on it and
    // the direction flips once
    t.update(700, &owner);
    assert_eq!(t.look_at_x, 440_000);
    assert_eq!(t.direction, -1);
    // a zero-length step on the bound flips nothing
    t.update(0, &owner);
    assert_eq!(t.look_at_x, 440_000);
    assert_eq!(t.direction, -1);
}

#[test]
fn oscillator_two_crossings_restore_the_direction() {
    let owner = owner_node();
    let mut a = Target::new();
    let mut b = Target::new();
    b.direction = -1;
    // 240 units per step: a crosses +440 on step 2, then -440 on step 6
    for _ in 0..6 {
        a.update(300, &owner);
        b.update(300, &owner);
        assert!(-440_000 <= a.look_at_x && a.look_at_x <= 440_000);
        assert!(-440_000 <= b.look_at_x && b.look_at_x <= 440_000);
    }
    assert_eq!(a.look_at_x, -440_000);
    assert_eq!(a.direction, 1);
    assert_eq!(b.look_at_x, 440_000);
    assert_eq!(b.direction, -1);
}

#[test]
fn facing_angle_signs_and_center() {
    assert_eq!(facing_angle(0), 0);
    // an aim point straight at 45 degrees
    assert_eq!(facing_angle(580_000), 44_762);
    assert_eq!(facing_angle(-580_000), 360_000 - 44_762);
    let a = facing_angle(100_000);
    assert!(0 < a && a < 90_000);
}

#[test]
fn dash_fires_only_off_cooldown() {
    let mut go = GameObject::new();
    go.transform.rotation = 270_000;
    go.update_global_transform(None);
    let mut f = Flash::new();
    // no direction: nothing happens
    f.use_skill(&mut go, 0);
    assert_eq!(f.cooldown, 0);
    assert_eq!(go.transform.position.x, 0);
    // a real dash: full cooldown, 200 units along the right vector
    f.use_skill(&mut go, 1);
    assert_eq!(f.cooldown, 5_000);
    assert_eq!(go.transform.position.x, 200_000);
    // on cooldown: nothing happens
    f.use_skill(&mut go, 1);
    assert_eq!(go.transform.position.x, 200_000);
    assert_eq!(f.cooldown, 5_000);
    f.update(1_000);
    assert_eq!(f.cooldown, 4_000);
    f.update(10_000);
    assert_eq!(f.cooldown, 0);
    f.use_skill(&mut go, -1);
    assert_eq!(f.cooldown, 5_000);
    assert_eq!(go.transform.position.x, 0);
}

fn catch_setup(target_global_x: i64) -> (Transform, Character, Character) {
    let root = Transform::new();
    let mut owner = Character::new();
    owner.gameobject.transform.position = Vec2 { x: -140_000, y: 290_000 };
    // facing along the world axes so the hook flies straight out in x
    owner.gameobject.transform.rotation = 0;
    owner.refresh_globals(&root);
    let mut target = Character::new();
    target.gameobject.transform.position = Vec2 { x: target_global_x, y: -290_000 };
    target.refresh_globals(&root);
    (root, owner, target)
}

#[test]
fn grab_catches_a_target_in_range() {
    // the owner stands at 500 in root space; the hook crosses the 580
    // threshold at 587 with the target 7 units away in x: a catch
    let (root, mut owner, mut target) = catch_setup(587_000 - 140_000 + 60_000);
    owner.key_down_event(GameKey::Throw, false, false);
    assert!(matches!(owner.grab.state, GrabState::Thrown));
    assert_eq!(owner.grab.gameobject.transform.position, Vec2 { x: 35_000, y: 60_000 });
    owner.update(690, &root, &mut target);
    assert!(matches!(owner.grab.state, GrabState::Retracting));
    assert!(target.is_grabbed_by);
    // the caught character is spun to face the hook
    assert_eq!(target.gameobject.global_transform.rotation, 180_000);
}

#[test]
fn grab_misses_a_target_out_of_range() {
    let (root, mut owner, mut target) = catch_setup(587_000 - 140_000 + 90_000);
    owner.key_down_event(GameKey::Throw, false, false);
    owner.update(690, &root, &mut target);
    assert!(matches!(owner.grab.state, GrabState::Idle));
    assert!(!target.is_grabbed_by);
    assert_eq!(
        target.gameobject.transform.position,
        Vec2 { x: 587_000 - 140_000 + 90_000, y: -290_000 }
    );
}

#[test]
fn full_grab_cycle_scores_once_and_releases() {
    let (root, mut owner, mut target) = catch_setup(587_000 - 140_000 + 60_000);
    owner.key_down_event(GameKey::Throw, false, false);
    owner.update(690, &root, &mut target);
    assert!(matches!(owner.grab.state, GrabState::Retracting));
    // retracting at 800 per second pulls the hook behind the owner in
    // one second; the finished catch is flagged once and the target is
    // released into a randomized respawn on the same tick
    owner.update(1_000, &root, &mut target);
    assert!(matches!(owner.grab.state, GrabState::Idle));
    assert!(owner.grab.check_grab_once);
    assert!(!target.is_grabbed_by);
    let x = target.gameobject.transform.position.x;
    assert!(-340_000 <= x && x < 340_000);
    assert_eq!(target.gameobject.transform.position.y, 290_000);
    // the next tick banks the score and clears the flag
    owner.update(100, &root, &mut target);
    assert_eq!(owner.score, 1);
    assert!(!owner.grab.check_grab_once);
    // one catch, one point
    owner.update(100, &root, &mut target);
    assert_eq!(owner.score, 1);
}

#[test]
fn movement_is_clamped_to_the_arena_and_suppressed_while_busy() {
    let root = Transform::new();
    let mut c = Character::new();
    c.gameobject.transform.rotation = 270_000;
    c.gameobject.transform.position = Vec2 { x: 330_000, y: 290_000 };
    c.refresh_globals(&root);
    let mut other = Character::new();
    other.gameobject.transform.position = Vec2 { x: 0, y: -290_000 };
    other.refresh_globals(&root);
    c.key_down_event(GameKey::Right, false, true);
    assert_eq!(c.move_state, 1);
    // 300 units per second toward the wall: clamped at the wall
    c.update(1_000, &root, &mut other);
    assert_eq!(c.gameobject.transform.position.x, 340_000);
    // a thrown grab freezes movement
    c.key_down_event(GameKey::Throw, false, true);
    c.key_down_event(GameKey::Left, true, false);
    c.update(100, &root, &mut other);
    assert_eq!(c.gameobject.transform.position.x, 340_000);
    assert_eq!(c.target.speed, 0);
    c.key_up_event(GameKey::Left, false, false);
    assert_eq!(c.move_state, 0);
}

#[test]
fn captured_character_is_forced_neutral() {
    let root = Transform::new();
    let mut c = Character::new();
    c.gameobject.transform.position = Vec2 { x: 0, y: 290_000 };
    c.refresh_globals(&root);
    let mut other = Character::new();
    other.gameobject.transform.position = Vec2 { x: 0, y: -290_000 };
    other.refresh_globals(&root);
    c.is_grabbed_by = true;
    c.move_state = 1;
    c.grab.state = GrabState::Thrown;
    let before = c.gameobject.transform.position;
    c.update(1_000, &root, &mut other);
    assert_eq!(c.move_state, 0);
    assert!(matches!(c.grab.state, GrabState::Idle));
    assert_eq!(c.gameobject.transform.position, before);
}

#[test]
fn rebirth_randomizes_inside_the_arena() {
    let root = Transform::new();
    let mut c = Character::new();
    for _ in 0..50 {
        c.rebirth(true, &root);
        let x = c.gameobject.transform.position.x;
        assert!(-340_000 <= x && x < 340_000);
        assert_eq!(c.gameobject.transform.position.y, 290_000);
        assert_eq!(c.gameobject.transform.rotation, 270_000);
    }
    c.rebirth(false, &root);
    assert_eq!(c.gameobject.transform.position.x, 0);
}
