use grabduel::character::Character;
use grabduel::replay::{format_replay_line, parse_replay_line, ReplayCursor};
use grabduel::transform::Transform;

#[test]
fn replay_lines_format_canonically() {
    assert_eq!(format_replay_line(61_234, 3), b"61.234 3".to_vec());
    assert_eq!(format_replay_line(0, 1), b"0.000 1".to_vec());
    assert_eq!(format_replay_line(500, -2), b"0.500 -2".to_vec());
    assert_eq!(format_replay_line(3_599_999_999, 4), b"3599999.999 4".to_vec());
}

#[test]
fn replay_lines_parse_back() {
    for &(t, a) in &[
        (0i64, 1i32),
        (500, -2),
        (61_234, 3),
        (999, 4),
        (1_000, -1),
        (86_400_000, 2),
        (3_600_000_000, 1),
    ] {
        let line = format_replay_line(t, a);
        assert_eq!(parse_replay_line(&line), Some((t, a)));
    }
}

#[test]
fn malformed_replay_lines_are_rejected() {
    let bad: &[&[u8]] = &[
        b"",
        b"1.000",
        b"1.000 ",
        b"1.000 5",
        b"1.000 -3",
        b"1.00 3",
        b"1.0000 3",
        b"01.000 3",
        b"1.000  3",
        b"1.000 03",
        b"a.000 3",
        b"1.0a0 3",
        b"1.000 3x",
        b"-1.000 3",
    ];
    for b in bad {
        assert_eq!(parse_replay_line(&b.to_vec()), None, "{:?}", b);
    }
}

#[test]
fn replay_cursor_reissues_due_events_in_order() {
    let mut cur = ReplayCursor::new();
    cur.push_event(100, 2);
    cur.push_event(400, -2);
    cur.push_event(900, 3);
    let mut c = Character::new();
    c.gameobject.transform.position.y = 290_000;
    let root = Transform::new();
    c.refresh_globals(&root);
    cur.drive(&mut c, 150);
    assert_eq!(c.move_state, 1);
    assert_eq!(cur.idx, 1);
    cur.drive(&mut c, 500);
    assert_eq!(c.move_state, 0);
    assert_eq!(cur.idx, 2);
    // the throw arrives at 900 and arms the grab
    cur.drive(&mut c, 1_000);
    assert_eq!(cur.idx, 3);
    assert!(matches!(c.grab.state, grabduel::grab::GrabState::Thrown));
}
