use grabduel::menu::ButtonRect;

#[test]
fn clicks_inside_the_button_hit() {
    let mut b = ButtonRect { x: 640_000, y: 320_000, s_x: 195_000, s_y: 49_000 };
    assert!(b.isInIt(640_000, 320_000));
    assert!(b.isInIt(640_000 - 97_500, 320_000 + 24_500));
    assert!(!b.isInIt(640_000 - 97_501, 320_000));
    assert!(!b.isInIt(640_000, 320_000 + 24_501));
    assert!(!b.isInIt(0, 0));
}
