use pacman::graphics::Graphics;
use pacman::patroller::Patroller;

#[test]
fn straight_patrol_reaches_target_in_eighty_updates() {
    // Home (100,100), target (500,100), speed 5: the 400-unit straight
    // run takes exactly 400/5 = 80 updates, ending exactly on the target
    // with no overshoot.
    let mut ghost = Patroller::create(
        "ghost",
        100,
        100,
        500,
        100,
        Graphics::Image { path: "./res/red.jpg".to_string() },
    );
    for _ in 0..79 {
        ghost.update();
    }
    assert_eq!(ghost.get_pos(), (495, 100));
    ghost.update();
    assert_eq!(ghost.get_pos(), (500, 100));
    // The final approach covered exactly the speed, so the heading flips
    // on the following update, which stays put on the target.
    ghost.update();
    assert_eq!(ghost.get_pos(), (500, 100));
    // Now heading home again.
    ghost.update();
    assert_eq!(ghost.get_pos(), (495, 100));
}

#[test]
fn snap_within_speed_and_flip() {
    // Starting closer than the speed to the target: one update snaps
    // exactly onto the target and flips the heading; the next update
    // heads for the opposite waypoint (and snaps straight back).
    let mut ghost = Patroller::create(
        "ghost",
        498,
        100,
        500,
        100,
        Graphics::Image { path: "./res/red.jpg".to_string() },
    );
    ghost.update();
    assert_eq!(ghost.get_pos(), (500, 100));
    ghost.update();
    assert_eq!(ghost.get_pos(), (498, 100));
}

#[test]
fn diagonal_patrol_uses_rounded_axis_steps() {
    // A 3-4-5 diagonal: each update advances by (3,4), the rounded
    // per-axis share of speed 5.
    let mut ghost = Patroller::create(
        "ghost",
        0,
        0,
        30,
        40,
        Graphics::Image { path: "./res/pink.jpg".to_string() },
    );
    ghost.update();
    assert_eq!(ghost.get_pos(), (3, 4));
    ghost.update();
    assert_eq!(ghost.get_pos(), (6, 8));
    for _ in 0..8 {
        ghost.update();
    }
    assert_eq!(ghost.get_pos(), (30, 40));
}

#[test]
fn patrollers_ignore_keys() {
    let mut ghost = Patroller::create(
        "ghost",
        100,
        100,
        200,
        100,
        Graphics::Image { path: "./res/red.jpg".to_string() },
    );
    ghost.on_key_down(pacman::entity::Keycode::Left);
    ghost.update();
    assert_eq!(ghost.get_pos(), (105, 100));
}
