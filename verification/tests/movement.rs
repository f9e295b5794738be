use pacman::block::{Block, BlockStyle};
use pacman::entity::Keycode;
use pacman::pacman::Pacman;

#[test]
fn blocked_on_x_keeps_position() {
    // Actor at (64,96) heading right at speed 4; an obstacle fills the
    // cell at (96,96). The X candidate overlaps it, so X reverts; the Y
    // axis is skipped and Y is unchanged.
    let mut actor = Pacman::new("pacman", 64, 96);
    actor.set_blocks(vec![Block::new("block", 96, 96, BlockStyle::Full)]);
    actor.update();
    assert_eq!(actor.get_pos(), (64, 96));
}

#[test]
fn free_actor_glides() {
    let mut actor = Pacman::new("pacman", 64, 96);
    actor.update();
    assert_eq!(actor.get_pos(), (68, 96));
    actor.update();
    assert_eq!(actor.get_pos(), (72, 96));
}

#[test]
fn y_axis_attempted_when_x_clear() {
    // Turn the actor downward, then place an obstacle directly below:
    // the X pass finds nothing, the Y pass blocks, and Y reverts.
    let mut actor = Pacman::new("pacman", 64, 96);
    actor.on_key_down(Keycode::S);
    actor.update();
    assert_eq!(actor.get_pos(), (64, 96));
    actor.set_blocks(vec![Block::new("block", 64, 128, BlockStyle::Full)]);
    actor.update();
    assert_eq!(actor.get_pos(), (64, 96));
}

#[test]
fn queued_turn_consumed_at_grid_alignment() {
    // A queued left turn at an aligned position: the update still slides
    // with the old heading, then snaps back to the grid and adopts the
    // new heading; the next update moves left.
    let mut actor = Pacman::new("pacman", 64, 64);
    actor.on_key_down(Keycode::Left);
    actor.update();
    assert_eq!(actor.get_pos(), (64, 64));
    actor.update();
    assert_eq!(actor.get_pos(), (60, 64));
}

#[test]
fn turn_not_consumed_off_grid() {
    // Off the grid (offset 4 of 32) and unblocked, a queued turn stays
    // queued: the actor keeps gliding right.
    let mut actor = Pacman::new("pacman", 68, 64);
    actor.on_key_down(Keycode::Down);
    actor.update();
    assert_eq!(actor.get_pos(), (72, 64));
}

#[test]
fn blocked_actor_with_queued_turn_snaps() {
    // Blocked against a wall with a queued turn: the turn is consumed at
    // once even off-alignment, snapping to the nearest cell.
    let mut actor = Pacman::new("pacman", 64, 96);
    actor.set_blocks(vec![Block::new("block", 96, 96, BlockStyle::Full)]);
    actor.on_key_down(Keycode::W);
    actor.update();
    assert_eq!(actor.get_pos(), (64, 96));
    actor.update();
    assert_eq!(actor.get_pos(), (64, 92));
}

#[test]
fn all_four_keys_latch_directions() {
    for (key, expected) in [
        (Keycode::Right, (68, 64)),
        (Keycode::D, (68, 64)),
        (Keycode::Left, (60, 64)),
        (Keycode::A, (60, 64)),
        (Keycode::Down, (64, 68)),
        (Keycode::S, (64, 68)),
        (Keycode::Up, (64, 60)),
        (Keycode::W, (64, 60)),
    ] {
        let mut actor = Pacman::new("pacman", 64, 64);
        actor.on_key_down(key);
        actor.update();
        actor.update();
        assert_eq!(actor.get_pos(), expected);
    }
}

#[test]
fn other_keys_are_ignored() {
    let mut actor = Pacman::new("pacman", 64, 64);
    actor.on_key_down(Keycode::Other);
    actor.update();
    assert_eq!(actor.get_pos(), (68, 64));
}
