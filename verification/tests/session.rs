use pacman::block::{Block, BlockStyle};
use pacman::entity::{Entity, EntityEnviroment, InputEvent, Keycode};
use pacman::game::{Game, GameState};
use pacman::graphics::Graphics;
use pacman::pacman::Pacman;
use pacman::patroller::Patroller;

fn red_image() -> Graphics {
    Graphics::Image { path: "./res/red.jpg".to_string() }
}

fn game_with_actor(x: i32, y: i32, scores: Vec<(i32, i32)>) -> Game {
    let mut game = Game::create("Pacman", 800, 600);
    game.add_entity(Entity::Pacman(Pacman::new("pacman", x, y)));
    game.set_scores(scores);
    game.start();
    game
}

#[test]
fn win_exactly_when_pickups_empty() {
    // One pickup in the actor's cell: the first frame resolves it, the
    // list becomes empty, and that same frame reports Win.
    let mut game = game_with_actor(64, 64, vec![(64, 64)]);
    assert!(game.well_formed());
    let outcome = game.frame(&Vec::new());
    assert!(matches!(outcome, Some(GameState::Win)));
}

#[test]
fn no_win_while_pickups_remain() {
    // A second pickup in a far cell: the first frame removes one pickup
    // but must not report Win.
    let mut game = game_with_actor(64, 64, vec![(64, 64), (320, 320)]);
    let outcome = game.frame(&Vec::new());
    assert!(outcome.is_none());
    assert_eq!(game.get_scores().len(), 1);
    assert_eq!(game.get_scores()[0], (320, 320));
}

#[test]
fn pickup_resolution_is_idempotent() {
    // After the only pickup in the actor's cell is removed, staying in
    // the cell removes nothing further on later frames.
    let mut game = game_with_actor(64, 64, vec![(64, 64), (320, 320)]);
    assert!(game.frame(&Vec::new()).is_none());
    assert_eq!(game.get_scores().len(), 1);
    assert!(game.frame(&Vec::new()).is_none());
    assert!(game.frame(&Vec::new()).is_none());
    assert_eq!(game.get_scores().len(), 1);
}

#[test]
fn at_most_one_pickup_removed_per_frame() {
    // Two pickups in the same cell: one frame removes only the first.
    let mut game = game_with_actor(64, 64, vec![(64, 64), (66, 64), (320, 320)]);
    assert!(game.frame(&Vec::new()).is_none());
    assert_eq!(game.get_scores().len(), 2);
    assert_eq!(game.get_scores()[0], (66, 64));
}

#[test]
fn lose_when_cells_match_before_updates() {
    // A patroller already in the actor's grid cell: the frame reports
    // Lose before any entity updates.
    let mut game = Game::create("Pacman", 800, 600);
    game.add_entity(Entity::Pacman(Pacman::new("pacman", 64, 96)));
    game.add_entity(Entity::Patroller(Patroller::create("ghost", 66, 96, 500, 96, red_image())));
    game.set_scores(vec![(320, 320)]);
    game.start();
    let outcome = game.frame(&Vec::new());
    assert!(matches!(outcome, Some(GameState::Lose)));
}

#[test]
fn lose_check_precedes_entity_updates() {
    // The patroller at (84,96) is in cell (3,3) while the actor is in
    // cell (2,3): no Lose this frame, though the patroller's own update
    // (moving left by 5) brings it into cell (2,3). The following frame
    // then reports Lose.
    let mut game = Game::create("Pacman", 800, 600);
    game.add_entity(Entity::Pacman(Pacman::new("pacman", 64, 96)));
    game.add_entity(Entity::Patroller(Patroller::create("ghost", 84, 96, 64, 96, red_image())));
    game.set_scores(vec![(320, 320)]);
    game.start();
    assert!(game.frame(&Vec::new()).is_none());
    let outcome = game.frame(&Vec::new());
    assert!(matches!(outcome, Some(GameState::Lose)));
}

#[test]
fn quit_event_closes_at_once() {
    let mut game = game_with_actor(64, 64, vec![(320, 320)]);
    let outcome = game.frame(&vec![InputEvent::Quit]);
    assert!(matches!(outcome, Some(GameState::Close)));
}

#[test]
fn escape_key_closes_at_once() {
    let mut game = game_with_actor(64, 64, vec![(320, 320)]);
    let outcome = game.frame(&vec![InputEvent::KeyDown(Keycode::Escape)]);
    assert!(matches!(outcome, Some(GameState::Close)));
}

#[test]
fn close_skips_rest_of_frame() {
    // A closing event stops the frame before the lose check, even with a
    // patroller on the actor's cell.
    let mut game = Game::create("Pacman", 800, 600);
    game.add_entity(Entity::Pacman(Pacman::new("pacman", 64, 96)));
    game.add_entity(Entity::Patroller(Patroller::create("ghost", 64, 96, 500, 96, red_image())));
    game.set_scores(vec![(320, 320)]);
    game.start();
    let outcome = game.frame(&vec![InputEvent::Quit]);
    assert!(matches!(outcome, Some(GameState::Close)));
}

#[test]
fn keys_are_dispatched_to_entities() {
    // A Down key queued through the frame turns the actor at its aligned
    // position; two frames later it has moved down, not right.
    let mut game = game_with_actor(64, 64, vec![(320, 320)]);
    assert!(game.frame(&vec![InputEvent::KeyDown(Keycode::S)]).is_none());
    assert!(game.frame(&Vec::new()).is_none());
    let env = game.environment();
    let actor = env.get_first(&"pacman".to_string()).expect("actor registered");
    assert_eq!(actor.get_pos(), (64, 68));
}

#[test]
fn blocked_actor_stays_put_in_session() {
    // The concrete blocked scenario driven through the orchestrator:
    // actor at (64,96) heading right, obstacle cell at (96,96).
    let mut game = Game::create("Pacman", 800, 600);
    let mut actor = Pacman::new("pacman", 64, 96);
    actor.set_blocks(vec![Block::new("block", 96, 96, BlockStyle::Full)]);
    game.add_entity(Entity::Pacman(actor));
    game.add_entity(Entity::Block(Block::new("block", 96, 96, BlockStyle::Full)));
    game.set_scores(vec![(320, 320)]);
    game.start();
    assert!(game.frame(&Vec::new()).is_none());
    let env = game.environment();
    let found = env.get_first(&"pacman".to_string()).expect("actor registered");
    assert_eq!(found.get_pos(), (64, 96));
}

#[test]
fn cleared_session_is_empty() {
    let mut game = game_with_actor(64, 64, vec![(320, 320)]);
    game.clear();
    assert_eq!(game.environment().len(), 0);
    assert_eq!(game.get_scores().len(), 0);
}

#[test]
fn registry_first_match_by_name() {
    let mut env = EntityEnviroment::create();
    env.add(Entity::Block(Block::new("block", 32, 32, BlockStyle::Full)));
    env.add(Entity::Block(Block::new("block", 96, 96, BlockStyle::Top)));
    env.add(Entity::Pacman(Pacman::new("pacman", 64, 64)));
    let first_block = env.get_first(&"block".to_string()).expect("blocks registered");
    assert_eq!(first_block.get_pos(), (32, 32));
    let actor = env.get_first(&"pacman".to_string()).expect("actor registered");
    assert_eq!(actor.get_pos(), (64, 64));
    assert!(env.get_first(&"nobody".to_string()).is_none());
    assert_eq!(env.len(), 3);
}

#[test]
fn without_actor_nothing_happens() {
    // No entity named "pacman": no lose, no pickup resolution.
    let mut game = Game::create("Pacman", 800, 600);
    game.add_entity(Entity::Patroller(Patroller::create("ghost", 64, 96, 500, 96, red_image())));
    game.set_scores(vec![(64, 96)]);
    game.start();
    assert!(game.frame(&Vec::new()).is_none());
    assert_eq!(game.get_scores().len(), 1);
}
