use paddle::components::{
    move_opponent_paddle, move_player_paddle, spawn_gutters, spawn_paddles, Ball, Config,
    ConfigError, Point, Position, Shape, Velocity, WindowSize,
};
use paddle::game::{detect_scoring, reset_ball, update_score, PointScored, Score, Scorer};
use paddle::input::{handle, Action, ActionState};
use paddle::physics::{detect_collision, handle_collisions, BoundingBox, BoundingCircle, Collision};
use paddle::scoreboard::{OpponentScore, PlayerScore};
use paddle::world::{find_single, Entity, Role, World};

fn entity(role: Role, x: i32, y: i32, dx: i32, dy: i32, w: i32, h: i32) -> Entity {
    Entity {
        role,
        position: Position { coords: Point { x, y } },
        velocity: Velocity { direction: Point { x: dx, y: dy } },
        shape: Shape { size: Point { x: w, y: h } },
    }
}

fn world_with(entities: Vec<Entity>) -> World {
    let mut world = World::new(Config::standard());
    for e in entities {
        world.spawn(e);
    }
    world
}

fn circle(x: i32, y: i32, r: i32) -> BoundingCircle {
    BoundingCircle { center: Point { x, y }, diameter: 2 * r }
}

fn rect(x: i32, y: i32, w: i32, h: i32) -> BoundingBox {
    BoundingBox { center: Point { x, y }, size: Point { x: w, y: h } }
}

const WINDOW: WindowSize = WindowSize { width: 800, height: 600 };
const NOTHING: ActionState = ActionState { move_up: false, move_down: false };

#[test]
fn box_to_the_right_is_a_left_collision() {
    assert_eq!(detect_collision(&circle(0, 0, 5), &rect(10, 0, 10, 10)), Some(Collision::Left));
}

#[test]
fn box_to_the_left_is_a_right_collision() {
    assert_eq!(detect_collision(&circle(0, 0, 5), &rect(-10, 0, 10, 10)), Some(Collision::Right));
}

#[test]
fn box_above_touches_with_an_offset_that_points_down() {
    // The closest point is (0, 5), so the offset is (0, -5): the vertical
    // axis wins the tie and a non-positive y gives Bottom.
    assert_eq!(detect_collision(&circle(0, 0, 5), &rect(0, 10, 10, 10)), Some(Collision::Bottom));
}

#[test]
fn box_below_is_a_top_collision() {
    assert_eq!(detect_collision(&circle(0, 0, 5), &rect(0, -10, 10, 10)), Some(Collision::Top));
}

#[test]
fn zero_offset_defaults_to_bottom() {
    assert_eq!(detect_collision(&circle(0, 0, 5), &rect(0, 0, 10, 10)), Some(Collision::Bottom));
    assert_eq!(detect_collision(&circle(3, 4, 0), &rect(3, 4, 0, 0)), Some(Collision::Bottom));
}

#[test]
fn distant_box_does_not_collide() {
    assert_eq!(detect_collision(&circle(0, 0, 5), &rect(11, 0, 10, 10)), None);
    // Corner: the closest point (4, 4) lies sqrt(32) from the centre.
    assert_eq!(detect_collision(&circle(0, 0, 5), &rect(9, 9, 10, 10)), None);
    assert_eq!(detect_collision(&circle(0, 0, 6), &rect(9, 9, 10, 10)), Some(Collision::Bottom));
}

#[test]
fn odd_box_size_uses_half_extents() {
    // Box of width 9 centred at 10: its left edge is at 5.5.
    assert_eq!(detect_collision(&circle(0, 0, 5), &rect(10, 0, 9, 10)), None);
    assert_eq!(detect_collision(&circle(0, 0, 6), &rect(10, 0, 9, 10)), Some(Collision::Left));
}

#[test]
fn side_hit_flips_horizontal_direction_only() {
    let mut v = Velocity { direction: Point { x: 1, y: -1 } };
    v.bounce(Collision::Left);
    assert_eq!(v.direction, Point { x: -1, y: -1 });
    v.bounce(Collision::Right);
    assert_eq!(v.direction, Point { x: 1, y: -1 });
}

#[test]
fn top_or_bottom_hit_flips_vertical_direction_only() {
    let mut v = Velocity { direction: Point { x: 1, y: -1 } };
    v.bounce(Collision::Top);
    assert_eq!(v.direction, Point { x: 1, y: 1 });
    v.bounce(Collision::Bottom);
    assert_eq!(v.direction, Point { x: 1, y: -1 });
}

#[test]
fn ball_bounces_off_a_paddle() {
    let mut world = world_with(vec![
        entity(Role::Ball, 0, 0, 1, 1, 10, 10),
        entity(Role::Opponent, 10, 0, 0, 0, 10, 10),
    ]);
    handle_collisions(&mut world);
    assert_eq!(world.entities[0].velocity.direction, Point { x: -1, y: 1 });
    assert_eq!(world.entities[0].position.coords, Point { x: 0, y: 0 });
    assert_eq!(world.entities[1], entity(Role::Opponent, 10, 0, 0, 0, 10, 10));
}

#[test]
fn each_overlap_is_handled_in_turn() {
    let mut world = world_with(vec![
        entity(Role::Gutter, 10, 0, 0, 0, 10, 10),
        entity(Role::Ball, 0, 0, 1, 1, 10, 10),
        entity(Role::Gutter, -10, 0, 0, 0, 10, 10),
        entity(Role::Gutter, 0, -10, 0, 0, 10, 10),
    ]);
    handle_collisions(&mut world);
    assert_eq!(world.entities[1].velocity.direction, Point { x: 1, y: -1 });
}

#[test]
fn no_ball_leaves_everything_unchanged() {
    let paddle = entity(Role::Player, 0, 0, 0, 1, 10, 50);
    let gutter = entity(Role::Gutter, 0, 0, 0, 0, 800, 20);
    let mut world = world_with(vec![paddle, gutter]);
    Ball::movement(&mut world);
    handle_collisions(&mut world);
    let events = detect_scoring(&world, WINDOW);
    assert!(events.is_empty());
    reset_ball(&mut world, &vec![PointScored { by: Scorer::Opponent }]);
    assert_eq!(world.entities, vec![paddle, gutter]);
}

#[test]
fn two_balls_are_not_moved() {
    let a = entity(Role::Ball, 0, 0, 1, 1, 10, 10);
    let b = entity(Role::Ball, 100, 0, 1, 1, 5, 5);
    let mut world = world_with(vec![a, b]);
    Ball::movement(&mut world);
    assert_eq!(world.entities, vec![a, b]);
    assert_eq!(find_single(&world.entities, Role::Ball), None);
}

#[test]
fn ball_moves_at_ball_speed() {
    let mut world = world_with(vec![entity(Role::Ball, 10, 20, -1, 1, 5, 5)]);
    Ball::movement(&mut world);
    assert_eq!(world.entities[0].position.coords, Point { x: 5, y: 25 });
}

#[test]
fn resting_world_is_unchanged_by_two_motion_steps() {
    let entities = vec![
        entity(Role::Ball, 7, -3, 0, 0, 5, 5),
        entity(Role::Player, 350, 0, 0, 0, 10, 50),
        entity(Role::Opponent, -350, 12, 0, 0, 10, 50),
    ];
    let mut world = world_with(entities.clone());
    world.integrate(Some(WINDOW));
    world.integrate(Some(WINDOW));
    assert_eq!(world.entities, entities);
}

#[test]
fn ball_beyond_right_edge_scores_for_opponent() {
    let mut world = world_with(vec![
        entity(Role::Ball, 401, 30, 1, 1, 5, 5),
        entity(Role::Player, 350, 0, 0, 0, 10, 50),
    ]);
    world.score = Score { player: 2, opponent: 3 };
    let events = detect_scoring(&world, WINDOW);
    assert_eq!(events, vec![PointScored { by: Scorer::Opponent }]);
    reset_ball(&mut world, &events);
    update_score(&mut world.score, &events);
    assert_eq!(world.entities[0].position.coords, Point { x: 0, y: 0 });
    assert_eq!(world.entities[0].velocity.direction, Point { x: -1, y: 1 });
    assert_eq!(world.score, Score { player: 2, opponent: 4 });
}

#[test]
fn ball_beyond_left_edge_scores_for_player() {
    let mut world = world_with(vec![entity(Role::Ball, -401, 0, -1, -1, 5, 5)]);
    let events = detect_scoring(&world, WINDOW);
    assert_eq!(events, vec![PointScored { by: Scorer::Player }]);
    reset_ball(&mut world, &events);
    update_score(&mut world.score, &events);
    assert_eq!(world.entities[0].position.coords, Point { x: 0, y: 0 });
    assert_eq!(world.entities[0].velocity.direction, Point { x: 1, y: 1 });
    assert_eq!(world.score, Score { player: 1, opponent: 0 });
}

#[test]
fn ball_on_the_edge_does_not_score() {
    let world = world_with(vec![entity(Role::Ball, 400, 0, 1, 1, 5, 5)]);
    assert!(detect_scoring(&world, WINDOW).is_empty());
    let world = world_with(vec![entity(Role::Ball, -400, 0, 1, 1, 5, 5)]);
    assert!(detect_scoring(&world, WINDOW).is_empty());
}

#[test]
fn tick_scores_and_serves() {
    let mut world = world_with(vec![entity(Role::Ball, 398, 0, 1, 0, 5, 5)]);
    let events = world.tick(Some(WINDOW), &NOTHING);
    assert_eq!(events, vec![PointScored { by: Scorer::Opponent }]);
    assert_eq!(world.entities[0].position.coords, Point { x: 0, y: 0 });
    assert_eq!(world.entities[0].velocity.direction, Point { x: -1, y: 1 });
    assert_eq!(world.score, Score { player: 0, opponent: 1 });
}

#[test]
fn opponent_tracks_the_ball() {
    let mut world = world_with(vec![
        entity(Role::Opponent, -350, 10, 0, 0, 10, 50),
        entity(Role::Ball, 0, 40, 1, 1, 5, 5),
    ]);
    move_opponent_paddle(&mut world);
    assert_eq!(world.entities[0].velocity.direction.y, 1);
    world.entities[1].position.coords.y = -5;
    move_opponent_paddle(&mut world);
    assert_eq!(world.entities[0].velocity.direction.y, -1);
    world.entities[1].position.coords.y = 10;
    move_opponent_paddle(&mut world);
    assert_eq!(world.entities[0].velocity.direction.y, 0);
}

#[test]
fn opponent_is_not_limited() {
    let mut world = world_with(vec![entity(Role::Opponent, -350, 290, 0, 1, 10, 50)]);
    world.integrate(Some(WINDOW));
    assert_eq!(world.entities[0].position.coords, Point { x: -350, y: 294 });
}

#[test]
fn player_move_within_limit_is_taken() {
    // max_y = 600 / 2 - 20 - 50 / 2 = 255
    let mut world = world_with(vec![entity(Role::Player, 350, 250, 0, 1, 10, 50)]);
    move_player_paddle(&mut world, WINDOW);
    assert_eq!(world.entities[0].position.coords, Point { x: 350, y: 254 });
}

#[test]
fn player_move_reaching_limit_is_refused() {
    let mut world = world_with(vec![entity(Role::Player, 350, 251, 0, 1, 10, 50)]);
    move_player_paddle(&mut world, WINDOW);
    assert_eq!(world.entities[0].position.coords, Point { x: 350, y: 251 });
    let mut world = world_with(vec![entity(Role::Player, 350, -252, 0, -1, 10, 50)]);
    move_player_paddle(&mut world, WINDOW);
    assert_eq!(world.entities[0].position.coords, Point { x: 350, y: -252 });
}

#[test]
fn input_sets_player_direction() {
    let mut world = world_with(vec![entity(Role::Player, 350, 0, 0, 0, 10, 50)]);
    handle(&mut world, &ActionState { move_up: true, move_down: false });
    assert_eq!(world.entities[0].velocity.direction.y, 1);
    handle(&mut world, &ActionState { move_up: false, move_down: true });
    assert_eq!(world.entities[0].velocity.direction.y, -1);
    handle(&mut world, &ActionState { move_up: true, move_down: true });
    assert_eq!(world.entities[0].velocity.direction.y, 1);
    handle(&mut world, &NOTHING);
    assert_eq!(world.entities[0].velocity.direction.y, 0);
}

#[test]
fn action_state_reports_pressed_actions() {
    let a = ActionState { move_up: false, move_down: true };
    assert!(!a.pressed(&Action::MoveUp));
    assert!(a.pressed(&Action::MoveDown));
}

#[test]
fn spawned_entities_are_placed_for_the_window() {
    let mut world = World::new(Config::standard());
    Ball::spawn(&mut world);
    spawn_paddles(&mut world, WINDOW);
    spawn_gutters(&mut world, WINDOW);
    assert_eq!(world.entities.len(), 5);
    assert_eq!(world.entities[0], entity(Role::Ball, 0, 0, 1, 1, 10, 10));
    assert_eq!(world.entities[1], entity(Role::Player, 350, 0, 0, 0, 10, 50));
    assert_eq!(world.entities[2], entity(Role::Opponent, -350, 0, 0, 0, 10, 50));
    assert_eq!(world.entities[3], entity(Role::Gutter, 0, 290, 0, 0, 800, 20));
    assert_eq!(world.entities[4], entity(Role::Gutter, 0, -290, 0, 0, 800, 20));
    assert!(world.movers_fit());
}

#[test]
fn config_rejects_negative_and_bad_serve() {
    assert_eq!(Config::new(10, 5, 10, 50, 4, 20, 1), Ok(Config::standard()));
    assert_eq!(Config::new(5, -1, 10, 50, 4, 20, 1), Err(ConfigError::Negative));
    assert_eq!(Config::new(5, 5, 10, 50, 4, -20, 7), Err(ConfigError::Negative));
    assert_eq!(Config::new(5, 5, 10, 50, 4, 20, 2), Err(ConfigError::ServeDirection));
}

#[test]
fn movers_fit_detects_a_ball_at_the_limit() {
    let world = world_with(vec![entity(Role::Ball, i32::MAX - 2, 0, 1, 1, 5, 5)]);
    assert!(!world.movers_fit());
    let world = world_with(vec![entity(Role::Gutter, i32::MAX, 0, 0, 0, 5, 5)]);
    assert!(world.movers_fit());
}

#[test]
fn scoreboard_shows_each_counter() {
    let score = Score { player: 3, opponent: 7 };
    assert_eq!(PlayerScore.shown(&score), 3);
    assert_eq!(OpponentScore.shown(&score), 7);
}

#[test]
fn full_game_tick_moves_everything() {
    let mut world = World::new(Config::standard());
    Ball::spawn(&mut world);
    spawn_paddles(&mut world, WINDOW);
    spawn_gutters(&mut world, WINDOW);
    let events = world.tick(Some(WINDOW), &ActionState { move_up: true, move_down: false });
    assert!(events.is_empty());
    assert_eq!(world.entities[0].position.coords, Point { x: 5, y: 5 });
    assert_eq!(world.entities[1].position.coords, Point { x: 350, y: 4 });
    assert_eq!(world.entities[2].position.coords, Point { x: -350, y: 0 });
    assert_eq!(world.entities[2].velocity.direction.y, 0);
    let events = world.tick(None, &NOTHING);
    assert!(events.is_empty());
    assert_eq!(world.entities[0].position.coords, Point { x: 10, y: 10 });
    assert_eq!(world.entities[1].position.coords, Point { x: 350, y: 4 });
    assert_eq!(world.entities[2].position.coords, Point { x: -350, y: 4 });
}
