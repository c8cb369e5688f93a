//! Components, configuration, and the systems that spawn and move balls
//! and paddles.

use vstd::prelude::*;

use crate::world::{find_single, is_single, single_of, valid_dir, Entity, Role, World};

verus! {

/// A point or vector in world units.
#[derive(Clone, Copy, Debug, PartialEq, Eq, Structural)]
pub struct Point {
    pub x: i32,
    pub y: i32,
}

#[derive(Clone, Copy, Debug, PartialEq, Eq, Structural)]
pub struct Position {
    pub coords: Point,
}

/// A direction; each component lies in {-1, 0, 1} in a well-formed entity.
#[derive(Clone, Copy, Debug, PartialEq, Eq, Structural)]
pub struct Velocity {
    pub direction: Point,
}

/// Full width and height of an entity.
#[derive(Clone, Copy, Debug, PartialEq, Eq, Structural)]
pub struct Shape {
    pub size: Point,
}

/// Simulation parameters.
#[derive(Clone, Copy, Debug, PartialEq, Eq, Structural)]
pub struct Config {
    /// Width and height of the ball's shape: the diameter of its circle.
    pub ball_size: i32,
    pub ball_speed: i32,
    pub paddle_width: i32,
    pub paddle_height: i32,
    pub paddle_speed: i32,
    pub gutter_height: i32,
    /// Vertical component of the direction the ball is served in.
    pub serve_y: i32,
}

#[derive(Clone, Copy, Debug, PartialEq, Eq, Structural)]
pub enum ConfigError {
    /// A size or a speed is negative.
    Negative,
    /// The serve direction is not one of -1, 0 and 1.
    ServeDirection,
}

pub const BALL_SIZE: i32 = 10;
pub const BALL_SPEED: i32 = 5;
pub const PADDLE_WIDTH: i32 = 10;
pub const PADDLE_HEIGHT: i32 = 50;
pub const PADDLE_SPEED: i32 = 4;
pub const GUTTER_HEIGHT: i32 = 20;
pub const SERVE_Y: i32 = 1;
/// Distance from a side of the window to the paddle on that side.
pub const PADDLE_PADDING: i32 = 50;

impl Config {
    pub open spec fn wf(self) -> bool {
        &&& self.ball_size >= 0
        &&& self.ball_speed >= 0
        &&& self.paddle_width >= 0
        &&& self.paddle_height >= 0
        &&& self.paddle_speed >= 0
        &&& self.gutter_height >= 0
        &&& -1 <= self.serve_y <= 1
    }

    /// Checks the parameters before any tick runs.
    pub fn new(
        ball_size: i32,
        ball_speed: i32,
        paddle_width: i32,
        paddle_height: i32,
        paddle_speed: i32,
        gutter_height: i32,
        serve_y: i32,
    ) -> (r: Result<Config, ConfigError>)
        ensures
            ({
                let c = Config {
                    ball_size,
                    ball_speed,
                    paddle_width,
                    paddle_height,
                    paddle_speed,
                    gutter_height,
                    serve_y,
                };
                let negative = ball_size < 0 || ball_speed < 0 || paddle_width < 0
                    || paddle_height < 0 || paddle_speed < 0 || gutter_height < 0;
                &&& r is Ok <==> c.wf()
                &&& r matches Ok(v) ==> v == c
                &&& r matches Err(e) ==> (e == ConfigError::Negative <==> negative)
            }),
    {
        if ball_size < 0 || ball_speed < 0 || paddle_width < 0 || paddle_height < 0
            || paddle_speed < 0 || gutter_height < 0 {
            return Err(ConfigError::Negative);
        }
        if serve_y < -1 || serve_y > 1 {
            return Err(ConfigError::ServeDirection);
        }
        Ok(
            Config {
                ball_size,
                ball_speed,
                paddle_width,
                paddle_height,
                paddle_speed,
                gutter_height,
                serve_y,
            },
        )
    }

    /// The game's usual parameters.
    pub fn standard() -> (r: Config)
        ensures
            r.wf(),
            r == (Config {
                ball_size: BALL_SIZE,
                ball_speed: BALL_SPEED,
                paddle_width: PADDLE_WIDTH,
                paddle_height: PADDLE_HEIGHT,
                paddle_speed: PADDLE_SPEED,
                gutter_height: GUTTER_HEIGHT,
                serve_y: SERVE_Y,
            }),
    {
        Config {
            ball_size: BALL_SIZE,
            ball_speed: BALL_SPEED,
            paddle_width: PADDLE_WIDTH,
            paddle_height: PADDLE_HEIGHT,
            paddle_speed: PADDLE_SPEED,
            gutter_height: GUTTER_HEIGHT,
            serve_y: SERVE_Y,
        }
    }
}

/// Window dimensions in world units.
#[derive(Clone, Copy, Debug, PartialEq, Eq, Structural)]
pub struct WindowSize {
    pub width: i32,
    pub height: i32,
}


pub open spec fn abs(v: int) -> int {
    if v < 0 {
        -v
    } else {
        v
    }
}

pub open spec fn sign(v: int) -> int {
    if v > 0 {
        1
    } else if v < 0 {
        -1
    } else {
        0
    }
}

/// Half of `v`, rounded toward zero.
pub open spec fn half(v: int) -> int {
    if v >= 0 {
        v / 2
    } else {
        -((-v) / 2)
    }
}

/// A move of `speed` along any direction keeps `p` within range.
pub open spec fn roomy(p: Point, speed: int) -> bool {
    &&& i32::MIN + speed <= p.x <= i32::MAX - speed
    &&& i32::MIN + speed <= p.y <= i32::MAX - speed
}

/// Every entity of `role` has room to move at `speed`.
pub open spec fn has_room(s: Seq<Entity>, role: Role, speed: int) -> bool {
    forall|i: int| 0 <= i < s.len() && #[trigger] s[i].role == role ==> roomy(s[i].position.coords, speed)
}

/// `p + d * speed`.
pub open spec fn moved(p: Point, d: Point, speed: int) -> Point {
    Point { x: (p.x + d.x * speed) as i32, y: (p.y + d.y * speed) as i32 }
}

/// The entity moved one tick along its direction at `speed`.
pub open spec fn advanced(e: Entity, speed: int) -> Entity {
    e.with_coords(moved(e.position.coords, e.velocity.direction, speed))
}

/// `c + d * speed`, for a direction component `d`.
fn step_axis(c: i32, d: i32, speed: i32) -> (r: i64)
    requires
        valid_dir(d),
        speed >= 0,
    ensures
        r == c + d * speed,
        i32::MIN - i32::MAX <= r <= 2 * (i32::MAX as int),
{
    if d > 0 {
        assert(d * speed == speed) by (nonlinear_arith)
            requires
                d == 1,
        ;
        c as i64 + speed as i64
    } else if d < 0 {
        assert(d * speed == -speed) by (nonlinear_arith)
            requires
                d == -1,
        ;
        c as i64 - speed as i64
    } else {
        assert(d * speed == 0) by (nonlinear_arith)
            requires
                d == 0,
        ;
        c as i64
    }
}

fn advance(e: Entity, speed: i32) -> (r: Entity)
    requires
        e.wf(),
        speed >= 0,
        roomy(e.position.coords, speed as int),
    ensures
        r == advanced(e, speed as int),
        r.wf(),
{
    let x = step_axis(e.position.coords.x, e.velocity.direction.x, speed);
    let y = step_axis(e.position.coords.y, e.velocity.direction.y, speed);
    Entity { position: Position { coords: Point { x: x as i32, y: y as i32 } }, ..e }
}

/// The ball as spawned: at the centre, heading right and up.
pub open spec fn ball_entity(cfg: Config) -> Entity {
    Entity {
        role: Role::Ball,
        position: Position { coords: Point { x: 0, y: 0 } },
        velocity: Velocity { direction: Point { x: 1, y: 1 } },
        shape: Shape { size: Point { x: cfg.ball_size, y: cfg.ball_size } },
    }
}

/// The entities after the ball's motion step: the single ball moves at the
/// ball speed; with no single ball nothing changes.
pub open spec fn ball_moved(s: Seq<Entity>, cfg: Config) -> Seq<Entity> {
    match single_of(s, Role::Ball) {
        Some(i) => s.update(i, advanced(s[i], cfg.ball_speed as int)),
        None => s,
    }
}

/// The role tag of the ball entity.
pub struct Ball;

impl Ball {
    /// Spawns the ball and returns its identifier.
    pub fn spawn(world: &mut World) -> (id: usize)
        requires
            old(world).wf(),
        ensures
            final(world).wf(),
            final(world).config == old(world).config,
            final(world).score == old(world).score,
            final(world).entities@ == old(world).entities@.push(ball_entity(old(world).config)),
            id == old(world).entities@.len(),
    {
        let size = world.config.ball_size;
        let e = Entity {
            role: Role::Ball,
            position: Position { coords: Point { x: 0, y: 0 } },
            velocity: Velocity { direction: Point { x: 1, y: 1 } },
            shape: Shape { size: Point { x: size, y: size } },
        };
        world.spawn(e)
    }

    /// Moves the single ball one tick along its direction.
    pub fn movement(world: &mut World)
        requires
            old(world).wf(),
            has_room(old(world).entities@, Role::Ball, old(world).config.ball_speed as int),
        ensures
            final(world).wf(),
            final(world).config == old(world).config,
            final(world).score == old(world).score,
            final(world).entities@ == ball_moved(old(world).entities@, old(world).config),
    {
        if let Some(i) = find_single(&world.entities, Role::Ball) {
            let e = world.entities[i];
            assert(world.entities@[i as int].wf());
            let moved = advance(e, world.config.ball_speed);
            world.entities.set(i, moved);
            proof {
                let s = world.entities@;
                assert forall|k: int| 0 <= k < s.len() implies #[trigger] s[k].wf() by {
                    if k != i as int {
                        assert(old(world).entities@[k].wf());
                    }
                }
            }
        }
    }
}

/// The paddles as spawned for a window of width `w`: the player near the
/// right side, the opponent near the left side, both at rest.
pub open spec fn player_entity(cfg: Config, w: WindowSize) -> Entity {
    Entity {
        role: Role::Player,
        position: Position { coords: Point { x: (half(w.width as int) - PADDLE_PADDING) as i32, y: 0 } },
        velocity: Velocity { direction: Point { x: 0, y: 0 } },
        shape: Shape { size: Point { x: cfg.paddle_width, y: cfg.paddle_height } },
    }
}

pub open spec fn opponent_entity(cfg: Config, w: WindowSize) -> Entity {
    Entity {
        role: Role::Opponent,
        position: Position { coords: Point { x: (PADDLE_PADDING - half(w.width as int)) as i32, y: 0 } },
        velocity: Velocity { direction: Point { x: 0, y: 0 } },
        shape: Shape { size: Point { x: cfg.paddle_width, y: cfg.paddle_height } },
    }
}

fn half_exec(v: i64) -> (r: i64)
    requires
        v > i64::MIN,
    ensures
        r == half(v as int),
{
    if v >= 0 {
        v / 2
    } else {
        -((-v) / 2)
    }
}

/// Spawns the player's paddle and the opponent's paddle.
pub fn spawn_paddles(world: &mut World, window: WindowSize)
    requires
        old(world).wf(),
    ensures
        final(world).wf(),
        final(world).config == old(world).config,
        final(world).score == old(world).score,
        final(world).entities@ == old(world).entities@.push(
            player_entity(old(world).config, window),
        ).push(opponent_entity(old(world).config, window)),
{
    let hw = half_exec(window.width as i64);
    let shape = Shape { size: Point { x: world.config.paddle_width, y: world.config.paddle_height } };
    let rest = Velocity { direction: Point { x: 0, y: 0 } };
    world.spawn(
        Entity {
            role: Role::Player,
            position: Position { coords: Point { x: (hw - PADDLE_PADDING as i64) as i32, y: 0 } },
            velocity: rest,
            shape,
        },
    );
    world.spawn(
        Entity {
            role: Role::Opponent,
            position: Position { coords: Point { x: (PADDLE_PADDING as i64 - hw) as i32, y: 0 } },
            velocity: rest,
            shape,
        },
    );
}

/// The two gutters for a window: strips as wide as the window along its
/// top and bottom edges.
pub open spec fn gutter_entity(cfg: Config, w: WindowSize, top: bool) -> Entity {
    let y = half(w.height as int - cfg.gutter_height);
    Entity {
        role: Role::Gutter,
        position: Position { coords: Point { x: 0, y: (if top { y } else { -y }) as i32 } },
        velocity: Velocity { direction: Point { x: 0, y: 0 } },
        shape: Shape { size: Point { x: w.width, y: cfg.gutter_height } },
    }
}

/// Spawns the top and the bottom gutter.
pub fn spawn_gutters(world: &mut World, window: WindowSize)
    requires
        old(world).wf(),
        window.width >= 0,
    ensures
        final(world).wf(),
        final(world).config == old(world).config,
        final(world).score == old(world).score,
        final(world).entities@ == old(world).entities@.push(
            gutter_entity(old(world).config, window, true),
        ).push(gutter_entity(old(world).config, window, false)),
{
    let y = half_exec(window.height as i64 - world.config.gutter_height as i64);
    let shape = Shape { size: Point { x: window.width, y: world.config.gutter_height } };
    let still = Velocity { direction: Point { x: 0, y: 0 } };
    world.spawn(
        Entity {
            role: Role::Gutter,
            position: Position { coords: Point { x: 0, y: y as i32 } },
            velocity: still,
            shape,
        },
    );
    world.spawn(
        Entity {
            role: Role::Gutter,
            position: Position { coords: Point { x: 0, y: (-y) as i32 } },
            velocity: still,
            shape,
        },
    );
}

/// The player's paddle may stand at height `y`: `|y| < max_y`, where
/// `max_y = height / 2 - gutter_height - paddle_height / 2`, here stated at
/// twice the scale.
pub open spec fn within_limit(y: int, cfg: Config, w: WindowSize) -> bool {
    2 * abs(y) < w.height - 2 * cfg.gutter_height - cfg.paddle_height
}

/// One player paddle's move: taken when the new height is within the
/// limit, refused otherwise. Other entities do not move.
pub open spec fn player_step(e: Entity, cfg: Config, w: WindowSize) -> Entity {
    if e.role == Role::Player && within_limit(
        e.position.coords.y + e.velocity.direction.y * cfg.paddle_speed,
        cfg,
        w,
    ) {
        advanced(e, cfg.paddle_speed as int)
    } else {
        e
    }
}

pub open spec fn players_moved(s: Seq<Entity>, cfg: Config, w: WindowSize) -> Seq<Entity> {
    Seq::new(s.len(), |i: int| player_step(s[i], cfg, w))
}

/// Moves every player paddle whose new height stays within the limit.
pub fn move_player_paddle(world: &mut World, window: WindowSize)
    requires
        old(world).wf(),
        has_room(old(world).entities@, Role::Player, old(world).config.paddle_speed as int),
    ensures
        final(world).wf(),
        final(world).config == old(world).config,
        final(world).score == old(world).score,
        final(world).entities@ == players_moved(
            old(world).entities@,
            old(world).config,
            window,
        ),
        forall|i: int|
            0 <= i < old(world).entities@.len() && old(world).entities@[i].role == Role::Player
                ==> {
                let e = old(world).entities@[i];
                let new_y = e.position.coords.y + e.velocity.direction.y
                    * old(world).config.paddle_speed;
                &&& within_limit(new_y, old(world).config, window) ==> final(world).entities@[i]
                    == advanced(e, old(world).config.paddle_speed as int)
                &&& !within_limit(new_y, old(world).config, window) ==> final(world).entities@[i]
                    == e
            },
{
    let ghost s = world.entities@;
    let ghost score = world.score;
    let cfg = world.config;
    let limit = window.height as i64 - 2 * (cfg.gutter_height as i64) - cfg.paddle_height as i64;
    let mut i: usize = 0;
    while i < world.entities.len()
        invariant
            world.config == cfg,
            world.score == score,
            cfg.wf(),
            i <= s.len(),
            world.entities@.len() == s.len(),
            limit == window.height - 2 * cfg.gutter_height - cfg.paddle_height,
            has_room(s, Role::Player, cfg.paddle_speed as int),
            forall|k: int| 0 <= k < s.len() ==> #[trigger] s[k].wf(),
            forall|k: int| 0 <= k < i ==> #[trigger] world.entities@[k] == player_step(s[k], cfg, window),
            forall|k: int| i <= k < s.len() ==> #[trigger] world.entities@[k] == s[k],
        decreases s.len() - i,
    {
        let e = world.entities[i];
        assert(s[i as int].wf());
        if e.role == Role::Player {
            let y = step_axis(e.position.coords.y, e.velocity.direction.y, cfg.paddle_speed);
            let ay = if y < 0 {
                -y
            } else {
                y
            };
            if 2 * ay < limit {
                let moved = advance(e, cfg.paddle_speed);
                world.entities.set(i, moved);
            }
        }
        i += 1;
    }
    proof {
        assert(world.entities@ =~= players_moved(s, cfg, window));
        assert forall|k: int| 0 <= k < s.len() implies #[trigger] world.entities@[k].wf() by {
            assert(s[k].wf());
        }
    }
}

/// Every opponent paddle moved one tick at the paddle speed, without a
/// limit.
pub open spec fn opponents_moved(s: Seq<Entity>, cfg: Config) -> Seq<Entity> {
    Seq::new(
        s.len(),
        |i: int|
            if s[i].role == Role::Opponent {
                advanced(s[i], cfg.paddle_speed as int)
            } else {
                s[i]
            },
    )
}

/// Moves every opponent paddle along its direction.
pub fn move_opponent_along(world: &mut World)
    requires
        old(world).wf(),
        has_room(old(world).entities@, Role::Opponent, old(world).config.paddle_speed as int),
    ensures
        final(world).wf(),
        final(world).config == old(world).config,
        final(world).score == old(world).score,
        final(world).entities@ == opponents_moved(old(world).entities@, old(world).config),
{
    let ghost s = world.entities@;
    let ghost score = world.score;
    let cfg = world.config;
    let mut i: usize = 0;
    while i < world.entities.len()
        invariant
            world.config == cfg,
            world.score == score,
            cfg.wf(),
            i <= s.len(),
            world.entities@.len() == s.len(),
            has_room(s, Role::Opponent, cfg.paddle_speed as int),
            forall|k: int| 0 <= k < s.len() ==> #[trigger] s[k].wf(),
            forall|k: int|
                0 <= k < i ==> #[trigger] world.entities@[k] == opponents_moved(s, cfg)[k],
            forall|k: int| i <= k < s.len() ==> #[trigger] world.entities@[k] == s[k],
        decreases s.len() - i,
    {
        let e = world.entities[i];
        assert(s[i as int].wf());
        if e.role == Role::Opponent {
            let moved = advance(e, cfg.paddle_speed);
            world.entities.set(i, moved);
        }
        i += 1;
    }
    proof {
        assert(world.entities@ =~= opponents_moved(s, cfg));
        assert forall|k: int| 0 <= k < s.len() implies #[trigger] world.entities@[k].wf() by {
            assert(s[k].wf());
        }
    }
}

/// The opponent's direction after aiming: its vertical component is the
/// sign of the ball's height above the opponent.
pub open spec fn aimed(s: Seq<Entity>) -> Seq<Entity> {
    match (single_of(s, Role::Opponent), single_of(s, Role::Ball)) {
        (Some(o), Some(b)) => s.update(
            o,
            s[o].with_direction(
                Point {
                    x: s[o].velocity.direction.x,
                    y: sign(s[b].position.coords.y - s[o].position.coords.y) as i32,
                },
            ),
        ),
        _ => s,
    }
}

/// Points the single opponent paddle toward the single ball, vertically.
pub fn move_opponent_paddle(world: &mut World)
    requires
        old(world).wf(),
    ensures
        final(world).wf(),
        final(world).config == old(world).config,
        final(world).score == old(world).score,
        final(world).entities@ == aimed(old(world).entities@),
        forall|o: int, b: int|
            is_single(old(world).entities@, Role::Opponent, o) && is_single(
                old(world).entities@,
                Role::Ball,
                b,
            ) ==> final(world).entities@[o].velocity.direction.y == sign(
                old(world).entities@[b].position.coords.y - old(world).entities@[o].position.coords.y,
            ),
{
    let ghost s = world.entities@;
    proof {
        assert forall|o: int, b: int|
            is_single(s, Role::Opponent, o) && is_single(s, Role::Ball, b) implies single_of(
            s,
            Role::Opponent,
        ) == Some(o) && single_of(s, Role::Ball) == Some(b) by {
            crate::world::lemma_single_of(s, Role::Opponent, o);
            crate::world::lemma_single_of(s, Role::Ball, b);
        }
    }
    if let Some(o) = find_single(&world.entities, Role::Opponent) {
        if let Some(b) = find_single(&world.entities, Role::Ball) {
            let opp = world.entities[o];
            let ball = world.entities[b];
            assert(s[o as int].wf());
            let dy = ball.position.coords.y as i64 - opp.position.coords.y as i64;
            let y: i32 = if dy > 0 {
                1
            } else if dy < 0 {
                -1
            } else {
                0
            };
            let d = Point { x: opp.velocity.direction.x, y };
            world.entities.set(o, Entity { velocity: Velocity { direction: d }, ..opp });
            proof {
                assert(world.entities@ =~= aimed(s));
                assert forall|k: int| 0 <= k < s.len() implies #[trigger] world.entities@[k].wf() by {
                    assert(s[k].wf());
                }
            }
        }
    }
}

} // verus!
