//! The tick: every system, once, in an order where each reads what the
//! previous ones settled.

use vstd::prelude::*;

use crate::components::{
    advanced, aimed, player_step, ball_moved, has_room, move_opponent_along, move_opponent_paddle, move_player_paddle,
    opponents_moved, players_moved, roomy, Ball, Config, WindowSize,
};
use crate::game::{
    detect_scoring, reset_ball, scored, scoring_events, served, update_score, PointScored,
};
use crate::input::{handle, steered, ActionState};
use crate::physics::{collided, handle_collisions};
use crate::world::{is_single, lemma_no_single, single_of, Entity, Role, World};

verus! {

/// Every moving entity has room for one more move at its speed.
pub open spec fn movers_have_room(s: Seq<Entity>, cfg: Config) -> bool {
    &&& has_room(s, Role::Ball, cfg.ball_speed as int)
    &&& has_room(s, Role::Player, cfg.paddle_speed as int)
    &&& has_room(s, Role::Opponent, cfg.paddle_speed as int)
}

/// The motion step: the ball, then the player paddles (only when the
/// window is known, as their limit depends on it), then the opponent
/// paddles.
pub open spec fn integrated(s: Seq<Entity>, cfg: Config, window: Option<WindowSize>) -> Seq<
    Entity,
> {
    let s1 = ball_moved(s, cfg);
    let s2 = match window {
        Some(w) => players_moved(s1, cfg, w),
        None => s1,
    };
    opponents_moved(s2, cfg)
}

/// The entities once input, aiming, motion and collisions have run.
pub open spec fn before_scoring(
    s: Seq<Entity>,
    cfg: Config,
    window: Option<WindowSize>,
    actions: ActionState,
) -> Seq<Entity> {
    collided(integrated(aimed(steered(s, actions)), cfg, window))
}

/// The points won in a tick; none when the window is unknown.
pub open spec fn tick_events(
    s: Seq<Entity>,
    cfg: Config,
    window: Option<WindowSize>,
    actions: ActionState,
) -> Seq<PointScored> {
    match window {
        Some(w) => scoring_events(before_scoring(s, cfg, window, actions), w),
        None => seq![],
    }
}

/// The entities after a whole tick.
pub open spec fn ticked(
    s: Seq<Entity>,
    cfg: Config,
    window: Option<WindowSize>,
    actions: ActionState,
) -> Seq<Entity> {
    served(before_scoring(s, cfg, window, actions), tick_events(s, cfg, window, actions), cfg)
}

/// An update that keeps every entity's role, and the position of every
/// entity of `role`, keeps that role's room to move.
pub proof fn lemma_room_kept(s: Seq<Entity>, t: Seq<Entity>, role: Role, speed: int)
    requires
        has_room(s, role, speed),
        t.len() == s.len(),
        forall|i: int| 0 <= i < s.len() ==> #[trigger] t[i].role == s[i].role,
        forall|i: int|
            0 <= i < s.len() && s[i].role == role ==> #[trigger] t[i].position == s[i].position,
    ensures
        has_room(t, role, speed),
{
    assert forall|i: int| 0 <= i < t.len() && #[trigger] t[i].role == role implies roomy(
        t[i].position.coords,
        speed,
    ) by {
        assert(s[i].role == role);
        assert(t[i].position == s[i].position);
    }
}

impl World {
    /// Whether every moving entity has room for one more move at its speed.
    pub fn movers_fit(&self) -> (r: bool)
        requires
            self.wf(),
        ensures
            r == movers_have_room(self.entities@, self.config),
    {
        let mut i: usize = 0;
        while i < self.entities.len()
            invariant
                self.wf(),
                i <= self.entities@.len(),
                forall|k: int|
                    0 <= k < i ==> {
                        let e = #[trigger] self.entities@[k];
                        &&& e.role == Role::Ball ==> roomy(
                            e.position.coords,
                            self.config.ball_speed as int,
                        )
                        &&& e.role == Role::Player ==> roomy(
                            e.position.coords,
                            self.config.paddle_speed as int,
                        )
                        &&& e.role == Role::Opponent ==> roomy(
                            e.position.coords,
                            self.config.paddle_speed as int,
                        )
                    },
            decreases self.entities@.len() - i,
        {
            let e = &self.entities[i];
            let speed = if e.role == Role::Ball {
                self.config.ball_speed
            } else if e.role.is_paddle() {
                self.config.paddle_speed
            } else {
                0
            };
            let p = e.position.coords;
            let fits = i32::MIN as i64 + speed as i64 <= p.x as i64 && p.x as i64 <= i32::MAX as i64
                - speed as i64 && i32::MIN as i64 + speed as i64 <= p.y as i64 && p.y as i64
                <= i32::MAX as i64 - speed as i64;
            if !fits && e.role != Role::Gutter {
                proof {
                    let s = self.entities@;
                    if e.role == Role::Ball {
                        assert(!has_room(s, Role::Ball, self.config.ball_speed as int));
                    } else if e.role == Role::Player {
                        assert(!has_room(s, Role::Player, self.config.paddle_speed as int));
                    } else {
                        assert(!has_room(s, Role::Opponent, self.config.paddle_speed as int));
                    }
                }
                return false;
            }
            i += 1;
        }
        true
    }

    /// The motion step: moves the ball, the player paddles within their
    /// limit when the window is known, and the opponent paddles.
    pub fn integrate(&mut self, window: Option<WindowSize>)
        requires
            old(self).wf(),
            movers_have_room(old(self).entities@, old(self).config),
        ensures
            final(self).wf(),
            final(self).config == old(self).config,
            final(self).score == old(self).score,
            final(self).entities@ == integrated(old(self).entities@, old(self).config, window),
    {
        let ghost s0 = self.entities@;
        Ball::movement(self);
        let ghost s1 = self.entities@;
        proof {
            assert(forall|i: int| 0 <= i < s0.len() ==> #[trigger] s1[i].role == s0[i].role);
            lemma_room_kept(s0, s1, Role::Player, self.config.paddle_speed as int);
            lemma_room_kept(s0, s1, Role::Opponent, self.config.paddle_speed as int);
        }
        if let Some(w) = window {
            move_player_paddle(self, w);
            proof {
                let s2 = self.entities@;
                assert(forall|i: int| 0 <= i < s1.len() ==> #[trigger] s2[i].role == s1[i].role);
                lemma_room_kept(s1, s2, Role::Opponent, self.config.paddle_speed as int);
            }
        }
        move_opponent_along(self);
    }

    /// Runs one tick: input, the opponent's aim, motion, collisions, then
    /// scoring, the serve, and the score update. Returns the points won.
    pub fn tick(&mut self, window: Option<WindowSize>, actions: &ActionState) -> (events: Vec<
        PointScored,
    >)
        requires
            old(self).wf(),
            movers_have_room(old(self).entities@, old(self).config),
            old(self).score.player < usize::MAX,
            old(self).score.opponent < usize::MAX,
        ensures
            final(self).wf(),
            final(self).config == old(self).config,
            events@ == tick_events(old(self).entities@, old(self).config, window, *actions),
            final(self).entities@ == ticked(old(self).entities@, old(self).config, window, *actions),
            final(self).score == scored(
                old(self).score,
                tick_events(old(self).entities@, old(self).config, window, *actions),
            ),
    {
        let ghost s0 = self.entities@;
        let ghost cfg = self.config;
        handle(self, actions);
        move_opponent_paddle(self);
        proof {
            let s = self.entities@;
            let s1 = steered(s0, *actions);
            assert(forall|i: int| 0 <= i < s0.len() ==> #[trigger] s1[i].role == s0[i].role);
            assert(forall|i: int| 0 <= i < s0.len() ==> #[trigger] s1[i].position == s0[i].position);
            assert(forall|i: int| 0 <= i < s0.len() ==> #[trigger] s[i].role == s1[i].role);
            assert(forall|i: int| 0 <= i < s0.len() ==> #[trigger] s[i].position == s1[i].position);
            lemma_room_kept(s0, s, Role::Ball, cfg.ball_speed as int);
            lemma_room_kept(s0, s, Role::Player, cfg.paddle_speed as int);
            lemma_room_kept(s0, s, Role::Opponent, cfg.paddle_speed as int);
        }
        self.integrate(window);
        handle_collisions(self);
        let events = match window {
            Some(w) => detect_scoring(self, w),
            None => Vec::new(),
        };
        proof {
            assert(events@ =~= tick_events(s0, cfg, window, *actions));
            assert(events@.len() <= 1);
        }
        reset_ball(self, &events);
        update_score(&mut self.score, &events);
        events
    }
}

/// With no ball, the ball's motion, collision resolution and the scoring
/// pipeline change nothing: no entity moves or turns, no point is won, and
/// serving for any events leaves every entity as it was.
pub proof fn lemma_no_ball_is_inert(
    s: Seq<Entity>,
    cfg: Config,
    w: WindowSize,
    events: Seq<PointScored>,
)
    requires
        forall|i: int| 0 <= i < s.len() ==> #[trigger] s[i].role != Role::Ball,
    ensures
        ball_moved(s, cfg) == s,
        collided(s) == s,
        scoring_events(s, w) == Seq::<PointScored>::empty(),
        served(s, events, cfg) == s,
    decreases events.len(),
{
    assert forall|i: int| !is_single(s, Role::Ball, i) by {
        if 0 <= i < s.len() {
            assert(s[i].role != Role::Ball);
        }
    }
    lemma_no_single(s, Role::Ball);
    assert(scoring_events(s, w) =~= Seq::<PointScored>::empty());
    if events.len() > 0 {
        lemma_no_ball_is_inert(s, cfg, w, events.drop_last());
    }
}

/// Every entity is at rest.
pub open spec fn at_rest(s: Seq<Entity>) -> bool {
    forall|i: int|
        0 <= i < s.len() ==> (#[trigger] s[i]).velocity.direction.x == 0
            && s[i].velocity.direction.y == 0
}

proof fn lemma_rest_advance(e: Entity, speed: int)
    requires
        e.velocity.direction.x == 0,
        e.velocity.direction.y == 0,
    ensures
        advanced(e, speed) == e,
{
    assert(0 * speed == 0) by (nonlinear_arith);
}

/// The motion step leaves entities at rest where they are, so running it
/// twice does too.
pub proof fn lemma_rest_is_fixed(s: Seq<Entity>, cfg: Config, window: Option<WindowSize>)
    requires
        at_rest(s),
    ensures
        integrated(s, cfg, window) == s,
        integrated(integrated(s, cfg, window), cfg, window) == s,
{
    let s1 = ball_moved(s, cfg);
    if let Some(i) = single_of(s, Role::Ball) {
        assert(is_single(s, Role::Ball, i));
        lemma_rest_advance(s[i], cfg.ball_speed as int);
        assert(s1 =~= s);
    }
    assert(s1 == s);
    let s2 = match window {
        Some(w) => players_moved(s1, cfg, w),
        None => s1,
    };
    if let Some(w) = window {
        assert forall|i: int| 0 <= i < s.len() implies player_step(s[i], cfg, w) == s[i] by {
            lemma_rest_advance(s[i], cfg.paddle_speed as int);
        }
        assert(s2 =~= s);
    }
    assert forall|i: int| 0 <= i < s.len() implies opponents_moved(s, cfg)[i] == s[i] by {
        lemma_rest_advance(s[i], cfg.paddle_speed as int);
    }
    assert(opponents_moved(s, cfg) =~= s);
}

} // verus!
