//! The scoring pipeline: detection of an out-of-bounds ball, the serve that
//! follows, and the score counters.

use vstd::prelude::*;

use crate::components::{Config, Point, Position, Velocity, WindowSize};
use crate::world::{find_single, is_single, lemma_single_of, single_of, Entity, Role, World};

verus! {

/// The side that won a point.
#[derive(Clone, Copy, Debug, PartialEq, Eq, Structural)]
pub enum Scorer {
    Player,
    Opponent,
}

/// One scoring occurrence.
#[derive(Clone, Copy, Debug, PartialEq, Eq, Structural)]
pub struct PointScored {
    pub by: Scorer,
}

/// Points won by each side since the simulation started.
#[derive(Clone, Copy, Debug, PartialEq, Eq, Structural)]
pub struct Score {
    pub player: usize,
    pub opponent: usize,
}

/// The points won in this state: the opponent scores when the single ball
/// is beyond the right edge, the player when it is beyond the left edge.
/// The edges lie at plus and minus half the width.
pub open spec fn scoring_events(s: Seq<Entity>, w: WindowSize) -> Seq<PointScored> {
    match single_of(s, Role::Ball) {
        Some(i) => {
            let x = s[i].position.coords.x;
            if 2 * x > w.width {
                seq![PointScored { by: Scorer::Opponent }]
            } else if 2 * x < -w.width {
                seq![PointScored { by: Scorer::Player }]
            } else {
                seq![]
            }
        },
        None => seq![],
    }
}

/// Reports the point won, if the ball has left the field.
pub fn detect_scoring(world: &World, window: WindowSize) -> (r: Vec<PointScored>)
    ensures
        r@ == scoring_events(world.entities@, window),
{
    let mut events: Vec<PointScored> = Vec::new();
    if let Some(i) = find_single(&world.entities, Role::Ball) {
        let x = world.entities[i].position.coords.x as i64;
        let w = window.width as i64;
        if 2 * x > w {
            events.push(PointScored { by: Scorer::Opponent });
        } else if 2 * x < -w {
            events.push(PointScored { by: Scorer::Player });
        }
    }
    proof {
        assert(events@ =~= scoring_events(world.entities@, window));
    }
    events
}

/// The direction of the serve after a point: toward the side that did not
/// just score.
pub open spec fn serve_direction(by: Scorer, cfg: Config) -> Point {
    match by {
        Scorer::Opponent => Point { x: -1i32, y: cfg.serve_y },
        Scorer::Player => Point { x: 1i32, y: cfg.serve_y },
    }
}

/// The entities after serving once for `event`.
pub open spec fn served_once(s: Seq<Entity>, event: PointScored, cfg: Config) -> Seq<Entity> {
    match single_of(s, Role::Ball) {
        Some(i) => s.update(
            i,
            s[i].with_coords(Point { x: 0, y: 0 }).with_direction(serve_direction(event.by, cfg)),
        ),
        None => s,
    }
}

/// The entities after serving for each event in turn.
pub open spec fn served(s: Seq<Entity>, events: Seq<PointScored>, cfg: Config) -> Seq<Entity>
    decreases events.len(),
{
    if events.len() == 0 {
        s
    } else {
        served_once(served(s, events.drop_last(), cfg), events.last(), cfg)
    }
}

/// Puts the ball back at the centre and serves it, once per event.
pub fn reset_ball(world: &mut World, events: &Vec<PointScored>)
    requires
        old(world).wf(),
    ensures
        final(world).wf(),
        final(world).config == old(world).config,
        final(world).score == old(world).score,
        final(world).entities@ == served(old(world).entities@, events@, old(world).config),
{
    let ghost s = world.entities@;
    let ghost score = world.score;
    let cfg = world.config;
    let mut k: usize = 0;
    while k < events.len()
        invariant
            world.wf(),
            world.config == cfg,
            world.score == score,
            k <= events@.len(),
            world.entities@ == served(s, events@.take(k as int), cfg),
        decreases events@.len() - k,
    {
        proof {
            assert(events@.take(k + 1).drop_last() =~= events@.take(k as int));
        }
        let by = events[k].by;
        if let Some(i) = find_single(&world.entities, Role::Ball) {
            let ball = world.entities[i];
            let direction = match by {
                Scorer::Opponent => Point { x: -1, y: cfg.serve_y },
                Scorer::Player => Point { x: 1, y: cfg.serve_y },
            };
            let ghost before = world.entities@;
            assert(before[i as int].wf());
            world.entities.set(
                i,
                Entity {
                    position: Position { coords: Point { x: 0, y: 0 } },
                    velocity: Velocity { direction },
                    ..ball
                },
            );
            proof {
                assert forall|j: int| 0 <= j < world.entities@.len() implies #[trigger] world.entities@[j].wf() by {
                    if j != i as int {
                        assert(before[j].wf());
                    }
                }
            }
        }
        k += 1;
    }
    proof {
        assert(events@.take(events@.len() as int) =~= events@);
    }
}

/// The number of points won by `by` among `events`.
pub open spec fn count_by(events: Seq<PointScored>, by: Scorer) -> nat
    decreases events.len(),
{
    if events.len() == 0 {
        0
    } else {
        count_by(events.drop_last(), by) + if events.last().by == by {
            1nat
        } else {
            0nat
        }
    }
}

pub proof fn lemma_count_bounded(events: Seq<PointScored>, by: Scorer)
    ensures
        count_by(events, by) <= events.len(),
    decreases events.len(),
{
    if events.len() > 0 {
        lemma_count_bounded(events.drop_last(), by);
    }
}

/// The score after counting each event once.
pub open spec fn scored(score: Score, events: Seq<PointScored>) -> Score {
    Score {
        player: (score.player + count_by(events, Scorer::Player)) as usize,
        opponent: (score.opponent + count_by(events, Scorer::Opponent)) as usize,
    }
}

/// Adds one point to the scoring side for each event.
pub fn update_score(score: &mut Score, events: &Vec<PointScored>)
    requires
        old(score).player + events@.len() <= usize::MAX,
        old(score).opponent + events@.len() <= usize::MAX,
    ensures
        *final(score) == scored(*old(score), events@),
{
    let ghost start = *score;
    let mut k: usize = 0;
    while k < events.len()
        invariant
            k <= events@.len(),
            start.player + events@.len() <= usize::MAX,
            start.opponent + events@.len() <= usize::MAX,
            *score == scored(start, events@.take(k as int)),
        decreases events@.len() - k,
    {
        proof {
            assert(events@.take(k + 1).drop_last() =~= events@.take(k as int));
            lemma_count_bounded(events@.take(k as int), Scorer::Player);
            lemma_count_bounded(events@.take(k as int), Scorer::Opponent);
        }
        match events[k].by {
            Scorer::Opponent => score.opponent = score.opponent + 1,
            Scorer::Player => score.player = score.player + 1,
        }
        k += 1;
    }
    proof {
        assert(events@.take(events@.len() as int) =~= events@);
    }
}

/// A ball beyond the right edge gives one point to the opponent: the ball
/// is served from the centre toward the left, the opponent's counter goes
/// up by exactly one, and the player's counter stays.
pub proof fn lemma_right_exit_scores_opponent(
    s: Seq<Entity>,
    i: int,
    w: WindowSize,
    cfg: Config,
    score: Score,
)
    requires
        is_single(s, Role::Ball, i),
        2 * s[i].position.coords.x > w.width,
        score.opponent < usize::MAX,
    ensures
        scoring_events(s, w) == seq![PointScored { by: Scorer::Opponent }],
        served(s, scoring_events(s, w), cfg)[i].position.coords == (Point { x: 0, y: 0 }),
        served(s, scoring_events(s, w), cfg)[i].velocity.direction == (Point {
            x: -1i32,
            y: cfg.serve_y,
        }),
        scored(score, scoring_events(s, w)).opponent == score.opponent + 1,
        scored(score, scoring_events(s, w)).player == score.player,
{
    lemma_single_of(s, Role::Ball, i);
    let ev = scoring_events(s, w);
    assert(ev.drop_last() =~= Seq::<PointScored>::empty());
    assert(served(s, ev.drop_last(), cfg) == s);
    assert(ev.len() == 1 && ev.last() == PointScored { by: Scorer::Opponent });
    assert(count_by(ev.drop_last(), Scorer::Opponent) == 0);
    assert(count_by(ev.drop_last(), Scorer::Player) == 0);
    assert(count_by(ev, Scorer::Opponent) == 1);
    assert(count_by(ev, Scorer::Player) == 0);
}

} // verus!
