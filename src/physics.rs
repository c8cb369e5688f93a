//! Collision detection between the ball's bounding circle and the
//! axis-aligned boxes of every other entity, and the velocity response.
//!
//! A box's half-extents are half its shape's size, so the computations are
//! done at twice the world scale, where every quantity is a whole number:
//! comparisons and signs are the same at either scale.

use vstd::prelude::*;

use crate::components::{Point, Velocity};
use crate::world::{find_single, single_of, valid_dir, Entity, Role, World};

verus! {

/// The side of an obstacle that the ball touched.
#[derive(Clone, Copy, Debug, PartialEq, Eq, Structural)]
pub enum Collision {
    Left,
    Right,
    Top,
    Bottom,
}

/// A circle given by its centre and its diameter, twice its radius.
#[derive(Clone, Copy, Debug, PartialEq, Eq, Structural)]
pub struct BoundingCircle {
    pub center: Point,
    pub diameter: i32,
}

/// An axis-aligned box given by its centre and its full size; its
/// half-extents are `size / 2`.
#[derive(Clone, Copy, Debug, PartialEq, Eq, Structural)]
pub struct BoundingBox {
    pub center: Point,
    pub size: Point,
}

pub open spec fn clamp(v: int, lo: int, hi: int) -> int {
    if v < lo {
        lo
    } else if v > hi {
        hi
    } else {
        v
    }
}

pub open spec fn abs(v: int) -> int {
    if v < 0 {
        -v
    } else {
        v
    }
}

/// Twice the offset from the box point closest to the circle's centre to
/// that centre, along one axis.
pub open spec fn offset2(c: int, b: int, size: int) -> int {
    2 * c - clamp(2 * c, 2 * b - size, 2 * b + size)
}

pub open spec fn offset2_x(ball: BoundingCircle, wall: BoundingBox) -> int {
    offset2(ball.center.x as int, wall.center.x as int, wall.size.x as int)
}

pub open spec fn offset2_y(ball: BoundingCircle, wall: BoundingBox) -> int {
    offset2(ball.center.y as int, wall.center.y as int, wall.size.y as int)
}

/// The closest point of the box lies within the circle: at twice the
/// scale, the offset's length is at most the diameter.
pub open spec fn intersects(ball: BoundingCircle, wall: BoundingBox) -> bool {
    let ox = offset2_x(ball, wall);
    let oy = offset2_y(ball, wall);
    ox * ox + oy * oy <= ball.diameter * ball.diameter
}

/// Side classification of an offset: the larger axis wins, and a tie
/// (a zero offset included) goes to the vertical axis.
pub open spec fn side_of(ox: int, oy: int) -> Collision {
    if abs(ox) > abs(oy) {
        if ox < 0 {
            Collision::Left
        } else {
            Collision::Right
        }
    } else if oy > 0 {
        Collision::Top
    } else {
        Collision::Bottom
    }
}

pub open spec fn collision_of(ball: BoundingCircle, wall: BoundingBox) -> Option<Collision> {
    if intersects(ball, wall) {
        Some(side_of(offset2_x(ball, wall), offset2_y(ball, wall)))
    } else {
        None
    }
}

fn offset2_exec(c: i32, b: i32, size: i32) -> (r: i64)
    requires
        size >= 0,
    ensures
        r == offset2(c as int, b as int, size as int),
        -0x4_0000_0000 < r < 0x4_0000_0000,
{
    let c2 = 2 * (c as i64);
    let lo = 2 * (b as i64) - size as i64;
    let hi = 2 * (b as i64) + size as i64;
    let closest = if c2 < lo {
        lo
    } else if c2 > hi {
        hi
    } else {
        c2
    };
    c2 - closest
}

/// Whether the circle touches the box, and on which side of the box.
pub fn detect_collision(ball: &BoundingCircle, wall: &BoundingBox) -> (r: Option<Collision>)
    requires
        wall.size.x >= 0,
        wall.size.y >= 0,
    ensures
        r == collision_of(*ball, *wall),
{
    let ox = offset2_exec(ball.center.x, wall.center.x, wall.size.x);
    let oy = offset2_exec(ball.center.y, wall.center.y, wall.size.y);
    let ox2 = ox as i128;
    let oy2 = oy as i128;
    let d = ball.diameter as i128;
    assert(ox2 * ox2 < 0x10_0000_0000_0000_0000) by (nonlinear_arith)
        requires
            -0x4_0000_0000 < ox2 < 0x4_0000_0000,
    ;
    assert(oy2 * oy2 < 0x10_0000_0000_0000_0000) by (nonlinear_arith)
        requires
            -0x4_0000_0000 < oy2 < 0x4_0000_0000,
    ;
    assert(0 <= d * d <= 0x4000_0000_0000_0000) by (nonlinear_arith)
        requires
            -0x8000_0000 <= d < 0x8000_0000,
    ;
    assert(0 <= ox2 * ox2) by (nonlinear_arith);
    assert(0 <= oy2 * oy2) by (nonlinear_arith);
    if ox2 * ox2 + oy2 * oy2 > d * d {
        return None;
    }
    let ax = if ox < 0 {
        -ox
    } else {
        ox
    };
    let ay = if oy < 0 {
        -oy
    } else {
        oy
    };
    let side = if ax > ay {
        if ox < 0 {
            Collision::Left
        } else {
            Collision::Right
        }
    } else if oy > 0 {
        Collision::Top
    } else {
        Collision::Bottom
    };
    Some(side)
}

/// The direction after a collision on side `c`: a horizontal hit flips the
/// horizontal component, a vertical hit the vertical one.
pub open spec fn bounce(d: Point, c: Collision) -> Point {
    match c {
        Collision::Left | Collision::Right => Point { x: (-d.x) as i32, y: d.y },
        Collision::Top | Collision::Bottom => Point { x: d.x, y: (-d.y) as i32 },
    }
}

/// A left or right collision flips the horizontal component of the
/// direction and keeps the vertical one; a top or bottom collision flips
/// the vertical component and keeps the horizontal one.
pub proof fn lemma_bounce_flips_one_axis(d: Point, c: Collision)
    requires
        valid_dir(d.x),
        valid_dir(d.y),
    ensures
        (c == Collision::Left || c == Collision::Right) ==> bounce(d, c).x == -d.x && bounce(
            d,
            c,
        ).y == d.y,
        (c == Collision::Top || c == Collision::Bottom) ==> bounce(d, c).y == -d.y && bounce(
            d,
            c,
        ).x == d.x,
        valid_dir(bounce(d, c).x),
        valid_dir(bounce(d, c).y),
{
}

impl Velocity {
    /// Reflects the direction off side `c`.
    pub fn bounce(&mut self, c: Collision)
        requires
            valid_dir(old(self).direction.x),
            valid_dir(old(self).direction.y),
        ensures
            final(self).direction == bounce(old(self).direction, c),
    {
        match c {
            Collision::Left | Collision::Right => {
                self.direction.x = -self.direction.x;
            },
            Collision::Top | Collision::Bottom => {
                self.direction.y = -self.direction.y;
            },
        }
    }
}

/// The ball's bounding circle: its radius is half its shape's width.
pub open spec fn circle_of(e: Entity) -> BoundingCircle {
    BoundingCircle { center: e.position.coords, diameter: e.shape.size.x }
}

pub open spec fn box_of(e: Entity) -> BoundingBox {
    BoundingBox { center: e.position.coords, size: e.shape.size }
}

/// The ball's direction after meeting, in order, the first `n` entities of
/// `s` other than balls.
pub open spec fn bounced(d: Point, ball: BoundingCircle, s: Seq<Entity>, n: int) -> Point
    decreases n,
{
    if n <= 0 {
        d
    } else {
        let prev = bounced(d, ball, s, n - 1);
        if s[n - 1].role == Role::Ball {
            prev
        } else {
            match collision_of(ball, box_of(s[n - 1])) {
                Some(c) => bounce(prev, c),
                None => prev,
            }
        }
    }
}

/// The entities after collision resolution: only the single ball's
/// direction changes.
pub open spec fn collided(s: Seq<Entity>) -> Seq<Entity> {
    match single_of(s, Role::Ball) {
        Some(i) => s.update(
            i,
            s[i].with_direction(bounced(s[i].velocity.direction, circle_of(s[i]), s, s.len() as int)),
        ),
        None => s,
    }
}

/// Flips the ball's direction for each obstacle it touches.
pub fn handle_collisions(world: &mut World)
    requires
        old(world).wf(),
    ensures
        final(world).wf(),
        final(world).config == old(world).config,
        final(world).score == old(world).score,
        final(world).entities@ == collided(old(world).entities@),
{
    let b = match find_single(&world.entities, Role::Ball) {
        Some(b) => b,
        None => {
            return ;
        },
    };
    let ghost s = world.entities@;
    let ball = world.entities[b];
    assert(s[b as int].wf());
    let circle = BoundingCircle { center: ball.position.coords, diameter: ball.shape.size.x };
    let mut velocity = ball.velocity;
    let mut i: usize = 0;
    while i < world.entities.len()
        invariant
            world.entities@ == s,
            world.wf(),
            0 <= b < s.len(),
            ball == s[b as int],
            circle == circle_of(ball),
            i <= s.len(),
            valid_dir(velocity.direction.x),
            valid_dir(velocity.direction.y),
            velocity.direction == bounced(ball.velocity.direction, circle, s, i as int),
        decreases s.len() - i,
    {
        let other = world.entities[i];
        assert(other.wf());
        if other.role != Role::Ball {
            let wall = BoundingBox { center: other.position.coords, size: other.shape.size };
            if let Some(c) = detect_collision(&circle, &wall) {
                velocity.bounce(c);
            }
        }
        i += 1;
    }
    let ghost d = velocity.direction;
    world.entities.set(b, Entity { velocity, ..ball });
    proof {
        assert(world.entities@ =~= collided(s));
        assert forall|k: int| 0 <= k < world.entities@.len() implies #[trigger] world.entities@[k].wf() by {
            if k != b as int {
                assert(s[k].wf());
            }
        }
    }
}

} // verus!
