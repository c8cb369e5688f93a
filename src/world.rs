//! The entity store: entities are kept in one vector and identified by
//! their index, which never changes since nothing is removed.

use vstd::prelude::*;

use crate::components::{Config, Point, Position, Shape, Velocity};
use crate::game::Score;

verus! {

/// The identity of an entity. Player and Opponent are the two paddles.
#[derive(Clone, Copy, Debug, PartialEq, Eq, Structural)]
pub enum Role {
    Ball,
    Player,
    Opponent,
    Gutter,
}

impl Role {
    pub open spec fn is_paddle_spec(self) -> bool {
        self == Role::Player || self == Role::Opponent
    }

    pub fn is_paddle(&self) -> (r: bool)
        ensures
            r == self.is_paddle_spec(),
    {
        *self == Role::Player || *self == Role::Opponent
    }
}

/// A direction component lies in {-1, 0, 1}.
pub open spec fn valid_dir(d: i32) -> bool {
    -1 <= d <= 1
}

/// One entity: its role and its components. Gutters are stationary and
/// carry a zero velocity that nothing reads.
#[derive(Clone, Copy, Debug, PartialEq, Eq, Structural)]
pub struct Entity {
    pub role: Role,
    pub position: Position,
    pub velocity: Velocity,
    pub shape: Shape,
}

impl Entity {
    pub open spec fn wf(self) -> bool {
        &&& valid_dir(self.velocity.direction.x)
        &&& valid_dir(self.velocity.direction.y)
        &&& self.shape.size.x >= 0
        &&& self.shape.size.y >= 0
    }

    pub open spec fn with_direction(self, d: Point) -> Entity {
        Entity { velocity: Velocity { direction: d }, ..self }
    }

    pub open spec fn with_coords(self, p: Point) -> Entity {
        Entity { position: Position { coords: p }, ..self }
    }
}

/// Index `i` holds the one and only entity of `role`.
pub open spec fn is_single(s: Seq<Entity>, role: Role, i: int) -> bool {
    &&& 0 <= i < s.len()
    &&& s[i].role == role
    &&& forall|j: int| 0 <= j < s.len() && j != i ==> #[trigger] s[j].role != role
}

/// The index of the single entity of `role`; `None` when there are none or
/// several.
pub open spec fn single_of(s: Seq<Entity>, role: Role) -> Option<int> {
    if exists|i: int| is_single(s, role, i) {
        Some(choose|i: int| is_single(s, role, i))
    } else {
        None
    }
}

pub proof fn lemma_single_of(s: Seq<Entity>, role: Role, i: int)
    requires
        is_single(s, role, i),
    ensures
        single_of(s, role) == Some(i),
{
    let k = choose|k: int| is_single(s, role, k);
    if k != i {
        assert(s[k].role == role);
    }
}

pub proof fn lemma_no_single(s: Seq<Entity>, role: Role)
    requires
        forall|i: int| !is_single(s, role, i),
    ensures
        single_of(s, role) is None,
{
}

/// Finds the single entity of `role`, as a query that must match exactly
/// one entity does.
pub fn find_single(entities: &Vec<Entity>, role: Role) -> (r: Option<usize>)
    ensures
        r matches Some(i) ==> single_of(entities@, role) == Some(i as int),
        r is None ==> single_of(entities@, role) is None,
{
    let mut found: Option<usize> = None;
    let mut i: usize = 0;
    while i < entities.len()
        invariant
            i <= entities.len(),
            found matches Some(k) ==> k < i && entities@[k as int].role == role && forall|j: int|
                0 <= j < i && j != k ==> #[trigger] entities@[j].role != role,
            found is None ==> forall|j: int| 0 <= j < i ==> #[trigger] entities@[j].role != role,
        decreases entities.len() - i,
    {
        if entities[i].role == role {
            if let Some(k) = found {
                proof {
                    assert forall|x: int| !is_single(entities@, role, x) by {
                        if x == k as int {
                            assert(entities@[i as int].role == role);
                        } else {
                            assert(entities@[k as int].role == role);
                        }
                    }
                    lemma_no_single(entities@, role);
                }
                return None;
            }
            found = Some(i);
        }
        i += 1;
    }
    proof {
        match found {
            Some(k) => lemma_single_of(entities@, role, k as int),
            None => {
                assert forall|x: int| !is_single(entities@, role, x) by {
                    if 0 <= x < entities@.len() {
                        assert(entities@[x].role != role);
                    }
                }
                lemma_no_single(entities@, role);
            },
        }
    }
    found
}

/// The whole simulation state, threaded through each tick.
pub struct World {
    pub config: Config,
    pub entities: Vec<Entity>,
    pub score: Score,
}

impl World {
    pub open spec fn wf(&self) -> bool {
        &&& self.config.wf()
        &&& forall|i: int| 0 <= i < self.entities@.len() ==> #[trigger] self.entities@[i].wf()
    }

    /// An empty world with both counters at zero.
    pub fn new(config: Config) -> (r: World)
        requires
            config.wf(),
        ensures
            r.wf(),
            r.config == config,
            r.entities@.len() == 0,
            r.score == (Score { player: 0, opponent: 0 }),
    {
        World { config, entities: Vec::new(), score: Score { player: 0, opponent: 0 } }
    }

    /// Adds an entity and returns its identifier.
    pub fn spawn(&mut self, e: Entity) -> (id: usize)
        requires
            old(self).wf(),
            e.wf(),
        ensures
            final(self).wf(),
            final(self).config == old(self).config,
            final(self).score == old(self).score,
            final(self).entities@ == old(self).entities@.push(e),
            id == old(self).entities@.len(),
    {
        let id = self.entities.len();
        self.entities.push(e);
        id
    }
}

} // verus!
