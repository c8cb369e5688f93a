//! Player input: the two movement actions and the mapping from what is
//! pressed to the player paddle's vertical direction.

use vstd::prelude::*;

use crate::components::{Point, Velocity};
use crate::world::{find_single, single_of, Entity, Role, World};

verus! {

/// What the player can ask for.
#[derive(Clone, Copy, Debug, PartialEq, Eq, Hash, Structural)]
pub enum Action {
    MoveUp,
    MoveDown,
}

/// Which actions are held down this tick.
#[derive(Clone, Copy, Debug, PartialEq, Eq, Structural)]
pub struct ActionState {
    pub move_up: bool,
    pub move_down: bool,
}

impl ActionState {
    pub open spec fn pressed_spec(self, action: Action) -> bool {
        match action {
            Action::MoveUp => self.move_up,
            Action::MoveDown => self.move_down,
        }
    }

    pub fn pressed(&self, action: &Action) -> (r: bool)
        ensures
            r == self.pressed_spec(*action),
    {
        match action {
            Action::MoveUp => self.move_up,
            Action::MoveDown => self.move_down,
        }
    }
}

/// The vertical direction asked for: up wins over down, and nothing held
/// means stop.
pub open spec fn wanted_y(actions: ActionState) -> i32 {
    if actions.move_up {
        1i32
    } else if actions.move_down {
        -1i32
    } else {
        0
    }
}

/// The entities after input: the single player paddle takes the vertical
/// direction asked for.
pub open spec fn steered(s: Seq<Entity>, actions: ActionState) -> Seq<Entity> {
    match single_of(s, Role::Player) {
        Some(i) => s.update(
            i,
            s[i].with_direction(Point { x: s[i].velocity.direction.x, y: wanted_y(actions) }),
        ),
        None => s,
    }
}

/// Sets the player paddle's vertical direction from the actions held.
pub fn handle(world: &mut World, actions: &ActionState)
    requires
        old(world).wf(),
    ensures
        final(world).wf(),
        final(world).config == old(world).config,
        final(world).score == old(world).score,
        final(world).entities@ == steered(old(world).entities@, *actions),
{
    let ghost s = world.entities@;
    if let Some(i) = find_single(&world.entities, Role::Player) {
        let e = world.entities[i];
        assert(s[i as int].wf());
        let y: i32 = if actions.pressed(&Action::MoveUp) {
            1
        } else if actions.pressed(&Action::MoveDown) {
            -1
        } else {
            0
        };
        let d = Point { x: e.velocity.direction.x, y };
        world.entities.set(i, Entity { velocity: Velocity { direction: d }, ..e });
        proof {
            assert forall|k: int| 0 <= k < s.len() implies #[trigger] world.entities@[k].wf() by {
                assert(s[k].wf());
            }
        }
    }
}

} // verus!
