use vstd::prelude::*;
use crate::collision::{pushed_through, resolve_all, lemma_pushed_through_in_bounds};
use crate::input::{PlayerInputs, direction, heading};
use crate::vector::{Point, Velocity, clamp, clamp_coord, steer, steer_spec};
use crate::world::{KnightView, PlayerState, World, WorldView};

verus! {

/// Distance a player's entity covers in one tick while it is steered: 64
/// pixels per second.
pub const PLAYER_SPEED: i64 = 2097152;

/// The player's entity with the velocity that the player's mask asks for.
pub open spec fn steered(player: PlayerState, inputs: PlayerInputs) -> PlayerState {
    PlayerState {
        handle: player.handle,
        position: player.position,
        velocity: steer_spec(
            heading(inputs.of(player.handle as int)).0,
            heading(inputs.of(player.handle as int)).1,
            PLAYER_SPEED as int,
        ),
    }
}

/// Where an entity stands after one tick at the given velocity. Positions
/// stop at the edge of the range of coordinates.
pub open spec fn displaced(position: Point, velocity: Velocity) -> Point {
    Point {
        x: clamp_coord(position.x + velocity.x) as i64,
        y: clamp_coord(position.y + velocity.y) as i64,
    }
}

impl WorldView {
    /// The world after every player's entity has taken the velocity that
    /// the player's mask asks for.
    pub open spec fn input_applied(self, inputs: PlayerInputs) -> WorldView {
        WorldView {
            players: Seq::new(self.players.len(), |i: int| steered(self.players[i], inputs)),
            knights: self.knights,
            walls: self.walls,
        }
    }

    /// The world after every patrol whose entity has reached its target has
    /// moved on to the following waypoint.
    pub open spec fn patrol_targets_updated(self) -> WorldView {
        WorldView {
            players: self.players,
            knights: Seq::new(
                self.knights.len(),
                |i: int|
                    KnightView {
                        position: self.knights[i].position,
                        velocity: self.knights[i].velocity,
                        patrol: self.knights[i].patrol.retargeted(self.knights[i].position),
                    },
            ),
            walls: self.walls,
        }
    }

    /// The world after every patrolling entity has turned towards its target.
    pub open spec fn patrol_velocities_updated(self) -> WorldView {
        WorldView {
            players: self.players,
            knights: Seq::new(
                self.knights.len(),
                |i: int|
                    KnightView {
                        position: self.knights[i].position,
                        velocity: self.knights[i].patrol.heading(self.knights[i].position),
                        patrol: self.knights[i].patrol,
                    },
            ),
            walls: self.walls,
        }
    }

    /// The world after every entity has moved by its velocity for one tick.
    pub open spec fn velocity_applied(self) -> WorldView {
        WorldView {
            players: Seq::new(
                self.players.len(),
                |i: int|
                    PlayerState {
                        handle: self.players[i].handle,
                        position: displaced(self.players[i].position, self.players[i].velocity),
                        velocity: self.players[i].velocity,
                    },
            ),
            knights: Seq::new(
                self.knights.len(),
                |i: int|
                    KnightView {
                        position: displaced(self.knights[i].position, self.knights[i].velocity),
                        velocity: self.knights[i].velocity,
                        patrol: self.knights[i].patrol,
                    },
            ),
            walls: self.walls,
        }
    }

    /// The world after every entity has been pushed out of the walls, one
    /// wall after the other.
    pub open spec fn collisions_undone(self) -> WorldView {
        WorldView {
            players: Seq::new(
                self.players.len(),
                |i: int|
                    PlayerState {
                        handle: self.players[i].handle,
                        position: pushed_through(self.players[i].position, self.walls),
                        velocity: self.players[i].velocity,
                    },
            ),
            knights: Seq::new(
                self.knights.len(),
                |i: int|
                    KnightView {
                        position: pushed_through(self.knights[i].position, self.walls),
                        velocity: self.knights[i].velocity,
                        patrol: self.knights[i].patrol,
                    },
            ),
            walls: self.walls,
        }
    }

    /// The world one tick later: the players are steered by their masks and
    /// the patrolling entities by their patrols, then every entity moves and
    /// is pushed out of the walls.
    pub open spec fn stepped(self, inputs: PlayerInputs) -> WorldView {
        self.input_applied(
            inputs,
        ).patrol_targets_updated().patrol_velocities_updated().velocity_applied().collisions_undone()
    }
}

/// Gives every player's entity the velocity that the player's mask asks for:
/// player speed along one axis, or along the diagonal, or none.
pub fn apply_input(world: &mut World, inputs: PlayerInputs)
    requires
        old(world).wf(),
    ensures
        final(world)@ == old(world)@.input_applied(inputs),
        final(world).wf(),
{
    let mut i: usize = 0;
    while i < world.players.len()
        invariant
            i <= world.players@.len(),
            world.players@.len() == old(world).players@.len(),
            forall|j: int| 0 <= j < i ==> #[trigger] world.players@[j] == steered(old(world).players@[j], inputs),
            forall|j: int| i <= j < world.players@.len() ==> #[trigger] world.players@[j] == old(world).players@[j],
            world.knights == old(world).knights,
            world.walls == old(world).walls,
        decreases world.players@.len() - i,
    {
        let player: PlayerState = world.players[i];
        let d: (i64, i64) = direction(inputs.get(player.handle));
        let velocity: Velocity = steer(d.0, d.1, PLAYER_SPEED);
        world.players[i].velocity = velocity;
        i = i + 1;
    }
    assert(world@.players =~= old(world)@.input_applied(inputs).players);
}

/// Moves the cursor of every patrol whose entity has reached its target.
pub fn update_patrol_target(world: &mut World)
    requires
        old(world).wf(),
    ensures
        final(world)@ == old(world)@.patrol_targets_updated(),
        final(world).wf(),
{
    let mut i: usize = 0;
    while i < world.knights.len()
        invariant
            i <= world.knights@.len(),
            world.knights@.len() == old(world).knights@.len(),
            forall|j: int| 0 <= j < i ==> (#[trigger] world.knights@[j])@ == old(world)@.patrol_targets_updated().knights[j],
            forall|j: int| i <= j < world.knights@.len() ==> #[trigger] world.knights@[j] == old(world).knights@[j],
            old(world).wf(),
            world.players == old(world).players,
            world.walls == old(world).walls,
        decreases world.knights@.len() - i,
    {
        assert(old(world)@.knights[i as int].wf());
        let position: Point = world.knights[i].position;
        if world.knights[i].patrol.reached(position) {
            world.knights[i].patrol.next();
        }
        i = i + 1;
    }
    assert(world@.knights =~= old(world)@.patrol_targets_updated().knights);
}

/// Turns every patrolling entity towards its target, at patrol speed. An
/// entity that stands on the point it aims for does not move.
pub fn update_patrol_velocity(world: &mut World)
    requires
        old(world).wf(),
    ensures
        final(world)@ == old(world)@.patrol_velocities_updated(),
        final(world).wf(),
{
    let mut i: usize = 0;
    while i < world.knights.len()
        invariant
            i <= world.knights@.len(),
            world.knights@.len() == old(world).knights@.len(),
            forall|j: int| 0 <= j < i ==> (#[trigger] world.knights@[j])@ == old(world)@.patrol_velocities_updated().knights[j],
            forall|j: int| i <= j < world.knights@.len() ==> #[trigger] world.knights@[j] == old(world).knights@[j],
            old(world).wf(),
            world.players == old(world).players,
            world.walls == old(world).walls,
        decreases world.knights@.len() - i,
    {
        assert(old(world)@.knights[i as int].wf());
        let position: Point = world.knights[i].position;
        let velocity: Velocity = world.knights[i].patrol.heading(position);
        world.knights[i].velocity = velocity;
        i = i + 1;
    }
    assert(world@.knights =~= old(world)@.patrol_velocities_updated().knights);
}

fn displace(position: Point, velocity: Velocity) -> (moved: Point)
    ensures
        moved == displaced(position, velocity),
        moved.in_bounds(),
{
    Point {
        x: clamp(position.x as i128 + velocity.x as i128),
        y: clamp(position.y as i128 + velocity.y as i128),
    }
}

/// Moves every entity by its velocity for one tick of fixed length.
pub fn apply_velocity(world: &mut World)
    requires
        old(world).wf(),
    ensures
        final(world)@ == old(world)@.velocity_applied(),
        final(world).wf(),
{
    let mut i: usize = 0;
    while i < world.players.len()
        invariant
            i <= world.players@.len(),
            world.players@.len() == old(world).players@.len(),
            forall|j: int| 0 <= j < i ==> #[trigger] world.players@[j] == old(world)@.velocity_applied().players[j],
            forall|j: int| i <= j < world.players@.len() ==> #[trigger] world.players@[j] == old(world).players@[j],
            world.knights == old(world).knights,
            world.walls == old(world).walls,
        decreases world.players@.len() - i,
    {
        let player: PlayerState = world.players[i];
        world.players[i].position = displace(player.position, player.velocity);
        i = i + 1;
    }
    let mut k: usize = 0;
    while k < world.knights.len()
        invariant
            k <= world.knights@.len(),
            world.knights@.len() == old(world).knights@.len(),
            forall|j: int| 0 <= j < k ==> (#[trigger] world.knights@[j])@ == old(world)@.velocity_applied().knights[j],
            forall|j: int| k <= j < world.knights@.len() ==> #[trigger] world.knights@[j] == old(world).knights@[j],
            world.players@ =~= old(world)@.velocity_applied().players,
            world.walls == old(world).walls,
        decreases world.knights@.len() - k,
    {
        let position: Point = world.knights[k].position;
        let velocity: Velocity = world.knights[k].velocity;
        world.knights[k].position = displace(position, velocity);
        k = k + 1;
    }
    assert(world@.knights =~= old(world)@.velocity_applied().knights);
}

/// Pushes every entity out of the walls it was moved into. Each entity is
/// tested against the walls one after the other, in the order of the world.
pub fn undo_collisions(world: &mut World)
    requires
        old(world).wf(),
    ensures
        final(world)@ == old(world)@.collisions_undone(),
        final(world).wf(),
{
    let mut i: usize = 0;
    while i < world.players.len()
        invariant
            i <= world.players@.len(),
            world.players@.len() == old(world).players@.len(),
            forall|j: int| 0 <= j < i ==> #[trigger] world.players@[j] == old(world)@.collisions_undone().players[j],
            forall|j: int| 0 <= j < i ==> (#[trigger] world.players@[j]).position.in_bounds(),
            forall|j: int| i <= j < world.players@.len() ==> #[trigger] world.players@[j] == old(world).players@[j],
            old(world).wf(),
            world.knights == old(world).knights,
            world.walls == old(world).walls,
        decreases world.players@.len() - i,
    {
        let position: Point = world.players[i].position;
        world.players[i].position = resolve_all(position, &world.walls);
        i = i + 1;
    }
    let mut k: usize = 0;
    while k < world.knights.len()
        invariant
            k <= world.knights@.len(),
            world.knights@.len() == old(world).knights@.len(),
            forall|j: int| 0 <= j < k ==> (#[trigger] world.knights@[j])@ == old(world)@.collisions_undone().knights[j],
            forall|j: int| 0 <= j < k ==> (#[trigger] world.knights@[j]).position.in_bounds(),
            forall|j: int| k <= j < world.knights@.len() ==> #[trigger] world.knights@[j] == old(world).knights@[j],
            old(world).wf(),
            world.players@ =~= old(world)@.collisions_undone().players,
            forall|j: int| 0 <= j < world.players@.len() ==> (#[trigger] world.players@[j]).position.in_bounds(),
            world.walls == old(world).walls,
        decreases world.knights@.len() - k,
    {
        assert(old(world)@.knights[k as int].wf());
        let position: Point = world.knights[k].position;
        world.knights[k].position = resolve_all(position, &world.walls);
        k = k + 1;
    }
    assert(world@.knights =~= old(world)@.collisions_undone().knights);
}

/// Advances the world by one tick of fixed length. The outcome depends on
/// the world and the masks alone: players are steered first, then the
/// patrols, then every entity moves and is pushed out of the walls, players
/// before patrolling entities and each kind in the order of the world.
pub fn step(world: &mut World, inputs: PlayerInputs)
    requires
        old(world).wf(),
    ensures
        final(world)@ == old(world)@.stepped(inputs),
        final(world).wf(),
{
    apply_input(world, inputs);
    update_patrol_target(world);
    update_patrol_velocity(world);
    apply_velocity(world);
    undo_collisions(world);
}

/// The world after the given inputs have been played from `origin`, one
/// tick for each, in order.
pub open spec fn played(origin: WorldView, inputs: Seq<PlayerInputs>) -> WorldView
    decreases inputs.len(),
{
    if inputs.len() == 0 {
        origin
    } else {
        played(origin, inputs.drop_last()).stepped(inputs.last())
    }
}

/// Plays the given inputs, one tick for each, in order. The world that
/// results depends on the world at the start and on the inputs alone.
pub fn play(world: &mut World, inputs: &Vec<PlayerInputs>)
    requires
        old(world).wf(),
    ensures
        final(world)@ == played(old(world)@, inputs@),
        final(world).wf(),
{
    let mut i: usize = 0;
    while i < inputs.len()
        invariant
            i <= inputs@.len(),
            world.wf(),
            world@ == played(old(world)@, inputs@.take(i as int)),
        decreases inputs@.len() - i,
    {
        proof {
            let upto = inputs@.take(i + 1);
            assert(upto.drop_last() =~= inputs@.take(i as int));
        }
        step(world, inputs[i]);
        i = i + 1;
    }
    assert(inputs@.take(i as int) =~= inputs@);
}

/// A tick leaves a well-formed world well-formed, with the same walls, the
/// same number of entities and every player under its handle.
pub proof fn lemma_stepped_wf(world: WorldView, inputs: PlayerInputs)
    requires
        world.wf(),
    ensures
        world.stepped(inputs).wf(),
        world.stepped(inputs).walls == world.walls,
        world.stepped(inputs).players.len() == world.players.len(),
        world.stepped(inputs).knights.len() == world.knights.len(),
{
    let a = world.input_applied(inputs);
    let b = a.patrol_targets_updated();
    let c = b.patrol_velocities_updated();
    let d = c.velocity_applied();
    let e = d.collisions_undone();
    assert forall|j: int| 0 <= j < e.knights.len() implies (#[trigger] e.knights[j]).wf() by {
        lemma_pushed_through_in_bounds(d.knights[j].position, d.walls);
    }
    assert forall|j: int| 0 <= j < e.players.len() implies (#[trigger] e.players[j]).handle == j
        && e.players[j].position.in_bounds() by {
        lemma_pushed_through_in_bounds(d.players[j].position, d.walls);
    }
}

} // verus!
