use vstd::prelude::*;
use vstd::string::StringExecFns;
use crate::collision::{Wall, walls_in_bounds};
use crate::patrol::{Patrol, PatrolView};
use crate::vector::{Point, Velocity};

verus! {

/// Number of players in a match.
pub const LOBBY_PLAYER_COUNT: usize = 2;

/// A player of the match, known by a handle that is fixed for the match.
#[derive(Clone, Copy, Debug, PartialEq, Eq, Structural)]
pub struct Player {
    pub handle: usize,
}

impl Player {
    /// The player whose entity the level data calls `identifier`, if it
    /// calls one so.
    pub open spec fn named(identifier: Seq<char>) -> Option<Player> {
        if identifier == "Icarus"@ {
            Some(Player { handle: 0 })
        } else if identifier == "Minotaur"@ {
            Some(Player { handle: 1 })
        } else {
            None
        }
    }

    /// The player whose entity the level data calls `identifier`: handle 0
    /// for Icarus and handle 1 for the Minotaur; none for any other name.
    pub fn from_entity(identifier: &str) -> (player: Option<Player>)
        ensures
            player == Player::named(identifier@),
    {
        let name: String = String::from_str(identifier);
        if name == String::from_str("Icarus") {
            Some(Player { handle: 0 })
        } else if name == String::from_str("Minotaur") {
            Some(Player { handle: 1 })
        } else {
            None
        }
    }
}

/// A player's entity: whose it is, where it stands and how it moves.
#[derive(Clone, Copy, Debug, PartialEq, Eq, Structural)]
pub struct PlayerState {
    pub handle: usize,
    pub position: Point,
    pub velocity: Velocity,
}

/// An entity that walks a patrol.
#[derive(Debug)]
pub struct Knight {
    pub position: Point,
    pub velocity: Velocity,
    pub patrol: Patrol,
}

/// What a patrolling entity is.
pub ghost struct KnightView {
    pub position: Point,
    pub velocity: Velocity,
    pub patrol: PatrolView,
}

impl KnightView {
    /// The entity stands within range and its patrol is one.
    pub open spec fn wf(self) -> bool {
        &&& self.position.in_bounds()
        &&& self.patrol.wf()
    }
}

impl View for Knight {
    type V = KnightView;

    open spec fn view(&self) -> KnightView {
        KnightView { position: self.position, velocity: self.velocity, patrol: self.patrol@ }
    }
}

impl Clone for Knight {
    fn clone(&self) -> (copy: Self)
        ensures
            copy@ == self@,
    {
        Knight { position: self.position, velocity: self.velocity, patrol: self.patrol.clone() }
    }
}

/// The views of a sequence of patrolling entities.
pub open spec fn knight_views(knights: Seq<Knight>) -> Seq<KnightView> {
    Seq::new(knights.len(), |i: int| knights[i]@)
}

/// What the world is: the entities of both players by handle, the
/// patrolling entities in the order in which they were spawned, and the
/// walls in the order in which entities are tested against them.
pub ghost struct WorldView {
    pub players: Seq<PlayerState>,
    pub knights: Seq<KnightView>,
    pub walls: Seq<Wall>,
}

impl WorldView {
    /// There are exactly two players, each at the index of its handle; every
    /// entity stands within range, every patrol is one, and every wall lies
    /// within range.
    pub open spec fn wf(self) -> bool {
        &&& self.players.len() == LOBBY_PLAYER_COUNT
        &&& forall|i: int|
            0 <= i < self.players.len() ==> {
                &&& (#[trigger] self.players[i]).handle == i
                &&& self.players[i].position.in_bounds()
            }
        &&& forall|i: int| 0 <= i < self.knights.len() ==> (#[trigger] self.knights[i]).wf()
        &&& walls_in_bounds(self.walls)
    }
}

/// The simulated world.
#[derive(Debug)]
pub struct World {
    pub(crate) players: Vec<PlayerState>,
    pub(crate) knights: Vec<Knight>,
    pub(crate) walls: Vec<Wall>,
}

impl View for World {
    type V = WorldView;

    open(crate) spec fn view(&self) -> WorldView {
        WorldView {
            players: self.players@,
            knights: knight_views(self.knights@),
            walls: self.walls@,
        }
    }
}

/// What a saved state is: the frame at whose start it was taken, and every
/// entity as it was then.
pub ghost struct SavedStateView {
    pub frame: u32,
    pub players: Seq<PlayerState>,
    pub knights: Seq<KnightView>,
}

impl SavedStateView {
    /// The snapshot holds two players, each at the index of its handle,
    /// every entity within range and every patrol as one.
    pub open spec fn wf(self) -> bool {
        &&& self.players.len() == LOBBY_PLAYER_COUNT
        &&& forall|i: int|
            0 <= i < self.players.len() ==> {
                &&& (#[trigger] self.players[i]).handle == i
                &&& self.players[i].position.in_bounds()
            }
        &&& forall|i: int| 0 <= i < self.knights.len() ==> (#[trigger] self.knights[i]).wf()
    }
}

impl WorldView {
    /// The world that the given parts make up.
    pub open spec fn assembled(
        players: Seq<PlayerState>,
        knights: Seq<Knight>,
        walls: Seq<Wall>,
    ) -> WorldView {
        WorldView { players, knights: knight_views(knights), walls }
    }

    /// The snapshot of this world, taken at the start of `frame`.
    pub open spec fn saved(self, frame: u32) -> SavedStateView {
        SavedStateView { frame, players: self.players, knights: self.knights }
    }

    /// This world with its entities as the snapshot has them.
    pub open spec fn restored(self, saved: SavedStateView) -> WorldView {
        WorldView { players: saved.players, knights: saved.knights, walls: self.walls }
    }
}

/// A snapshot of every entity of the world, tagged with the frame at whose
/// start it was taken.
#[derive(Debug)]
pub struct SavedState {
    pub(crate) frame: u32,
    pub(crate) players: Vec<PlayerState>,
    pub(crate) knights: Vec<Knight>,
}

impl View for SavedState {
    type V = SavedStateView;

    open(crate) spec fn view(&self) -> SavedStateView {
        SavedStateView {
            frame: self.frame,
            players: self.players@,
            knights: knight_views(self.knights@),
        }
    }
}

impl SavedState {
    /// The frame at whose start the snapshot was taken.
    pub fn frame(&self) -> (frame: u32)
        ensures
            frame == self@.frame,
    {
        self.frame
    }
}

fn copy_players(players: &Vec<PlayerState>) -> (copy: Vec<PlayerState>)
    ensures
        copy@ == players@,
{
    let mut copy: Vec<PlayerState> = Vec::new();
    let mut i: usize = 0;
    while i < players.len()
        invariant
            i <= players.len(),
            copy@ == players@.take(i as int),
        decreases players.len() - i,
    {
        copy.push(players[i]);
        i = i + 1;
    }
    copy
}

fn copy_knights(knights: &Vec<Knight>) -> (copy: Vec<Knight>)
    ensures
        knight_views(copy@) == knight_views(knights@),
{
    let mut copy: Vec<Knight> = Vec::new();
    let mut i: usize = 0;
    while i < knights.len()
        invariant
            i <= knights.len(),
            copy@.len() == i,
            forall|j: int| 0 <= j < i ==> (#[trigger] copy@[j])@ == knights@[j]@,
        decreases knights.len() - i,
    {
        copy.push(knights[i].clone());
        i = i + 1;
    }
    copy
}

impl World {
    /// Whether the world is one that the systems accept.
    pub open spec fn wf(&self) -> bool {
        self@.wf()
    }

    /// The world made of the given entities and walls; none unless there
    /// are exactly two players, each at the index of its handle, and every
    /// entity and wall lies within range.
    #[verifier::loop_isolation(false)]
    pub fn new(players: Vec<PlayerState>, knights: Vec<Knight>, walls: Vec<Wall>) -> (world:
        Option<World>)
        ensures
            world is Some <==> WorldView::assembled(players@, knights@, walls@).wf(),
            world is Some ==> world->0@ == WorldView::assembled(players@, knights@, walls@),
    {
        let ghost view = WorldView::assembled(players@, knights@, walls@);
        if players.len() != LOBBY_PLAYER_COUNT {
            return None;
        }
        let mut i: usize = 0;
        while i < players.len()
            invariant
                i <= players.len(),
                forall|j: int|
                    0 <= j < i ==> (#[trigger] players@[j]).handle == j
                        && players@[j].position.in_bounds(),
            decreases players.len() - i,
        {
            if players[i].handle != i || !players[i].position.is_in_bounds() {
                return None;
            }
            i = i + 1;
        }
        let mut k: usize = 0;
        while k < knights.len()
            invariant
                k <= knights.len(),
                forall|j: int| 0 <= j < k ==> (#[trigger] knights@[j])@.wf(),
            decreases knights.len() - k,
        {
            let knight: &Knight = &knights[k];
            proof {
                use_type_invariant(&knight.patrol);
            }
            if !knight.position.is_in_bounds() {
                assert(!view.knights[k as int].wf());
                return None;
            }
            k = k + 1;
        }
        let mut w: usize = 0;
        while w < walls.len()
            invariant
                w <= walls.len(),
                forall|j: int| 0 <= j < w ==> (#[trigger] walls@[j]).in_bounds(),
            decreases walls.len() - w,
        {
            if !walls[w].is_in_bounds() {
                return None;
            }
            w = w + 1;
        }
        Some(World { players, knights, walls })
    }

    /// The entities of the players, by handle.
    pub fn players(&self) -> (players: &Vec<PlayerState>)
        ensures
            players@ == self@.players,
    {
        &self.players
    }

    /// The patrolling entities, in the order in which they were spawned.
    pub fn knights(&self) -> (knights: &Vec<Knight>)
        ensures
            knight_views(knights@) == self@.knights,
    {
        &self.knights
    }

    /// The walls, in the order in which entities are tested against them.
    pub fn walls(&self) -> (walls: &Vec<Wall>)
        ensures
            walls@ == self@.walls,
    {
        &self.walls
    }

    /// A snapshot of every entity, tagged with `frame`.
    pub fn save(&self, frame: u32) -> (saved: SavedState)
        ensures
            saved@ == self@.saved(frame),
            self.wf() ==> saved@.wf(),
    {
        let saved = SavedState {
            frame,
            players: copy_players(&self.players),
            knights: copy_knights(&self.knights),
        };
        proof {
            if self.wf() {
                assert forall|i: int| 0 <= i < saved@.players.len() implies (
                #[trigger] saved@.players[i]).handle == i
                    && saved@.players[i].position.in_bounds() by {}
            }
        }
        saved
    }

    /// Puts every entity back to where the snapshot has it. The walls stay.
    pub fn restore(&mut self, saved: &SavedState)
        ensures
            final(self)@ == old(self)@.restored(saved@),
            old(self).wf() && saved@.wf() ==> final(self).wf(),
    {
        self.players = copy_players(&saved.players);
        self.knights = copy_knights(&saved.knights);
        proof {
            if old(self).wf() && saved@.wf() {
                assert forall|i: int| 0 <= i < self@.knights.len() implies (
                #[trigger] self@.knights[i]).wf() by {
                    assert(saved@.knights[i].wf());
                }
            }
        }
    }
}

} // verus!
