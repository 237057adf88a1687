use vstd::prelude::*;
use crate::vector::{Point, Velocity, steer, steer_spec, abs, COORD_LIMIT, HALF_TILE, TILE};

verus! {

/// Row of the level grid that lies at height zero in the world: the grid
/// counts rows downwards from the top, the world counts upwards.
pub const TOP_ROW: i64 = 15;

/// Distance a patrolling entity covers in one tick: 64 pixels per second.
pub const PATROL_SPEED: i64 = 2097152;

/// A patrolling entity has reached its target when it is nearer than this to
/// it along both axes: one pixel.
pub const PATROL_EPSILON: i64 = 1966080;

/// A cell of the level grid.
#[derive(Clone, Copy, Debug, PartialEq, Eq, Structural)]
pub struct GridPoint {
    pub x: i32,
    pub y: i32,
}

/// The lower left corner, in the world, of a cell of the level grid.
pub open spec fn waypoint_of(cell: GridPoint) -> Point {
    Point { x: (cell.x * TILE) as i64, y: ((TOP_ROW - cell.y) * TILE) as i64 }
}

/// The corners of the cells of a patrol path, followed by the corner of the
/// cell in which the patrolling entity starts.
pub open spec fn route_of(path: Seq<GridPoint>, start: GridPoint) -> Seq<Point> {
    Seq::new(path.len() + 1, |i: int| if i < path.len() { waypoint_of(path[i]) } else { waypoint_of(start) })
}

/// What a patrol is: a closed loop of waypoints and the index of the one
/// that is the current target.
pub ghost struct PatrolView {
    pub waypoints: Seq<Point>,
    pub cursor: nat,
}

impl PatrolView {
    /// A patrol has a waypoint, its cursor names one, and all lie in range.
    pub open spec fn wf(self) -> bool {
        &&& self.waypoints.len() > 0
        &&& self.cursor < self.waypoints.len()
        &&& forall|i: int| 0 <= i < self.waypoints.len() ==> (#[trigger] self.waypoints[i]).in_bounds()
    }

    /// The waypoint the cursor names.
    pub open spec fn target(self) -> Point {
        self.waypoints[self.cursor as int]
    }

    /// The point towards which the centre of the entity moves: the middle of
    /// the cell whose corner the target is.
    pub open spec fn aim(self) -> Point {
        Point { x: (self.target().x + HALF_TILE) as i64, y: (self.target().y + HALF_TILE) as i64 }
    }

    /// Whether an entity centred at `position` has reached the target.
    pub open spec fn reached(self, position: Point) -> bool {
        &&& abs(position.x - self.aim().x) < PATROL_EPSILON
        &&& abs(position.y - self.aim().y) < PATROL_EPSILON
    }

    /// The same loop with the cursor on the following waypoint, the first
    /// one following the last.
    pub open spec fn advanced(self) -> PatrolView {
        PatrolView {
            waypoints: self.waypoints,
            cursor: if self.cursor + 1 == self.waypoints.len() {
                0
            } else {
                self.cursor + 1
            },
        }
    }

    /// The same loop after `steps` advances of the cursor.
    pub open spec fn advanced_by(self, steps: nat) -> PatrolView
        decreases steps,
    {
        if steps == 0 {
            self
        } else {
            self.advanced_by((steps - 1) as nat).advanced()
        }
    }

    /// The patrol after one tick of an entity centred at `position`: the
    /// cursor moves on if, and only if, the target has been reached.
    pub open spec fn retargeted(self, position: Point) -> PatrolView {
        if self.reached(position) {
            self.advanced()
        } else {
            self
        }
    }

    /// The velocity that takes an entity centred at `position` towards the
    /// target at patrol speed; none once it stands on the aim point.
    pub open spec fn heading(self, position: Point) -> Velocity {
        steer_spec(self.aim().x - position.x, self.aim().y - position.y, PATROL_SPEED as int)
    }
}

/// The path of a patrolling entity: a closed loop of waypoints, and a cursor
/// on the current target.
#[derive(Debug)]
pub struct Patrol {
    waypoints: Vec<Point>,
    cursor: usize,
}

impl View for Patrol {
    type V = PatrolView;

    closed spec fn view(&self) -> PatrolView {
        PatrolView { waypoints: self.waypoints@, cursor: self.cursor as nat }
    }
}

impl Clone for Patrol {
    fn clone(&self) -> (copy: Self)
        ensures
            copy@ == self@,
    {
        proof {
            use_type_invariant(self);
        }
        let mut waypoints: Vec<Point> = Vec::new();
        let mut i: usize = 0;
        while i < self.waypoints.len()
            invariant
                i <= self.waypoints.len(),
                waypoints@ == self.waypoints@.take(i as int),
            decreases self.waypoints.len() - i,
        {
            waypoints.push(self.waypoints[i]);
            i = i + 1;
        }
        assert(waypoints@ =~= self.waypoints@);
        Patrol { waypoints, cursor: self.cursor }
    }
}

impl Patrol {
    /// Every patrol has a waypoint, a cursor that names one, and all of its
    /// waypoints within range.
    #[verifier::type_invariant]
    pub open spec fn wf(&self) -> bool {
        self@.wf()
    }

    /// A patrol over the given waypoints that starts with the first as its
    /// target; none where there is no waypoint or one lies out of range.
    pub fn new(waypoints: Vec<Point>) -> (patrol: Option<Patrol>)
        ensures
            patrol is Some <==> (PatrolView { waypoints: waypoints@, cursor: 0 }).wf(),
            patrol is Some ==> patrol->0@ == (PatrolView { waypoints: waypoints@, cursor: 0 }),
    {
        if waypoints.len() == 0 {
            return None;
        }
        let mut i: usize = 0;
        while i < waypoints.len()
            invariant
                i <= waypoints.len(),
                forall|j: int| 0 <= j < i ==> (#[trigger] waypoints@[j]).in_bounds(),
            decreases waypoints.len() - i,
        {
            let p: Point = waypoints[i];
            if p.x < -COORD_LIMIT || p.x > COORD_LIMIT || p.y < -COORD_LIMIT || p.y > COORD_LIMIT {
                return None;
            }
            i = i + 1;
        }
        Some(Patrol { waypoints, cursor: 0 })
    }

    /// The patrol of an entity of the level: the cells of its path in order,
    /// then the cell in which it starts, each as the world position of the
    /// cell's corner. The first cell of the path is the first target. None
    /// where a cell lies out of the range of coordinates.
    pub fn from_grid(path: &Vec<GridPoint>, start: GridPoint) -> (patrol: Option<Patrol>)
        ensures
            patrol is Some <==> (PatrolView { waypoints: route_of(path@, start), cursor: 0 }).wf(),
            patrol is Some ==> patrol->0@ == (PatrolView {
                waypoints: route_of(path@, start),
                cursor: 0,
            }),
    {
        let mut waypoints: Vec<Point> = Vec::new();
        let mut i: usize = 0;
        while i < path.len()
            invariant
                i <= path.len(),
                waypoints@.len() == i,
                forall|j: int| 0 <= j < i ==> #[trigger] waypoints@[j] == waypoint_of(path@[j]),
            decreases path.len() - i,
        {
            waypoints.push(Self::corner(path[i]));
            i = i + 1;
        }
        waypoints.push(Self::corner(start));
        assert(waypoints@ =~= route_of(path@, start));
        Patrol::new(waypoints)
    }

    fn corner(cell: GridPoint) -> (p: Point)
        ensures
            p == waypoint_of(cell),
    {
        Point { x: cell.x as i64 * TILE, y: (TOP_ROW - cell.y as i64) * TILE }
    }

    /// The waypoints of the loop, in order.
    pub fn waypoints(&self) -> (waypoints: &Vec<Point>)
        ensures
            waypoints@ == self@.waypoints,
    {
        &self.waypoints
    }

    /// The waypoint that is the current target.
    pub fn target(&self) -> (target: &Point)
        ensures
            self.wf(),
            *target == self@.target(),
            target.in_bounds(),
    {
        proof {
            use_type_invariant(self);
        }
        &self.waypoints[self.cursor]
    }

    /// Moves the cursor to the following waypoint, from the last to the first.
    pub fn next(&mut self)
        ensures
            old(self).wf(),
            final(self)@ == old(self)@.advanced(),
            final(self).wf(),
    {
        proof {
            use_type_invariant(&*self);
        }
        let n: usize = self.waypoints.len();
        if self.cursor + 1 == n {
            self.cursor = 0;
        } else {
            self.cursor = self.cursor + 1;
        }
    }

    /// Number of waypoints on the loop.
    pub fn len(&self) -> (n: usize)
        ensures
            n == self@.waypoints.len(),
    {
        self.waypoints.len()
    }

    /// Index, on the loop, of the current target.
    pub fn cursor(&self) -> (c: usize)
        ensures
            c == self@.cursor,
    {
        self.cursor
    }

    /// Whether an entity centred at `position` has reached the target.
    pub fn reached(&self, position: Point) -> (there: bool)
        requires
            position.in_bounds(),
        ensures
            self.wf(),
            there == self@.reached(position),
    {
        let target: &Point = self.target();
        let dx: i64 = position.x - target.x - HALF_TILE;
        let dy: i64 = position.y - target.y - HALF_TILE;
        -PATROL_EPSILON < dx && dx < PATROL_EPSILON && -PATROL_EPSILON < dy && dy < PATROL_EPSILON
    }

    /// The velocity that takes an entity centred at `position` towards the
    /// target at patrol speed.
    pub fn heading(&self, position: Point) -> (v: Velocity)
        requires
            position.in_bounds(),
        ensures
            self.wf(),
            v == self@.heading(position),
            -PATROL_SPEED <= v.x <= PATROL_SPEED,
            -PATROL_SPEED <= v.y <= PATROL_SPEED,
    {
        let target: &Point = self.target();
        let dx: i64 = target.x - position.x + HALF_TILE;
        let dy: i64 = target.y - position.y + HALF_TILE;
        steer(dx, dy, PATROL_SPEED)
    }
}

/// Advancing the cursor as often as the loop has waypoints brings it back to
/// where it was, and after any number of advances it stands that many
/// waypoints further along the loop: a loop A, B, C is walked A, B, C, A
/// and so on without end.
pub proof fn lemma_patrol_cycles(patrol: PatrolView, steps: nat)
    requires
        patrol.wf(),
    ensures
        patrol.advanced_by(steps).wf(),
        patrol.advanced_by(steps).waypoints == patrol.waypoints,
        patrol.advanced_by(steps).cursor as int == (patrol.cursor as int + steps as int) % (
        patrol.waypoints.len() as int),
        patrol.advanced_by(patrol.waypoints.len()) == patrol,
{
    let n = patrol.waypoints.len() as int;
    let c = patrol.cursor as int;
    lemma_cursor_after(patrol, steps);
    lemma_cursor_after(patrol, patrol.waypoints.len());
    assert((c + n) % n == c) by (nonlinear_arith)
        requires
            0 <= c < n,
    ;
}

/// The cursor of a patrol stays where it is until the entity is within
/// reach of the target, and then moves on by exactly one waypoint.
pub proof fn lemma_cursor_waits_for_arrival(patrol: PatrolView, position: Point)
    requires
        patrol.wf(),
    ensures
        !patrol.reached(position) ==> patrol.retargeted(position) == patrol,
        patrol.reached(position) ==> patrol.retargeted(position) == patrol.advanced_by(1),
        patrol.retargeted(position).wf(),
        patrol.retargeted(position).waypoints == patrol.waypoints,
{
    assert(patrol.advanced_by(1) == patrol.advanced_by(0).advanced());
}

proof fn lemma_cursor_after(patrol: PatrolView, steps: nat)
    requires
        patrol.wf(),
    ensures
        patrol.advanced_by(steps).wf(),
        patrol.advanced_by(steps).waypoints == patrol.waypoints,
        patrol.advanced_by(steps).cursor as int == (patrol.cursor as int + steps as int) % (
        patrol.waypoints.len() as int),
    decreases steps,
{
    let n = patrol.waypoints.len() as int;
    let c = patrol.cursor as int;
    let k = steps as int;
    if steps > 0 {
        lemma_cursor_after(patrol, (steps - 1) as nat);
        let before = (c + k - 1) % n;
        assert(before + 1 == n ==> (c + k) % n == 0) by (nonlinear_arith)
            requires
                n > 0,
                c + k - 1 >= 0,
                before == (c + k - 1) % n,
        ;
        assert(before + 1 < n ==> (c + k) % n == before + 1) by (nonlinear_arith)
            requires
                n > 0,
                c + k - 1 >= 0,
                0 <= before,
                before == (c + k - 1) % n,
        ;
    } else {
        assert(c % n == c) by (nonlinear_arith)
            requires
                0 <= c < n,
        ;
    }
}

} // verus!
