use vstd::prelude::*;
use crate::vector::{Point, abs, COORD_LIMIT, HALF_TILE, TILE};

verus! {

/// Every wall corner stays within `-WALL_LIMIT ..= WALL_LIMIT`, so that an
/// entity pushed out of a wall still lies within the range of coordinates.
pub const WALL_LIMIT: i64 = COORD_LIMIT - 2 * TILE;

/// A wall tile: a square obstacle one tile wide that never moves, given by
/// its lower left corner.
#[derive(Clone, Copy, Debug, PartialEq, Eq, Structural)]
pub struct Wall {
    pub x: i64,
    pub y: i64,
}

impl Wall {
    /// Whether the corner lies within the range of wall corners.
    pub open spec fn in_bounds(self) -> bool {
        &&& -WALL_LIMIT <= self.x <= WALL_LIMIT
        &&& -WALL_LIMIT <= self.y <= WALL_LIMIT
    }

    /// The middle of the wall's footprint.
    pub open spec fn centre(self) -> Point {
        Point { x: (self.x + HALF_TILE) as i64, y: (self.y + HALF_TILE) as i64 }
    }

    /// Whether the corner lies within the range of wall corners.
    pub fn is_in_bounds(&self) -> (within: bool)
        ensures
            within == self.in_bounds(),
    {
        -WALL_LIMIT <= self.x && self.x <= WALL_LIMIT && -WALL_LIMIT <= self.y && self.y
            <= WALL_LIMIT
    }

    /// A wall with the given lower left corner; none where it lies out of range.
    pub fn new(x: i64, y: i64) -> (wall: Option<Wall>)
        ensures
            wall is Some <==> (Wall { x, y }).in_bounds(),
            wall is Some ==> wall->0 == (Wall { x, y }),
    {
        if x < -WALL_LIMIT || x > WALL_LIMIT || y < -WALL_LIMIT || y > WALL_LIMIT {
            None
        } else {
            Some(Wall { x, y })
        }
    }
}

/// The side of an entity against which a wall lies.
#[derive(Clone, Copy, Debug, PartialEq, Eq, Structural)]
pub enum Face {
    /// The wall lies to the left of the entity, which is pushed to the right.
    Left,
    /// The wall lies to the right of the entity, which is pushed to the left.
    Right,
    /// The wall lies above the entity, which is pushed down.
    Top,
    /// The wall lies below the entity, which is pushed up.
    Bottom,
}

/// Whether the footprint of an entity centred at `p` and the footprint of
/// the wall share more than an edge. Both are squares one tile wide.
pub open spec fn overlaps(p: Point, wall: Wall) -> bool {
    &&& abs(p.x - wall.centre().x) < TILE
    &&& abs(p.y - wall.centre().y) < TILE
}

/// How far an entity centred at `p` reaches into the wall along the x axis.
pub open spec fn depth_x(p: Point, wall: Wall) -> int {
    TILE - abs(p.x - wall.centre().x)
}

/// How far an entity centred at `p` reaches into the wall along the y axis.
pub open spec fn depth_y(p: Point, wall: Wall) -> int {
    TILE - abs(p.y - wall.centre().y)
}

/// The face through which an overlapping entity leaves the wall: the one of
/// least penetration. Where both axes tie, the entity leaves along the x
/// axis, and an entity centred on the wall's centre line leaves towards the
/// greater coordinate.
pub open spec fn struck_face(p: Point, wall: Wall) -> Face {
    if depth_y(p, wall) < depth_x(p, wall) {
        if p.y >= wall.centre().y {
            Face::Bottom
        } else {
            Face::Top
        }
    } else {
        if p.x >= wall.centre().x {
            Face::Left
        } else {
            Face::Right
        }
    }
}

/// Where an entity centred at `p` stands once it lies flush against the
/// given face of the wall.
pub open spec fn flush_against(p: Point, wall: Wall, face: Face) -> Point {
    match face {
        Face::Left => Point { x: (wall.centre().x + TILE) as i64, y: p.y },
        Face::Right => Point { x: (wall.centre().x - TILE) as i64, y: p.y },
        Face::Top => Point { x: p.x, y: (wall.centre().y - TILE) as i64 },
        Face::Bottom => Point { x: p.x, y: (wall.centre().y + TILE) as i64 },
    }
}

/// The position of an entity that was proposed to stand at `p` after it has
/// been pushed out of the wall, if it reached into it at all.
pub open spec fn pushed(p: Point, wall: Wall) -> Point {
    if overlaps(p, wall) {
        flush_against(p, wall, struck_face(p, wall))
    } else {
        p
    }
}

/// The position of an entity that was proposed to stand at `p` after it has
/// been pushed out of each wall in turn, in the order of the sequence. A
/// later wall may push the entity back into an earlier one.
pub open spec fn pushed_through(p: Point, walls: Seq<Wall>) -> Point
    decreases walls.len(),
{
    if walls.len() == 0 {
        p
    } else {
        pushed(pushed_through(p, walls.drop_last()), walls.last())
    }
}

/// Whether every wall of the sequence lies within range.
pub open spec fn walls_in_bounds(walls: Seq<Wall>) -> bool {
    forall|i: int| 0 <= i < walls.len() ==> (#[trigger] walls[i]).in_bounds()
}

/// Tests an entity centred at `p` against a wall, and says through which
/// face it leaves the wall if the two overlap.
pub fn collide(p: Point, wall: &Wall) -> (hit: Option<Face>)
    requires
        p.in_bounds(),
        wall.in_bounds(),
    ensures
        hit is Some <==> overlaps(p, *wall),
        hit is Some ==> hit->0 == struck_face(p, *wall),
{
    let dx: i64 = p.x - (wall.x + HALF_TILE);
    let dy: i64 = p.y - (wall.y + HALF_TILE);
    let ax: i64 = if dx < 0 { -dx } else { dx };
    let ay: i64 = if dy < 0 { -dy } else { dy };
    if ax < TILE && ay < TILE {
        if ay > ax {
            if dy >= 0 {
                Some(Face::Bottom)
            } else {
                Some(Face::Top)
            }
        } else {
            if dx >= 0 {
                Some(Face::Left)
            } else {
                Some(Face::Right)
            }
        }
    } else {
        None
    }
}

/// Pushes an entity that was proposed to stand at `p` out of the wall: back
/// through the face of least penetration, by exactly the depth to which it
/// reached in, so that it lies flush against the wall. An entity that does
/// not overlap the wall stays where it is.
pub fn resolve(p: Point, wall: &Wall) -> (q: Point)
    requires
        p.in_bounds(),
        wall.in_bounds(),
    ensures
        q == pushed(p, *wall),
        !overlaps(q, *wall),
        q.in_bounds(),
        overlaps(p, *wall) ==> abs(q.x - p.x) + abs(q.y - p.y) == if depth_y(p, *wall) < depth_x(
            p,
            *wall,
        ) {
            depth_y(p, *wall)
        } else {
            depth_x(p, *wall)
        },
{
    let cx: i64 = wall.x + HALF_TILE;
    let cy: i64 = wall.y + HALF_TILE;
    match collide(p, wall) {
        Some(Face::Left) => Point { x: cx + TILE, y: p.y },
        Some(Face::Right) => Point { x: cx - TILE, y: p.y },
        Some(Face::Top) => Point { x: p.x, y: cy - TILE },
        Some(Face::Bottom) => Point { x: p.x, y: cy + TILE },
        None => p,
    }
}

/// Pushes an entity that was proposed to stand at `p` out of every wall, one
/// wall after the other in the order of `walls`.
pub fn resolve_all(p: Point, walls: &Vec<Wall>) -> (q: Point)
    requires
        p.in_bounds(),
        walls_in_bounds(walls@),
    ensures
        q == pushed_through(p, walls@),
        q.in_bounds(),
        walls@.len() > 0 ==> !overlaps(q, walls@.last()),
{
    let mut q: Point = p;
    let mut i: usize = 0;
    while i < walls.len()
        invariant
            i <= walls.len(),
            walls_in_bounds(walls@),
            q.in_bounds(),
            q == pushed_through(p, walls@.take(i as int)),
            i > 0 ==> !overlaps(q, walls@[i - 1]),
        decreases walls.len() - i,
    {
        proof {
            let upto = walls@.take(i + 1);
            assert(upto.drop_last() =~= walls@.take(i as int));
        }
        q = resolve(q, &walls[i]);
        i = i + 1;
    }
    assert(walls@.take(i as int) =~= walls@);
    q
}

/// An entity that starts within range stays within range while it is pushed
/// out of walls.
pub proof fn lemma_pushed_through_in_bounds(p: Point, walls: Seq<Wall>)
    requires
        p.in_bounds(),
        walls_in_bounds(walls),
    ensures
        pushed_through(p, walls).in_bounds(),
    decreases walls.len(),
{
    if walls.len() > 0 {
        let front = walls.drop_last();
        lemma_pushed_through_in_bounds(p, front);
    }
}

/// An entity pushed out of a wall does not overlap that wall.
pub proof fn lemma_pushed_is_clear(p: Point, wall: Wall)
    requires
        p.in_bounds(),
        wall.in_bounds(),
    ensures
        !overlaps(pushed(p, wall), wall),
{
}

/// Right after a wall has been handled, the entity is clear of that wall,
/// whatever walls were handled before it.
pub proof fn lemma_clear_of_each_wall_in_turn(p: Point, walls: Seq<Wall>, i: int)
    requires
        p.in_bounds(),
        walls_in_bounds(walls),
        0 <= i < walls.len(),
    ensures
        !overlaps(pushed_through(p, walls.take(i + 1)), walls[i]),
{
}

/// At the end of a pass the entity is clear of every wall after which no
/// later wall has moved it.
pub proof fn lemma_clear_of_walls_since_last_push(p: Point, walls: Seq<Wall>, i: int)
    requires
        p.in_bounds(),
        walls_in_bounds(walls),
        0 <= i < walls.len(),
        pushed_through(p, walls.take(i + 1)) == pushed_through(p, walls),
    ensures
        !overlaps(pushed_through(p, walls), walls[i]),
{
}

/// An entity proposed to stand where it overlaps no wall is left there.
pub proof fn lemma_free_position_stays(p: Point, walls: Seq<Wall>)
    requires
        forall|i: int| 0 <= i < walls.len() ==> !overlaps(p, #[trigger] walls[i]),
    ensures
        pushed_through(p, walls) == p,
    decreases walls.len(),
{
    if walls.len() > 0 {
        let front = walls.drop_last();
        lemma_free_position_stays(p, front);
    }
}

} // verus!
