use vstd::prelude::*;

verus! {

/// Pixels along one edge of a level tile.
pub const PPU: i64 = 16;

/// World units that an entity covers in one tick, of which there are sixty
/// in a second, while it moves at one pixel per second. A velocity in
/// world units per tick is this many times the speed in pixels per second,
/// which makes the rounding of a velocity finer than a thirty-thousandth
/// of a pixel per second.
pub const UNITS_PER_SPEED: i64 = 32768;

/// World units in one pixel: sixty times `UNITS_PER_SPEED`.
pub const UNITS_PER_PIXEL: i64 = 1966080;

/// Edge of a tile, and of every entity and wall footprint, in world units.
pub const TILE: i64 = 31457280;

/// Half a tile: the distance from the corner of a footprint to its centre.
pub const HALF_TILE: i64 = 15728640;

/// Every entity coordinate stays within `-COORD_LIMIT ..= COORD_LIMIT`.
pub const COORD_LIMIT: i64 = 0x100_0000_0000;

/// Largest distance along one axis that `steer` accepts.
pub const REACH_LIMIT: i64 = 0x400_0000_0000;

/// Largest speed that `steer` accepts.
pub const SPEED_LIMIT: i64 = 0x20_0000;

/// A place in the world, in world units.
#[derive(Clone, Copy, Debug, PartialEq, Eq, Structural)]
pub struct Point {
    pub x: i64,
    pub y: i64,
}

impl Point {
    /// Whether both coordinates lie within the range of coordinates.
    pub open spec fn in_bounds(self) -> bool {
        &&& -COORD_LIMIT <= self.x <= COORD_LIMIT
        &&& -COORD_LIMIT <= self.y <= COORD_LIMIT
    }

    /// Whether both coordinates lie within the range of coordinates.
    pub fn is_in_bounds(&self) -> (within: bool)
        ensures
            within == self.in_bounds(),
    {
        -COORD_LIMIT <= self.x && self.x <= COORD_LIMIT && -COORD_LIMIT <= self.y && self.y
            <= COORD_LIMIT
    }
}

/// A displacement per tick, in world units.
#[derive(Clone, Copy, Debug, PartialEq, Eq, Structural)]
pub struct Velocity {
    pub x: i64,
    pub y: i64,
}

/// The distance of a number from zero.
pub open spec fn abs(v: int) -> int {
    if v < 0 {
        -v
    } else {
        v
    }
}

/// The coordinate nearest to `v` within the range of coordinates.
pub open spec fn clamp_coord(v: int) -> int {
    if v < -COORD_LIMIT {
        -(COORD_LIMIT as int)
    } else if v > COORD_LIMIT {
        COORD_LIMIT as int
    } else {
        v
    }
}

/// Whether `r` is the integer part of the square root of `n`.
pub open spec fn is_floor_sqrt(n: int, r: int) -> bool {
    0 <= r && r * r <= n < (r + 1) * (r + 1)
}

/// The integer part of the square root of `n`.
pub open spec fn floor_sqrt(n: int) -> int {
    choose|r: int| is_floor_sqrt(n, r)
}

/// At most one number is the integer square root of `n`.
pub proof fn lemma_floor_sqrt_unique(n: int, a: int, b: int)
    requires
        is_floor_sqrt(n, a),
        is_floor_sqrt(n, b),
    ensures
        a == b,
{
    assert(a < b ==> (a + 1) * (a + 1) <= b * b) by (nonlinear_arith)
        requires
            0 <= a,
            0 <= b,
    ;
    assert(b < a ==> (b + 1) * (b + 1) <= a * a) by (nonlinear_arith)
        requires
            0 <= a,
            0 <= b,
    ;
}

/// A number known to be the integer square root of `n` is `floor_sqrt(n)`.
pub proof fn lemma_floor_sqrt_is(n: int, r: int)
    requires
        is_floor_sqrt(n, r),
    ensures
        floor_sqrt(n) == r,
{
    lemma_floor_sqrt_unique(n, floor_sqrt(n), r);
}

/// Every number from zero on has an integer square root, and `floor_sqrt`
/// is it.
pub proof fn lemma_floor_sqrt(n: int)
    requires
        0 <= n,
    ensures
        is_floor_sqrt(n, floor_sqrt(n)),
    decreases n,
{
    if n == 0 {
        assert(is_floor_sqrt(0, 0));
    } else {
        lemma_floor_sqrt(n - 1);
        let r = floor_sqrt(n - 1);
        if (r + 1) * (r + 1) <= n {
            assert(n < (r + 2) * (r + 2)) by (nonlinear_arith)
                requires
                    n - 1 < (r + 1) * (r + 1),
                    0 <= r,
            ;
            assert(is_floor_sqrt(n, r + 1));
        } else {
            assert(is_floor_sqrt(n, r));
        }
    }
}

/// A steered velocity is no faster than the speed asked for, and along
/// each axis it points the way the direction does.
pub proof fn lemma_steer_within_speed(dx: int, dy: int, speed: int)
    requires
        0 <= speed <= SPEED_LIMIT,
    ensures
        ({
            let v = steer_spec(dx, dy, speed);
            &&& v.x * v.x + v.y * v.y <= speed * speed
            &&& (dx >= 0 ==> v.x >= 0) && (dx <= 0 ==> v.x <= 0)
            &&& (dy >= 0 ==> v.y >= 0) && (dy <= 0 ==> v.y <= 0)
        }),
{
    if dx != 0 || dy != 0 {
        let n = dx * dx + dy * dy;
        let ss = speed * speed;
        let qx = (dx * dx * speed * speed) / n;
        let qy = (dy * dy * speed * speed) / n;
        assert(n > 0 && dx * dx >= 0 && dy * dy >= 0 && ss >= 0) by (nonlinear_arith)
            requires
                n == dx * dx + dy * dy,
                ss == speed * speed,
                dx != 0 || dy != 0,
        ;
        assert(0 <= qx && 0 <= qy && qx + qy <= ss) by (nonlinear_arith)
            requires
                n > 0,
                dx * dx >= 0,
                dy * dy >= 0,
                ss >= 0,
                n == dx * dx + dy * dy,
                ss == speed * speed,
                qx == (dx * dx * speed * speed) / n,
                qy == (dy * dy * speed * speed) / n,
        ;
        lemma_floor_sqrt(qx);
        lemma_floor_sqrt(qy);
        let mx = floor_sqrt(qx);
        let my = floor_sqrt(qy);
        assert(mx <= speed && my <= speed) by (nonlinear_arith)
            requires
                0 <= mx,
                0 <= my,
                mx * mx <= qx,
                my * my <= qy,
                qx + qy <= speed * speed,
                0 <= qx,
                0 <= qy,
                0 <= speed,
        ;
        if dx == 0 {
            assert(qx == 0) by (nonlinear_arith)
                requires
                    dx == 0,
                    n > 0,
                    qx == (dx * dx * speed * speed) / n,
            ;
            lemma_floor_sqrt_is(0, 0);
        }
        if dy == 0 {
            assert(qy == 0) by (nonlinear_arith)
                requires
                    dy == 0,
                    n > 0,
                    qy == (dy * dy * speed * speed) / n,
            ;
            lemma_floor_sqrt_is(0, 0);
        }
        let v = steer_spec(dx, dy, speed);
        assert(v.x * v.x + v.y * v.y <= speed * speed) by (nonlinear_arith)
            requires
                v.x == mx || v.x == -mx,
                v.y == my || v.y == -my,
                mx * mx <= qx,
                my * my <= qy,
                qx + qy <= speed * speed,
        ;
    }
}

/// Each part of a steered velocity is the exact part rounded towards zero:
/// it falls short of the part of the vector of length `speed` by less than
/// one world unit per tick.
pub proof fn lemma_steer_is_rounded_down(d: int, dx: int, dy: int, speed: int)
    requires
        dx != 0 || dy != 0,
        d == dx || d == dy,
        0 <= speed,
    ensures
        ({
            let m = scaled_length(d, dx, dy, speed);
            let n = dx * dx + dy * dy;
            &&& 0 <= m
            &&& m * m * n <= d * d * speed * speed
            &&& d * d * speed * speed < (m + 1) * (m + 1) * n
        }),
{
    let n = dx * dx + dy * dy;
    let a = d * d * speed * speed;
    let q = a / n;
    assert(n > 0 && a >= 0) by (nonlinear_arith)
        requires
            n == dx * dx + dy * dy,
            dx != 0 || dy != 0,
            a == d * d * speed * speed,
    ;
    assert(0 <= q && q * n <= a < (q + 1) * n) by (nonlinear_arith)
        requires
            n > 0,
            a >= 0,
            q == a / n,
    ;
    lemma_floor_sqrt(q);
    let m = floor_sqrt(q);
    assert(m * m * n <= a && a < (m + 1) * (m + 1) * n) by (nonlinear_arith)
        requires
            0 <= m,
            m * m <= q,
            q + 1 <= (m + 1) * (m + 1),
            q * n <= a,
            a < (q + 1) * n,
            n > 0,
    ;
}

/// Steering along an axis gives the full speed along that axis.
pub proof fn lemma_steer_along_axis(d: int, speed: int)
    requires
        d != 0,
        0 <= speed <= SPEED_LIMIT,
    ensures
        steer_spec(d, 0, speed) == (Velocity { x: (if d > 0 { speed } else { -speed }) as i64, y: 0 }),
        steer_spec(0, d, speed) == (Velocity { x: 0, y: (if d > 0 { speed } else { -speed }) as i64 }),
{
    let dd = d * d;
    let ss = speed * speed;
    assert(dd > 0 && ss >= 0 && d * d + 0 * 0 == dd && 0 * 0 + d * d == dd && d * d * speed * speed
        == dd * ss && 0 * 0 * speed * speed == 0) by (nonlinear_arith)
        requires
            d != 0,
            dd == d * d,
            ss == speed * speed,
    ;
    assert((dd * ss) / dd == ss && 0int / dd == 0) by (nonlinear_arith)
        requires
            dd > 0,
    ;
    assert(is_floor_sqrt(ss, speed)) by (nonlinear_arith)
        requires
            ss == speed * speed,
            0 <= speed,
    ;
    lemma_floor_sqrt_is(ss, speed);
    lemma_floor_sqrt_is(0, 0);
}

/// Integer square root.
pub fn isqrt(n: u128) -> (r: u64)
    ensures
        is_floor_sqrt(n as int, r as int),
        r as int == floor_sqrt(n as int),
{
    let mut lo: u128 = 0;
    let mut hi: u128 = 0x1_0000_0000_0000_0000;
    while hi - lo > 1
        invariant
            lo < hi <= 0x1_0000_0000_0000_0000,
            lo * lo <= n < hi * hi,
        decreases hi - lo,
    {
        let mid: u128 = lo + (hi - lo) / 2;
        assert(mid * mid <= u128::MAX) by (nonlinear_arith)
            requires
                mid < 0x1_0000_0000_0000_0000,
        ;
        if mid * mid <= n {
            lo = mid;
        } else {
            hi = mid;
        }
    }
    proof {
        lemma_floor_sqrt_is(n as int, lo as int);
    }
    lo as u64
}

/// Length, rounded down, of the part along one axis of a vector of length
/// `speed` that points the way `(dx, dy)` does; `d` is `dx` or `dy`.
pub open spec fn scaled_length(d: int, dx: int, dy: int, speed: int) -> int {
    floor_sqrt((d * d * speed * speed) / (dx * dx + dy * dy))
}

/// The part along one axis of a vector of length `speed` that points the
/// way `(dx, dy)` does, rounded towards zero; `d` is `dx` or `dy`.
pub open spec fn scaled_part(d: int, dx: int, dy: int, speed: int) -> int {
    if d < 0 {
        -scaled_length(d, dx, dy, speed)
    } else {
        scaled_length(d, dx, dy, speed)
    }
}

/// The velocity of length `speed` in the direction `(dx, dy)`, each part
/// rounded towards zero; no movement where there is no direction.
pub open spec fn steer_spec(dx: int, dy: int, speed: int) -> Velocity {
    if dx == 0 && dy == 0 {
        Velocity { x: 0, y: 0 }
    } else {
        Velocity {
            x: scaled_part(dx, dx, dy, speed) as i64,
            y: scaled_part(dy, dx, dy, speed) as i64,
        }
    }
}

fn magnitude(d: i64) -> (m: u128)
    ensures
        m == abs(d as int),
{
    if d < 0 {
        (-(d as i128)) as u128
    } else {
        d as u128
    }
}

fn scaled(d: i64, dx: i64, dy: i64, speed: i64) -> (part: i64)
    requires
        -REACH_LIMIT <= dx <= REACH_LIMIT,
        -REACH_LIMIT <= dy <= REACH_LIMIT,
        d == dx || d == dy,
        dx != 0 || dy != 0,
        0 <= speed <= SPEED_LIMIT,
    ensures
        part == scaled_part(d as int, dx as int, dy as int, speed as int),
        -speed <= part <= speed,
{
    let a: u128 = magnitude(d);
    let ax: u128 = magnitude(dx);
    let ay: u128 = magnitude(dy);
    let s: u128 = speed as u128;
    assert(ax * ax <= 0x400_0000_0000 * 0x400_0000_0000) by (nonlinear_arith)
        requires
            ax <= 0x400_0000_0000,
    ;
    assert(ay * ay <= 0x400_0000_0000 * 0x400_0000_0000) by (nonlinear_arith)
        requires
            ay <= 0x400_0000_0000,
    ;
    assert(s * s <= 0x20_0000 * 0x20_0000) by (nonlinear_arith)
        requires
            s <= 0x20_0000,
    ;
    let aa: u128 = a * a;
    let ss: u128 = s * s;
    assert(aa * ss <= 0x400_0000_0000 * 0x400_0000_0000 * (0x20_0000 * 0x20_0000))
        by (nonlinear_arith)
        requires
            aa <= 0x400_0000_0000 * 0x400_0000_0000,
            ss <= 0x20_0000 * 0x20_0000,
    ;
    let n: u128 = ax * ax + ay * ay;
    assert(n > 0 && aa <= n) by (nonlinear_arith)
        requires
            n == ax * ax + ay * ay,
            aa == a * a,
            a == ax || a == ay,
            ax != 0 || ay != 0,
    ;
    let q: u128 = (aa * ss) / n;
    let m: u64 = isqrt(q);
    proof {
        assert(dx as int * dx as int == ax * ax) by (nonlinear_arith)
            requires
                ax == abs(dx as int),
        ;
        assert(dy as int * dy as int == ay * ay) by (nonlinear_arith)
            requires
                ay == abs(dy as int),
        ;
        assert(d as int * d as int * speed as int * speed as int == aa * ss) by (nonlinear_arith)
            requires
                d as int * d as int == aa,
                speed as int * speed as int == ss,
        ;
        // the quotient is at most speed * speed, so its root is at most speed
        assert(q <= ss) by (nonlinear_arith)
            requires
                q == (aa * ss) / (n as int),
                aa <= n,
                n > 0,
        ;
        assert(m <= s) by (nonlinear_arith)
            requires
                m * m <= q,
                q <= ss,
                ss == s * s,
        ;
    }
    if d < 0 {
        -(m as i64)
    } else {
        m as i64
    }
}

/// The velocity of length `speed`, rounded towards zero along each axis, that
/// points from the origin towards `(dx, dy)`; zero where `dx` and `dy` are.
pub fn steer(dx: i64, dy: i64, speed: i64) -> (v: Velocity)
    requires
        -REACH_LIMIT <= dx <= REACH_LIMIT,
        -REACH_LIMIT <= dy <= REACH_LIMIT,
        0 <= speed <= SPEED_LIMIT,
    ensures
        v == steer_spec(dx as int, dy as int, speed as int),
        -speed <= v.x <= speed,
        -speed <= v.y <= speed,
{
    if dx == 0 && dy == 0 {
        Velocity { x: 0, y: 0 }
    } else {
        Velocity { x: scaled(dx, dx, dy, speed), y: scaled(dy, dx, dy, speed) }
    }
}

/// `v` moved into the range of coordinates.
pub fn clamp(v: i128) -> (c: i64)
    ensures
        c == clamp_coord(v as int),
        -COORD_LIMIT <= c <= COORD_LIMIT,
{
    if v < -(COORD_LIMIT as i128) {
        -COORD_LIMIT
    } else if v > COORD_LIMIT as i128 {
        COORD_LIMIT
    } else {
        v as i64
    }
}

} // verus!
