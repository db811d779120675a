//! Fixed-point plane geometry: positions in whole sub-units, travel that
//! stops at the edge of the representable plane, and the reach test that
//! decides whether the player touches an item.

use vstd::prelude::*;

verus! {

/// Sub-units in one distance-unit.
pub const SUBUNITS_PER_UNIT: i64 = 1_000_000;

/// Travel speed in distance-units per time-unit. Sub-units and ticks divide
/// their units equally finely, so this is also sub-units per tick.
pub const SPEED: u64 = 150;

/// Circumference, in distance-units, of the circle within which an item
/// counts as touched.
pub const REACH_CIRCUMFERENCE: i64 = 400;

/// Radius of that circle in sub-units, rounded down: 400 / (2 pi) is a
/// little more than 63.661977 distance-units.
pub const CONSUMPTION_RADIUS: i64 = 63_661_977;

/// A point of the plane, in sub-units.
#[derive(Clone, Copy, Debug, PartialEq, Eq, Structural)]
pub struct Position {
    pub x: i64,
    pub y: i64,
}

/// The coordinate nearest to `v` that can be represented.
pub open spec fn clamp_coord(v: int) -> i64 {
    if v > i64::MAX {
        i64::MAX
    } else if v < i64::MIN {
        i64::MIN
    } else {
        v as i64
    }
}

/// Sub-units travelled at full speed during `delta` ticks.
pub open spec fn travel(delta: u64) -> int {
    SPEED * delta
}

/// Whether two points are strictly closer than the consumption radius, by
/// Euclidean distance.
pub open spec fn within_reach(a: Position, b: Position) -> bool {
    let dx = a.x - b.x;
    let dy = a.y - b.y;
    dx * dx + dy * dy < CONSUMPTION_RADIUS * CONSUMPTION_RADIUS
}

/// Sub-units travelled during `delta` ticks, as a machine number.
fn travelled(delta: u64) -> (distance: i128)
    ensures
        distance == travel(delta),
        0 <= distance <= SPEED * u64::MAX,
{
    let ticks: i128 = delta as i128;
    assert(0 <= SPEED * ticks <= SPEED * u64::MAX) by (nonlinear_arith)
        requires
            0 <= ticks <= u64::MAX,
    ;
    (SPEED as i128) * ticks
}

/// The representable coordinate nearest to `target`.
fn clamped(target: i128) -> (coord: i64)
    ensures
        coord == clamp_coord(target as int),
{
    if target > i64::MAX as i128 {
        i64::MAX
    } else if target < i64::MIN as i128 {
        i64::MIN
    } else {
        target as i64
    }
}

/// `coord` after travelling up the axis for `delta` ticks, stopping at the
/// edge of the plane.
pub fn coord_raised(coord: i64, delta: u64) -> (moved: i64)
    ensures
        moved == clamp_coord(coord + travel(delta)),
{
    clamped(coord as i128 + travelled(delta))
}

/// `coord` after travelling down the axis for `delta` ticks, stopping at the
/// edge of the plane.
pub fn coord_lowered(coord: i64, delta: u64) -> (moved: i64)
    ensures
        moved == clamp_coord(coord - travel(delta)),
{
    clamped(coord as i128 - travelled(delta))
}

impl Position {
    pub fn new(x: i64, y: i64) -> (p: Position)
        ensures
            p.x == x,
            p.y == y,
    {
        Position { x, y }
    }

    /// The point at whole distance-units, where it can be represented.
    pub fn from_units(x: i64, y: i64) -> (p: Option<Position>)
        ensures
            p == if i64::MIN <= x * SUBUNITS_PER_UNIT <= i64::MAX && i64::MIN <= y
                * SUBUNITS_PER_UNIT <= i64::MAX {
                Some(Position { x: (x * SUBUNITS_PER_UNIT) as i64, y: (y * SUBUNITS_PER_UNIT) as i64 })
            } else {
                None
            },
    {
        match (x.checked_mul(SUBUNITS_PER_UNIT), y.checked_mul(SUBUNITS_PER_UNIT)) {
            (Some(px), Some(py)) => Some(Position { x: px, y: py }),
            _ => None,
        }
    }

    /// Whether `other` lies strictly within the consumption radius of this
    /// point.
    pub fn reaches(&self, other: &Position) -> (hit: bool)
        ensures
            hit == within_reach(*self, *other),
    {
        let dx: i128 = self.x as i128 - other.x as i128;
        let dy: i128 = self.y as i128 - other.y as i128;
        let r: i128 = CONSUMPTION_RADIUS as i128;
        if dx >= r || dx <= -r || dy >= r || dy <= -r {
            proof {
                lemma_square_beyond(dx as int, r as int);
                lemma_square_beyond(dy as int, r as int);
            }
            false
        } else {
            proof {
                lemma_square_inside(dx as int, r as int);
                lemma_square_inside(dy as int, r as int);
            }
            dx * dx + dy * dy < r * r
        }
    }
}

/// A number at least `r` away from zero has a square of at least `r` squared,
/// and no square is negative.
proof fn lemma_square_beyond(d: int, r: int)
    by (nonlinear_arith)
    requires
        r >= 0,
    ensures
        d * d >= 0,
        d >= r || d <= -r ==> d * d >= r * r,
{
}

/// A number strictly less than `r` away from zero has a square below `r`
/// squared.
proof fn lemma_square_inside(d: int, r: int)
    by (nonlinear_arith)
    requires
        -r < d < r,
    ensures
        0 <= d * d < r * r,
{
}

/// The consumption radius is the radius of a circle whose circumference is
/// the reach circumference, rounded down to a whole sub-unit. Pi is taken
/// between 3.14159265358979 and 3.14159265358980.
pub proof fn lemma_radius_spans_circumference()
    ensures
        2 * 314159265358980 * CONSUMPTION_RADIUS <= REACH_CIRCUMFERENCE * SUBUNITS_PER_UNIT
            * 100000000000000,
        REACH_CIRCUMFERENCE * SUBUNITS_PER_UNIT * 100000000000000 < 2 * 314159265358979 * (
        CONSUMPTION_RADIUS + 1),
{
}

} // verus!
