//! Integer points on the field and the distance tests built on them.
use vstd::prelude::*;

verus! {

/// Largest magnitude of a coordinate the engine works with: any two points
/// within it are at a squared distance that fits in an `i64`.
pub const COORD_LIMIT: i64 = 1_000_000_000;

/// A point of the field.
#[derive(Clone, Copy, Debug, PartialEq, Eq, Structural)]
pub struct Point {
    pub x: i64,
    pub y: i64,
}

impl Point {
    /// Both coordinates lie within `[-COORD_LIMIT, COORD_LIMIT]`.
    pub open spec fn bounded(self) -> bool {
        &&& -COORD_LIMIT <= self.x <= COORD_LIMIT
        &&& -COORD_LIMIT <= self.y <= COORD_LIMIT
    }

    /// Squared Euclidean distance, exact.
    pub open spec fn spec_dst_sqr(self, other: Point) -> int {
        (self.x - other.x) * (self.x - other.x) + (self.y - other.y) * (self.y - other.y)
    }

    /// `other` lies within radius `r` of `self`, the boundary included.
    pub open spec fn spec_in_radius(self, other: Point, r: int) -> bool {
        self.spec_dst_sqr(other) <= r * r
    }

    pub fn new(x: i64, y: i64) -> (p: Point)
        ensures
            p.x == x,
            p.y == y,
    {
        Point { x, y }
    }

    pub fn dst_sqr(&self, other: &Point) -> (d: i64)
        requires
            self.spec_dst_sqr(*other) <= i64::MAX,
        ensures
            d == self.spec_dst_sqr(*other),
    {
        let dx: i128 = self.x as i128 - other.x as i128;
        let dy: i128 = self.y as i128 - other.y as i128;
        proof {
            assert(0 <= dx * dx) by (nonlinear_arith);
            assert(0 <= dy * dy) by (nonlinear_arith);
        }
        (dx * dx + dy * dy) as i64
    }

    pub fn is_in_radius_of(&self, other: &Point, r: i64) -> (b: bool)
        requires
            self.spec_dst_sqr(*other) <= i64::MAX,
        ensures
            b == self.spec_in_radius(*other, r as int),
    {
        let d = self.dst_sqr(other);
        let rr: i128 = r as i128;
        proof {
            assert(0 <= rr * rr <= 0x4000_0000_0000_0000_0000_0000_0000_0000) by (nonlinear_arith)
                requires
                    -0x8000_0000_0000_0000 <= rr <= 0x7fff_ffff_ffff_ffff,
            ;
        }
        (d as i128) <= rr * rr
    }

    /// Where a step of length at most `r` from `self` toward `other` ends:
    /// `other` itself when it is within radius `r`, otherwise `far`, the point
    /// at distance `r` along the segment that the caller has interpolated.
    pub fn in_radius_with_direction(&self, other: &Point, r: i64, far: Point) -> (res: Point)
        requires
            self.spec_dst_sqr(*other) <= i64::MAX,
        ensures
            self.spec_in_radius(*other, r as int) ==> res == *other,
            !self.spec_in_radius(*other, r as int) ==> res == far,
    {
        if self.is_in_radius_of(other, r) {
            *other
        } else {
            far
        }
    }
}

/// Two bounded points are at a squared distance that fits in an `i64`.
pub proof fn lemma_bounded_dst_fits(a: Point, b: Point)
    requires
        a.bounded(),
        b.bounded(),
    ensures
        0 <= a.spec_dst_sqr(b) <= 8_000_000_000_000_000_000,
        a.spec_dst_sqr(b) == b.spec_dst_sqr(a),
{
    let dx = a.x - b.x;
    let dy = a.y - b.y;
    assert(0 <= dx * dx <= 4_000_000_000_000_000_000) by (nonlinear_arith)
        requires
            -2_000_000_000 <= dx <= 2_000_000_000,
    ;
    assert(0 <= dy * dy <= 4_000_000_000_000_000_000) by (nonlinear_arith)
        requires
            -2_000_000_000 <= dy <= 2_000_000_000,
    ;
    assert((b.x - a.x) * (b.x - a.x) == dx * dx) by (nonlinear_arith)
        requires
            dx == a.x - b.x,
    ;
    assert((b.y - a.y) * (b.y - a.y) == dy * dy) by (nonlinear_arith)
        requires
            dy == a.y - b.y,
    ;
}

/// A point is within any non-negative radius of itself.
pub proof fn lemma_within_own_radius(p: Point, r: int)
    requires
        r >= 0,
    ensures
        p.spec_in_radius(p, r),
{
    assert(0 <= r * r) by (nonlinear_arith);
}

} // verus!
