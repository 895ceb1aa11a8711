//! Integer points of the plane.
//!
//! A `Point` is either a position or an offset. Its arithmetic never fails:
//! every operation wraps around at the ends of the `i32` range, so it is
//! defined for every pair of operands.

use vstd::prelude::*;

verus! {

/// A position or an offset on the integer grid.
#[derive(Clone, Copy, Debug, PartialEq, Eq, Hash, Structural)]
pub struct Point {
    pub x: i32,
    pub y: i32,
}

/// The quotient of `a` by a positive `d`, rounded towards negative infinity.
pub open spec fn floor_div(a: int, d: int) -> int
    recommends
        d > 0,
{
    a / d
}

/// The quotient of `a` by a positive `d`, rounded towards zero.
pub open spec fn trunc_div(a: int, d: int) -> int
    recommends
        d > 0,
{
    if a >= 0 {
        a / d
    } else {
        -((-a) / d)
    }
}

/// Computes `trunc_div` on machine integers.
pub fn div_trunc(a: i32, d: i32) -> (q: i32)
    requires
        d > 0,
    ensures
        q == trunc_div(a as int, d as int),
{
    if a >= 0 {
        a / d
    } else {
        let n: i64 = -(a as i64);
        let k: i64 = n / (d as i64);
        proof {
            vstd::arithmetic::div_mod::lemma_fundamental_div_mod(n as int, d as int);
            vstd::arithmetic::div_mod::lemma_mod_bound(n as int, d as int);
            assert(0 <= k <= n) by (nonlinear_arith)
                requires
                    n == d * k + (n as int % d as int),
                    0 <= (n as int % d as int) < d,
                    0 < d,
                    0 <= n,
            ;
        }
        (-k) as i32
    }
}

/// Computes `floor_div` on machine integers.
pub fn div_floor(a: i32, d: i32) -> (q: i32)
    requires
        d > 0,
    ensures
        q == floor_div(a as int, d as int),
        q as int * d as int <= a as int,
        (a as int) < q as int * d as int + d as int,
{
    proof {
        vstd::arithmetic::div_mod::lemma_fundamental_div_mod(a as int, d as int);
        vstd::arithmetic::div_mod::lemma_mod_bound(a as int, d as int);
        assert(d as int * (a as int / d as int) == (a as int / d as int) * d as int)
            by (nonlinear_arith);
    }
    if a >= 0 {
        a / d
    } else {
        // For a negative dividend the machine rounds towards zero; step over
        // to the non-negative side first.
        let n: i32 = -(a + 1);
        let k: i32 = n / d;
        proof {
            lemma_floor_div_negative(a as int, d as int);
        }
        -k - 1
    }
}

/// Floor division of a negative number, told by the truncating division of
/// its mirror image.
pub proof fn lemma_floor_div_negative(a: int, d: int)
    requires
        a < 0,
        d > 0,
    ensures
        a / d == -((-(a + 1)) / d) - 1,
{
    let n = -(a + 1);
    let k = n / d;
    vstd::arithmetic::div_mod::lemma_fundamental_div_mod(n, d);
    vstd::arithmetic::div_mod::lemma_mod_bound(n, d);
    // n == d * k + n % d, so a == d * (-k - 1) + (d - 1 - n % d)
    let r = d - 1 - n % d;
    assert(0 <= r < d);
    assert(a == d * (-k - 1) + r) by (nonlinear_arith)
        requires
            n == d * k + n % d,
            a == -(n + 1),
            r == d - 1 - n % d,
    ;
    vstd::arithmetic::div_mod::lemma_fundamental_div_mod_converse(a, d, -k - 1, r);
}

impl Point {
    /// The point with the given coordinates.
    pub fn new(x: i32, y: i32) -> (p: Point)
        ensures
            p == (Point { x, y }),
    {
        Point { x, y }
    }

    /// The origin.
    pub fn zero() -> (p: Point)
        ensures
            p == (Point { x: 0, y: 0 }),
    {
        Point { x: 0, y: 0 }
    }

    /// The point whose two coordinates are both `v`.
    pub fn from_i32(v: i32) -> (p: Point)
        ensures
            p == (Point { x: v, y: v }),
    {
        Point { x: v, y: v }
    }

    /// The sum of two points, coordinate by coordinate, wrapping around.
    pub open spec fn spec_plus(self, other: Point) -> Point {
        Point { x: self.x.wrapping_add(other.x), y: self.y.wrapping_add(other.y) }
    }

    /// The difference of two points, coordinate by coordinate, wrapping around.
    pub open spec fn spec_minus(self, other: Point) -> Point {
        Point { x: self.x.wrapping_sub(other.x), y: self.y.wrapping_sub(other.y) }
    }

    /// The point scaled by `k`, wrapping around.
    pub open spec fn spec_times(self, k: i32) -> Point {
        Point { x: self.x.wrapping_mul(k), y: self.y.wrapping_mul(k) }
    }

    /// Both coordinates floor-divided by a positive `d`.
    pub open spec fn spec_div_floor(self, d: i32) -> Point {
        Point {
            x: floor_div(self.x as int, d as int) as i32,
            y: floor_div(self.y as int, d as int) as i32,
        }
    }

    /// Both coordinates divided by a positive `d` and rounded towards zero.
    pub open spec fn spec_divided_by(self, d: i32) -> Point {
        Point {
            x: trunc_div(self.x as int, d as int) as i32,
            y: trunc_div(self.y as int, d as int) as i32,
        }
    }

    /// Adds `other` to this point.
    #[verifier::when_used_as_spec(spec_plus)]
    pub fn plus(self, other: Point) -> (p: Point)
        ensures
            p == self.spec_plus(other),
            self.x + other.x == (self.x + other.x) as i32 ==> p.x == self.x + other.x,
            self.y + other.y == (self.y + other.y) as i32 ==> p.y == self.y + other.y,
    {
        Point { x: self.x.wrapping_add(other.x), y: self.y.wrapping_add(other.y) }
    }

    /// Subtracts `other` from this point.
    #[verifier::when_used_as_spec(spec_minus)]
    pub fn minus(self, other: Point) -> (p: Point)
        ensures
            p == self.spec_minus(other),
            self.x - other.x == (self.x - other.x) as i32 ==> p.x == self.x - other.x,
            self.y - other.y == (self.y - other.y) as i32 ==> p.y == self.y - other.y,
    {
        Point { x: self.x.wrapping_sub(other.x), y: self.y.wrapping_sub(other.y) }
    }

    /// Scales this point by `k`.
    #[verifier::when_used_as_spec(spec_times)]
    pub fn times(self, k: i32) -> (p: Point)
        ensures
            p == self.spec_times(k),
    {
        Point { x: self.x.wrapping_mul(k), y: self.y.wrapping_mul(k) }
    }

    /// Divides both coordinates by a positive `d`, rounding towards zero.
    #[verifier::when_used_as_spec(spec_divided_by)]
    pub fn divided_by(self, d: i32) -> (p: Point)
        requires
            d > 0,
        ensures
            p == self.spec_divided_by(d),
            p.x == trunc_div(self.x as int, d as int),
            p.y == trunc_div(self.y as int, d as int),
    {
        Point { x: div_trunc(self.x, d), y: div_trunc(self.y, d) }
    }

    /// Divides both coordinates by a positive `d`, rounding down.
    #[verifier::when_used_as_spec(spec_div_floor)]
    pub fn div_floor(self, d: i32) -> (p: Point)
        requires
            d > 0,
        ensures
            p == self.spec_div_floor(d),
            p.x == floor_div(self.x as int, d as int),
            p.y == floor_div(self.y as int, d as int),
            p.x * d <= self.x < p.x * d + d,
            p.y * d <= self.y < p.y * d + d,
    {
        Point { x: self::div_floor(self.x, d), y: self::div_floor(self.y, d) }
    }
}

/// Adding an offset and taking it away again gives the point back, wrapping
/// or not.
pub proof fn lemma_plus_minus_cancel(p: Point, q: Point)
    ensures
        p.spec_plus(q).spec_minus(q) == p,
        p.spec_minus(q).spec_plus(q) == p,
{
}

} // verus!
