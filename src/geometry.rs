//! Points and offsets in the game world, in integer length units.
//!
//! A length unit is one millionth of a world unit, so a world unit is
//! `1_000_000`. Distances are compared by their squares, which orders them as
//! the Euclidean distance does and stays exact on integers.
use vstd::prelude::*;

verus! {

/// How far from the origin a coordinate of the world may lie (2^60).
pub const COORD_LIMIT: i64 = 1_152_921_504_606_846_976;

/// One world unit, in length units.
pub const UNIT: i64 = 1_000_000;

/// A point, or the offset between two points.
#[derive(Clone, Copy, Debug, PartialEq, Eq, Structural)]
pub struct Point3 {
    pub x: i64,
    pub y: i64,
    pub z: i64,
}

pub open spec fn coord_in_world(c: int) -> bool {
    -COORD_LIMIT <= c <= COORD_LIMIT
}

/// Truncating division, rounding toward zero as integer division of Rust does.
pub open spec fn div_trunc(a: int, b: int) -> int {
    if a >= 0 {
        a / b
    } else {
        -((-a) / b)
    }
}

/// The square of the Euclidean distance between two points.
pub open spec fn dist_sq(a: Point3, b: Point3) -> int {
    (a.x - b.x) * (a.x - b.x) + (a.y - b.y) * (a.y - b.y) + (a.z - b.z) * (a.z - b.z)
}

impl Point3 {
    pub open spec fn in_world(self) -> bool {
        coord_in_world(self.x as int) && coord_in_world(self.y as int) && coord_in_world(
            self.z as int,
        )
    }

    pub fn is_in_world(&self) -> (r: bool)
        ensures
            r == self.in_world(),
    {
        -COORD_LIMIT <= self.x && self.x <= COORD_LIMIT && -COORD_LIMIT <= self.y && self.y <= COORD_LIMIT
            && -COORD_LIMIT <= self.z && self.z <= COORD_LIMIT
    }

    pub fn new(x: i64, y: i64, z: i64) -> (r: Point3)
        ensures
            r == (Point3 { x, y, z }),
    {
        Point3 { x, y, z }
    }

    pub fn zero() -> (r: Point3)
        ensures
            r == (Point3 { x: 0, y: 0, z: 0 }),
    {
        Point3 { x: 0, y: 0, z: 0 }
    }

    /// The point moved by an offset; the result must lie in the world.
    pub fn translated(self, by: Point3) -> (r: Point3)
        requires
            self.in_world(),
            by.in_world(),
            coord_in_world(self.x + by.x),
            coord_in_world(self.y + by.y),
            coord_in_world(self.z + by.z),
        ensures
            r == (Point3 { x: (self.x + by.x) as i64, y: (self.y + by.y) as i64, z: (self.z + by.z) as i64 }),
            r.in_world(),
    {
        Point3 { x: self.x + by.x, y: self.y + by.y, z: self.z + by.z }
    }

    /// The offset that leads from `from` to `self`.
    pub fn offset_from(self, from: Point3) -> (r: Point3)
        requires
            self.in_world(),
            from.in_world(),
        ensures
            r == (Point3 { x: (self.x - from.x) as i64, y: (self.y - from.y) as i64, z: (self.z - from.z) as i64 }),
    {
        Point3 { x: self.x - from.x, y: self.y - from.y, z: self.z - from.z }
    }

    /// The squared Euclidean distance to another point of the world.
    pub fn distance_squared(self, other: Point3) -> (r: u128)
        requires
            self.in_world(),
            other.in_world(),
        ensures
            r as int == dist_sq(self, other),
    {
        let dx = square_of_gap(self.x, other.x);
        let dy = square_of_gap(self.y, other.y);
        let dz = square_of_gap(self.z, other.z);
        dx + dy + dz
    }
}

/// The square of the gap between two coordinates of the world.
fn square_of_gap(a: i64, b: i64) -> (r: u128)
    requires
        coord_in_world(a as int),
        coord_in_world(b as int),
    ensures
        r as int == (a - b) * (a - b),
        r <= 0x400_0000_0000_0000_0000_0000_0000_0000,
{
    let d: i128 = a as i128 - b as i128;
    let m: u128 = if d >= 0 { d as u128 } else { (-d) as u128 };
    assert(m <= 0x2000_0000_0000_0000);
    assert(m * m <= 0x400_0000_0000_0000_0000_0000_0000_0000) by (nonlinear_arith)
        requires
            m <= 0x2000_0000_0000_0000,
    ;
    assert(m * m == (a - b) * (a - b)) by (nonlinear_arith)
        requires
            m == d || m == -d,
            d == a - b,
    ;
    m * m
}

/// Whether `c` lies in the world.
pub fn coord_is_in_world(c: i128) -> (r: bool)
    ensures
        r == coord_in_world(c as int),
{
    -(COORD_LIMIT as i128) <= c && c <= COORD_LIMIT as i128
}

/// `a * b / c`, rounded toward zero, for a positive `c`.
pub fn scaled_trunc(a: i128, b: u64, c: u64) -> (r: i128)
    requires
        c > 0,
        -0x7fff_ffff_ffff_ffff_ffff_ffff_ffff_ffff <= a * b <= 0x7fff_ffff_ffff_ffff_ffff_ffff_ffff_ffff,
    ensures
        r == div_trunc(a * b, c as int),
        a * b >= 0 ==> 0 <= r && r * c <= a * b,
        a * b < 0 ==> r <= 0 && -r * c <= -(a * b),
{
    let p: i128 = a * b as i128;
    if p >= 0 {
        let q: u128 = p as u128 / c as u128;
        assert(q * c <= p) by (nonlinear_arith)
            requires
                q == p as int / c as int,
                c > 0,
                p >= 0,
        ;
        q as i128
    } else {
        let q: u128 = (-p) as u128 / c as u128;
        assert(q * c <= -p) by (nonlinear_arith)
            requires
                q == (-p) as int / c as int,
                c > 0,
                p < 0,
        ;
        assert(q <= -p) by (nonlinear_arith)
            requires
                q * c <= -p,
                c > 0,
                q >= 0,
        ;
        -(q as i128)
    }
}

} // verus!
