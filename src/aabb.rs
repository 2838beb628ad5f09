//! Axis-aligned bounding boxes and the overlap test between them.

use vstd::prelude::*;

verus! {

/// The largest magnitude that a coordinate of a box may have.
pub const COORD_LIMIT: i64 = 1_000_000_000_000;

/// A point or a displacement in world space.
#[derive(Clone, Copy, Debug, PartialEq, Eq, Structural)]
pub struct Vec3 {
    pub x: i64,
    pub y: i64,
    pub z: i64,
}

impl Vec3 {
    pub open spec fn bounded(self) -> bool {
        -COORD_LIMIT <= self.x <= COORD_LIMIT
        && -COORD_LIMIT <= self.y <= COORD_LIMIT
        && -COORD_LIMIT <= self.z <= COORD_LIMIT
    }

    pub fn new(x: i64, y: i64, z: i64) -> (r: Vec3)
        ensures
            r == (Vec3 { x, y, z }),
    {
        Vec3 { x, y, z }
    }
}

/// An axis-aligned box, given by its two extreme corners.
#[derive(Clone, Copy, Debug, PartialEq, Eq, Structural)]
pub struct Aabb {
    pub min: Vec3,
    pub max: Vec3,
}

/// Two boxes overlap when their open interiors meet on every axis: boxes
/// that only touch along a face do not overlap.
pub open spec fn overlaps(a: Aabb, b: Aabb) -> bool {
    &&& a.max.x > b.min.x && a.min.x < b.max.x
    &&& a.max.y > b.min.y && a.min.y < b.max.y
    &&& a.max.z > b.min.z && a.min.z < b.max.z
}

/// A box lies wholly on one side of the other along some axis.
pub open spec fn separated(a: Aabb, b: Aabb) -> bool {
    ||| a.max.x <= b.min.x || b.max.x <= a.min.x
    ||| a.max.y <= b.min.y || b.max.y <= a.min.y
    ||| a.max.z <= b.min.z || b.max.z <= a.min.z
}

impl Aabb {
    /// Corners within the coordinate limit, each no greater than the other
    /// on any axis.
    pub open spec fn wf(self) -> bool {
        &&& self.min.bounded()
        &&& self.max.bounded()
        &&& self.min.x <= self.max.x
        &&& self.min.y <= self.max.y
        &&& self.min.z <= self.max.z
    }

    pub open spec fn spec_translated(self, t: Vec3) -> Aabb {
        Aabb {
            min: Vec3 {
                x: (self.min.x + t.x) as i64,
                y: (self.min.y + t.y) as i64,
                z: (self.min.z + t.z) as i64,
            },
            max: Vec3 {
                x: (self.max.x + t.x) as i64,
                y: (self.max.y + t.y) as i64,
                z: (self.max.z + t.z) as i64,
            },
        }
    }

    /// Whether moving the box by `t` keeps it within the coordinate limit.
    pub open spec fn can_translate(self, t: Vec3) -> bool {
        &&& -COORD_LIMIT <= self.min.x + t.x && self.max.x + t.x <= COORD_LIMIT
        &&& -COORD_LIMIT <= self.min.y + t.y && self.max.y + t.y <= COORD_LIMIT
        &&& -COORD_LIMIT <= self.min.z + t.z && self.max.z + t.z <= COORD_LIMIT
    }

    /// The box with corners `min` and `max`.
    pub fn new(min: Vec3, max: Vec3) -> (r: Aabb)
        ensures
            r == (Aabb { min, max }),
    {
        Aabb { min, max }
    }

    /// The box centred on `center` that reaches `half_extents` from it
    /// along each axis.
    pub fn from_center_half_extents(center: Vec3, half_extents: Vec3) -> (r: Aabb)
        requires
            center.bounded(),
            half_extents.bounded(),
            half_extents.x >= 0 && half_extents.y >= 0 && half_extents.z >= 0,
        ensures
            r.min.x == center.x - half_extents.x,
            r.min.y == center.y - half_extents.y,
            r.min.z == center.z - half_extents.z,
            r.max.x == center.x + half_extents.x,
            r.max.y == center.y + half_extents.y,
            r.max.z == center.z + half_extents.z,
    {
        Aabb {
            min: Vec3 {
                x: center.x - half_extents.x,
                y: center.y - half_extents.y,
                z: center.z - half_extents.z,
            },
            max: Vec3 {
                x: center.x + half_extents.x,
                y: center.y + half_extents.y,
                z: center.z + half_extents.z,
            },
        }
    }

    /// The box moved by `t`: a box given in an entity's local frame placed
    /// at the entity's world translation.
    pub fn translated(&self, t: Vec3) -> (r: Aabb)
        requires
            self.wf(),
            self.can_translate(t),
        ensures
            r == self.spec_translated(t),
            r.wf(),
    {
        Aabb {
            min: Vec3 { x: self.min.x + t.x, y: self.min.y + t.y, z: self.min.z + t.z },
            max: Vec3 { x: self.max.x + t.x, y: self.max.y + t.y, z: self.max.z + t.z },
        }
    }
}

/// Whether two boxes overlap.
pub fn collide_aabb(a: &Aabb, b: &Aabb) -> (r: bool)
    ensures
        r == overlaps(*a, *b),
{
    a.max.x > b.min.x && a.min.x < b.max.x && a.max.y > b.min.y && a.min.y < b.max.y && a.max.z
        > b.min.z && a.min.z < b.max.z
}

/// The overlap test does not depend on the order of its arguments.
pub proof fn lemma_overlap_symmetric(a: Aabb, b: Aabb)
    ensures
        overlaps(a, b) == overlaps(b, a),
{
}

/// Boxes that lie apart along any single axis, touching at most, never
/// overlap.
pub proof fn lemma_separated_no_overlap(a: Aabb, b: Aabb)
    requires
        separated(a, b),
    ensures
        !overlaps(a, b),
{
}

} // verus!
