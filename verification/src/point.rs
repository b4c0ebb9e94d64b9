use vstd::prelude::*;

verus! {

/// Largest coordinate magnitude that the projection arithmetic is sized for.
/// Every intermediate product in the renderer stays inside `i64` as long as
/// the points it is fed respect this bound.
pub const COORD_MAX: i64 = 16_777_216;

/// A position in 3-space on the integer lattice. The same type doubles as a
/// displacement when two points are combined.
#[derive(Clone, Copy, Debug, PartialEq, Eq, Structural)]
pub struct Point {
    pub x: i64,
    pub y: i64,
    pub z: i64,
}

impl Point {
    /// All coordinates within the range the renderer's arithmetic accepts.
    pub open spec fn in_bounds(self) -> bool {
        &&& -COORD_MAX <= self.x <= COORD_MAX
        &&& -COORD_MAX <= self.y <= COORD_MAX
        &&& -COORD_MAX <= self.z <= COORD_MAX
    }

    pub fn new(x: i64, y: i64, z: i64) -> (r: Point)
        ensures
            r.x == x,
            r.y == y,
            r.z == z,
    {
        Point { x, y, z }
    }

    /// Component-wise sum. The renderer combines a rotated point with the
    /// camera position through this operation; it is deliberately a sum,
    /// not vector subtraction (see `relative_to` for that), and the drawn
    /// animation depends on that choice.
    pub fn translated(self, other: Point) -> (r: Point)
        requires
            i64::MIN <= self.x + other.x <= i64::MAX,
            i64::MIN <= self.y + other.y <= i64::MAX,
            i64::MIN <= self.z + other.z <= i64::MAX,
        ensures
            r.x == self.x + other.x,
            r.y == self.y + other.y,
            r.z == self.z + other.z,
    {
        Point { x: self.x + other.x, y: self.y + other.y, z: self.z + other.z }
    }

    /// True component-wise difference: the displacement from `other` to
    /// `self`. Offered as the textbook camera-relative offset; the renderer
    /// itself uses `translated`, whose sum semantics it is specified to
    /// keep.
    pub fn relative_to(self, other: Point) -> (r: Point)
        requires
            i64::MIN <= self.x - other.x <= i64::MAX,
            i64::MIN <= self.y - other.y <= i64::MAX,
            i64::MIN <= self.z - other.z <= i64::MAX,
        ensures
            r.x == self.x - other.x,
            r.y == self.y - other.y,
            r.z == self.z - other.z,
    {
        Point { x: self.x - other.x, y: self.y - other.y, z: self.z - other.z }
    }
}

impl From<(i64, i64, i64)> for Point {
    fn from(t: (i64, i64, i64)) -> (r: Point) {
        Point { x: t.0, y: t.1, z: t.2 }
    }
}

impl vstd::std_specs::convert::FromSpecImpl<(i64, i64, i64)> for Point {
    open spec fn obeys_from_spec() -> bool {
        true
    }

    open spec fn from_spec(t: (i64, i64, i64)) -> Point {
        Point { x: t.0, y: t.1, z: t.2 }
    }
}

} // verus!
