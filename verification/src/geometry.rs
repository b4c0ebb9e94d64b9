use vstd::prelude::*;

use crate::point::Point;

verus! {

/// Largest cube radius the generator accepts; keeps every coordinate the
/// renderer derives from it (camera distance is three radii) well inside
/// `COORD_MAX`.
pub const MAX_RADIUS: i64 = 1_000_000;

/// A lattice point from integer coordinates, for describing the generated
/// geometry.
pub open spec fn pt(x: int, y: int, z: int) -> Point {
    Point { x: x as i64, y: y as i64, z: z as i64 }
}

/// The twelve points contributed by edge offset `i`: `i` takes each axis in
/// turn while the other two axes sit at a corner combination of `r` and `-r`.
pub open spec fn edge_points_at(r: int, i: int) -> Seq<Point> {
    seq![
        pt(i, r, r),
        pt(i, r, -r),
        pt(i, -r, r),
        pt(i, -r, -r),
        pt(r, i, r),
        pt(-r, i, r),
        pt(r, i, -r),
        pt(-r, i, -r),
        pt(r, r, i),
        pt(-r, r, i),
        pt(r, -r, i),
        pt(-r, -r, i),
    ]
}

/// The first `n` edge-offset groups, offsets `-r`, `-r + 1`, ...
pub open spec fn cube_points_upto(r: int, n: nat) -> Seq<Point>
    decreases n,
{
    if n == 0 {
        Seq::empty()
    } else {
        cube_points_upto(r, (n - 1) as nat) + edge_points_at(r, -r + (n - 1))
    }
}

/// Every unit-spaced point on the twelve edges of the cube frame
/// `{-r, r}^3`, one group of twelve per offset in `[-r, r)`.
pub open spec fn cube_points(r: int) -> Seq<Point>
    recommends
        1 <= r,
{
    cube_points_upto(r, (2 * r) as nat)
}

/// How many coordinates of `p` sit at an extreme (`r` or `-r`).
pub open spec fn extreme_count(p: Point, r: int) -> int {
    (if p.x == r || p.x == -r {
        1int
    } else {
        0int
    }) + (if p.y == r || p.y == -r {
        1int
    } else {
        0int
    }) + (if p.z == r || p.z == -r {
        1int
    } else {
        0int
    })
}

proof fn lemma_cube_points_upto_edges(r: int, n: nat)
    requires
        1 <= r <= MAX_RADIUS,
        n <= 2 * r,
    ensures
        cube_points_upto(r, n).len() == 12 * n,
        forall|k: int|
            0 <= k < cube_points_upto(r, n).len() ==> 2 <= extreme_count(
                #[trigger] cube_points_upto(r, n)[k],
                r,
            ) <= 3,
    decreases n,
{
    if n > 0 {
        lemma_cube_points_upto_edges(r, (n - 1) as nat);
        let i = -r + (n - 1);
        let grp = edge_points_at(r, i);
        assert(forall|k: int| 0 <= k < 12 ==> 2 <= extreme_count(#[trigger] grp[k], r) <= 3);
    }
}

/// Geometry law: radius `r` yields exactly `24 * r` points, and every point
/// lies on an edge of the cube frame: at least two of its coordinates are at
/// `r` or `-r` (all three at the eight corners, which the edge sweep passes
/// through at offset `-r`).
pub proof fn lemma_cube_points_on_edges(r: int)
    requires
        1 <= r <= MAX_RADIUS,
    ensures
        cube_points(r).len() == 24 * r,
        forall|k: int|
            0 <= k < cube_points(r).len() ==> 2 <= extreme_count(#[trigger] cube_points(r)[k], r)
                <= 3,
{
    lemma_cube_points_upto_edges(r, (2 * r) as nat);
}

/// The fixed point set outlining the cube's twelve edges, in a fixed,
/// reproducible order: twelve points per offset, offsets ascending.
pub fn initialize_points(radius: i64) -> (points: Vec<Point>)
    requires
        1 <= radius <= MAX_RADIUS,
    ensures
        points@ == cube_points(radius as int),
        points@.len() == 24 * radius,
        forall|k: int| 0 <= k < points@.len() ==> (#[trigger] points@[k]).in_bounds(),
{
    let ghost r = radius as int;
    let mut points: Vec<Point> = Vec::new();
    let mut i: i64 = -radius;
    while i < radius
        invariant
            1 <= radius <= MAX_RADIUS,
            -radius <= i <= radius,
            points@ == cube_points_upto(r, (i + radius) as nat),
            r == radius as int,
        decreases radius - i,
    {
        points.push(Point::new(i, radius, radius));
        points.push(Point::new(i, radius, -radius));
        points.push(Point::new(i, -radius, radius));
        points.push(Point::new(i, -radius, -radius));
        points.push(Point::new(radius, i, radius));
        points.push(Point::new(-radius, i, radius));
        points.push(Point::new(radius, i, -radius));
        points.push(Point::new(-radius, i, -radius));
        points.push(Point::new(radius, radius, i));
        points.push(Point::new(-radius, radius, i));
        points.push(Point::new(radius, -radius, i));
        points.push(Point::new(-radius, -radius, i));
        proof {
            assert(points@ =~= cube_points_upto(r, (i + radius) as nat) + edge_points_at(
                r,
                i as int,
            ));
            assert(points@ =~= cube_points_upto(r, (i + radius + 1) as nat));
        }
        i = i + 1;
    }
    proof {
        lemma_cube_points_on_edges(r);
        assert(forall|k: int|
            0 <= k < cube_points(r).len() ==> (#[trigger] cube_points(r)[k]).in_bounds()) by {
            lemma_cube_points_upto_bounds(r, (2 * r) as nat);
        }
    }
    points
}

proof fn lemma_cube_points_upto_bounds(r: int, n: nat)
    requires
        1 <= r <= MAX_RADIUS,
        n <= 2 * r,
    ensures
        forall|k: int|
            0 <= k < cube_points_upto(r, n).len() ==> (#[trigger] cube_points_upto(r, n)[k]).in_bounds(),
    decreases n,
{
    if n > 0 {
        lemma_cube_points_upto_bounds(r, (n - 1) as nat);
        let i = -r + (n - 1);
        let pre = cube_points_upto(r, (n - 1) as nat);
        let grp = edge_points_at(r, i);
        assert(forall|k: int| 0 <= k < 12 ==> (#[trigger] grp[k]).in_bounds());
        assert forall|k: int| 0 <= k < cube_points_upto(r, n).len() implies (
        #[trigger] cube_points_upto(r, n)[k]).in_bounds() by {
            if k >= pre.len() {
                assert(cube_points_upto(r, n)[k] == grp[k - pre.len()]);
            }
        }
    }
}

} // verus!
