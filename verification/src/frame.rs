use vstd::prelude::*;

use crate::geometry::{cube_points, initialize_points, MAX_RADIUS};
use crate::point::{Point, COORD_MAX};
use crate::project::{project_point, project_spec, rel_z_spec, ScreenPos, Trig};
use crate::rotation::RotationState;

verus! {

/// The screen positions of one frame: every point of `ps` projected in
/// order, with the degenerate-depth points skipped.
pub open spec fn frame_spec(ps: Seq<Point>, camera: Point, plane_z: i64, t: Trig) -> Seq<
    ScreenPos,
>
    decreases ps.len(),
{
    if ps.len() == 0 {
        Seq::empty()
    } else {
        frame_spec(ps.drop_last(), camera, plane_z, t) + (match project_spec(
            ps.last(),
            camera,
            plane_z,
            t,
        ) {
            Some(sp) => seq![sp],
            None => Seq::empty(),
        })
    }
}

/// Skip-policy law: a frame never draws more positions than there are
/// points, and when no point sits at degenerate (zero) camera-relative
/// depth it draws exactly one position per point.
pub proof fn lemma_frame_covers_points(ps: Seq<Point>, camera: Point, plane_z: i64, t: Trig)
    ensures
        frame_spec(ps, camera, plane_z, t).len() <= ps.len(),
        (forall|k: int| 0 <= k < ps.len() ==> rel_z_spec(#[trigger] ps[k], camera, t) != 0)
            ==> frame_spec(ps, camera, plane_z, t).len() == ps.len(),
    decreases ps.len(),
{
    if ps.len() > 0 {
        lemma_frame_covers_points(ps.drop_last(), camera, plane_z, t);
        assert(forall|k: int|
            0 <= k < ps.len() - 1 ==> #[trigger] ps.drop_last()[k] == ps[k]);
    }
}

/// Project every point of the set in order, collecting the positions of the
/// drawable ones.
pub fn render_frame(points: &Vec<Point>, camera: Point, plane_z: i64, t: Trig) -> (frame: Vec<
    ScreenPos,
>)
    requires
        forall|k: int| 0 <= k < points@.len() ==> (#[trigger] points@[k]).in_bounds(),
        camera.in_bounds(),
        t.wf(),
        0 < plane_z <= COORD_MAX,
    ensures
        frame@ == frame_spec(points@, camera, plane_z, t),
{
    let mut frame: Vec<ScreenPos> = Vec::new();
    let n: usize = points.len();
    let mut i: usize = 0;
    while i < n
        invariant
            n == points@.len(),
            i <= n,
            frame@ == frame_spec(points@.take(i as int), camera, plane_z, t),
            forall|k: int| 0 <= k < points@.len() ==> (#[trigger] points@[k]).in_bounds(),
            camera.in_bounds(),
            t.wf(),
            0 < plane_z <= COORD_MAX,
        decreases n - i,
    {
        match project_point(points[i], camera, plane_z, t) {
            Some(sp) => frame.push(sp),
            None => (),
        }
        proof {
            assert(points@.take((i + 1) as int).drop_last() =~= points@.take(i as int));
            assert(points@.take((i + 1) as int).last() == points@[i as int]);
            assert(frame@ =~= frame_spec(points@.take((i + 1) as int), camera, plane_z, t));
        }
        i = i + 1;
    }
    proof {
        assert(points@.take(n as int) =~= points@);
    }
    frame
}

/// One animation session: the fixed cube geometry, camera and image plane,
/// and the rotation state advanced once per frame.
pub struct Scene {
    pub points: Vec<Point>,
    pub camera: Point,
    pub plane_z: i64,
    pub rot: RotationState,
}

impl Scene {
    /// Angles wrapped, plane distance positive, and every stored coordinate
    /// in the range the projection arithmetic accepts.
    pub open spec fn wf(self) -> bool {
        &&& self.rot.wf()
        &&& self.camera.in_bounds()
        &&& 0 < self.plane_z <= COORD_MAX
        &&& forall|k: int| 0 <= k < self.points@.len() ==> (#[trigger] self.points@[k]).in_bounds()
    }

    /// A session over the cube of the given radius: camera on the +z axis
    /// three radii from the origin, image plane two radii out (one radius in
    /// front of the camera), both angles zero.
    pub fn new(radius: i64) -> (s: Scene)
        requires
            1 <= radius <= MAX_RADIUS,
        ensures
            s.wf(),
            s.points@ == cube_points(radius as int),
            s.camera.x == 0,
            s.camera.y == 0,
            s.camera.z == 3 * radius,
            s.plane_z == 2 * radius,
            s.rot.alpha_deg == 0,
            s.rot.gamma_deg == 0,
    {
        let points = initialize_points(radius);
        Scene {
            points,
            camera: Point::new(0, 0, 3 * radius),
            plane_z: 2 * radius,
            rot: RotationState::new(),
        }
    }

    /// Advance the rotation state by one frame's fixed angle steps; the
    /// geometry, camera and plane stay as they are.
    pub fn advance_angles(&mut self)
        requires
            old(self).wf(),
        ensures
            final(self).wf(),
            final(self).rot == old(self).rot.advanced(),
            final(self).points@ == old(self).points@,
            final(self).camera == old(self).camera,
            final(self).plane_z == old(self).plane_z,
    {
        self.rot.advance();
    }

    pub fn alpha_deg(&self) -> (a: u32)
        ensures
            a == self.rot.alpha_deg,
    {
        self.rot.alpha_deg
    }

    pub fn gamma_deg(&self) -> (g: u32)
        ensures
            g == self.rot.gamma_deg,
    {
        self.rot.gamma_deg
    }

    /// The frame model at the current state, given the frame's trig values:
    /// the screen positions of every drawable point, in generation order.
    pub fn render(&self, t: Trig) -> (frame: Vec<ScreenPos>)
        requires
            self.wf(),
            t.wf(),
        ensures
            frame@ == frame_spec(self.points@, self.camera, self.plane_z, t),
    {
        render_frame(&self.points, self.camera, self.plane_z, t)
    }
}

} // verus!
