use vstd::prelude::*;

use vstd::arithmetic::div_mod::{
    lemma_div_is_ordered, lemma_fundamental_div_mod, lemma_fundamental_div_mod_converse_div,
    lemma_mod_bound,
};
use vstd::math::abs;

use crate::point::{Point, COORD_MAX};

verus! {

/// Fixed-point unit for trigonometric values: a sine or cosine of one is
/// carried as `TRIG_SCALE`; every trig value lies in `[-TRIG_SCALE,
/// TRIG_SCALE]`.
pub const TRIG_SCALE: i64 = 65_536;

/// The divisor that removes two fixed-point factors at once.
pub const TRIG_SCALE_SQ: i64 = TRIG_SCALE * TRIG_SCALE;

/// Largest coordinate magnitude a rotated in-bounds point can reach: each
/// rotated coordinate is a sum of three products of a coordinate and at most
/// two trig factors.
pub const ROTATED_MAX: i64 = 3 * COORD_MAX;

/// Column offset that recenters screen x on the terminal.
pub const DISP_OFFSET_COL: i64 = 52;

/// Row offset that recenters screen y on the terminal.
pub const DISP_OFFSET_ROW: i64 = 24;

/// Sine and cosine of the two rotation angles, in fixed-point units of
/// `TRIG_SCALE`, shared by every point of a frame.
#[derive(Clone, Copy, Debug, PartialEq, Eq, Structural)]
pub struct Trig {
    pub sin_alpha: i64,
    pub cos_alpha: i64,
    pub sin_gamma: i64,
    pub cos_gamma: i64,
}

/// A 1-indexed terminal position where one glyph of the frame is drawn.
#[derive(Clone, Copy, Debug, PartialEq, Eq, Structural)]
pub struct ScreenPos {
    pub row: i64,
    pub col: i64,
}

impl Trig {
    /// Every entry within one fixed-point unit of magnitude, as any true
    /// sine or cosine is.
    pub open spec fn wf(self) -> bool {
        &&& -TRIG_SCALE <= self.sin_alpha <= TRIG_SCALE
        &&& -TRIG_SCALE <= self.cos_alpha <= TRIG_SCALE
        &&& -TRIG_SCALE <= self.sin_gamma <= TRIG_SCALE
        &&& -TRIG_SCALE <= self.cos_gamma <= TRIG_SCALE
    }

    pub fn new(sin_alpha: i64, cos_alpha: i64, sin_gamma: i64, cos_gamma: i64) -> (t: Trig)
        requires
            -TRIG_SCALE <= sin_alpha <= TRIG_SCALE,
            -TRIG_SCALE <= cos_alpha <= TRIG_SCALE,
            -TRIG_SCALE <= sin_gamma <= TRIG_SCALE,
            -TRIG_SCALE <= cos_gamma <= TRIG_SCALE,
        ensures
            t.sin_alpha == sin_alpha,
            t.cos_alpha == cos_alpha,
            t.sin_gamma == sin_gamma,
            t.cos_gamma == cos_gamma,
            t.wf(),
    {
        Trig { sin_alpha, cos_alpha, sin_gamma, cos_gamma }
    }

    /// The trig values of two zero angles: sines zero, cosines one.
    pub fn identity() -> (t: Trig)
        ensures
            t == trig_identity(),
            t.wf(),
    {
        Trig { sin_alpha: 0, cos_alpha: TRIG_SCALE, sin_gamma: 0, cos_gamma: TRIG_SCALE }
    }
}

/// The trig values of two zero angles.
pub open spec fn trig_identity() -> Trig {
    Trig { sin_alpha: 0, cos_alpha: TRIG_SCALE, sin_gamma: 0, cos_gamma: TRIG_SCALE }
}

/// Round-to-nearest quotient, ties away from zero: the integer nearest to
/// the real quotient `n / d`.
pub open spec fn round_div_spec(n: int, d: int) -> int
    recommends
        d != 0,
{
    let q: int = (2 * (abs(n) as int) + abs(d)) / (2 * (abs(d) as int));
    if (n < 0) <==> (d < 0) {
        q
    } else {
        -q
    }
}

fn magnitude(n: i64) -> (r: u64)
    requires
        n != i64::MIN,
    ensures
        r == abs(n as int),
{
    if n < 0 {
        (-n) as u64
    } else {
        n as u64
    }
}

/// Nearest-integer division, ties rounded away from zero; the fixed-point
/// scale removal and the perspective divide both go through this.
pub fn round_div(n: i64, d: i64) -> (q: i64)
    requires
        d != 0,
        abs(n as int) < 0x2000_0000_0000_0000,
        abs(d as int) < 0x2000_0000_0000_0000,
    ensures
        q == round_div_spec(n as int, d as int),
{
    let m: u64 = magnitude(n);
    let e: u64 = magnitude(d);
    let q0: u64 = m / e;
    let r: u64 = m % e;
    proof {
        let mi = m as int;
        let ei = e as int;
        let q0i = q0 as int;
        let ri = r as int;
        lemma_fundamental_div_mod(mi, ei);
        assert(q0i <= mi) by (nonlinear_arith)
            requires
                mi == ei * q0i + ri,
                ei >= 1,
                ri >= 0,
                q0i >= 0,
        ;
        if 2 * ri >= ei {
            assert(2 * mi + ei == (q0i + 1) * (2 * ei) + (2 * ri - ei)) by (nonlinear_arith)
                requires
                    mi == ei * q0i + ri,
            ;
            lemma_fundamental_div_mod_converse_div(2 * mi + ei, 2 * ei, q0i + 1, 2 * ri - ei);
        } else {
            assert(2 * mi + ei == q0i * (2 * ei) + (2 * ri + ei)) by (nonlinear_arith)
                requires
                    mi == ei * q0i + ri,
            ;
            lemma_fundamental_div_mod_converse_div(2 * mi + ei, 2 * ei, q0i, 2 * ri + ei);
        }
    }
    let mag: u64 = if 2 * r >= e {
        q0 + 1
    } else {
        q0
    };
    if (n < 0) == (d < 0) {
        mag as i64
    } else {
        -(mag as i64)
    }
}

/// The rounded quotient of a bounded dividend is bounded: if `|n| <= b * d`
/// then the rounded quotient is within `b`.
pub proof fn lemma_round_div_bound(n: int, d: int, b: int)
    requires
        d > 0,
        0 <= b,
        -(b * d) <= n <= b * d,
    ensures
        -b <= round_div_spec(n, d) <= b,
{
    let m = abs(n) as int;
    let e = abs(d) as int;
    assert(2 * m + e <= b * (2 * e) + e) by (nonlinear_arith)
        requires
            m <= b * e,
            e > 0,
    ;
    lemma_fundamental_div_mod_converse_div(b * (2 * e) + e, 2 * e, b, e);
    lemma_div_is_ordered(2 * m + e, b * (2 * e) + e, 2 * e);
    lemma_fundamental_div_mod_converse_div(0, 2 * e, 0, 0);
    lemma_div_is_ordered(0, 2 * m + e, 2 * e);
}

/// The rounded quotient never exceeds the dividend in magnitude.
pub proof fn lemma_round_div_magnitude(n: int, d: int)
    requires
        d != 0,
    ensures
        -abs(n) <= round_div_spec(n, d) <= abs(n),
{
    let m = abs(n) as int;
    let e = abs(d) as int;
    assert(2 * m + e <= m * (2 * e) + e) by (nonlinear_arith)
        requires
            e >= 1,
            m >= 0,
    ;
    lemma_fundamental_div_mod_converse_div(m * (2 * e) + e, 2 * e, m, e);
    lemma_div_is_ordered(2 * m + e, m * (2 * e) + e, 2 * e);
    lemma_fundamental_div_mod_converse_div(0, 2 * e, 0, 0);
    lemma_div_is_ordered(0, 2 * m + e, 2 * e);
}

/// Exact case: when the dividend is a whole multiple of the divisor, the
/// rounded quotient is exactly that multiple.
pub proof fn lemma_round_div_exact(k: int, d: int)
    requires
        d != 0,
    ensures
        round_div_spec(k * d, d) == k,
{
    if d > 0 {
        if k >= 0 {
            assert(k * d >= 0) by (nonlinear_arith)
                requires
                    k >= 0,
                    d > 0,
            ;
            assert(2 * (k * d) + d == k * (2 * d) + d) by (nonlinear_arith);
            lemma_fundamental_div_mod_converse_div(2 * (k * d) + d, 2 * d, k, d);
        } else {
            assert(k * d < 0 && -(k * d) == (-k) * d) by (nonlinear_arith)
                requires
                    k < 0,
                    d > 0,
            ;
            assert(2 * ((-k) * d) + d == (-k) * (2 * d) + d) by (nonlinear_arith);
            lemma_fundamental_div_mod_converse_div(2 * ((-k) * d) + d, 2 * d, -k, d);
        }
    } else {
        let e = -d;
        if k <= 0 {
            assert(k * d >= 0 && k * d == (-k) * e && -k >= 0) by (nonlinear_arith)
                requires
                    k <= 0,
                    d < 0,
                    e == -d,
            ;
            assert(2 * ((-k) * e) + e == (-k) * (2 * e) + e) by (nonlinear_arith);
            lemma_fundamental_div_mod_converse_div(2 * ((-k) * e) + e, 2 * e, -k, e);
        } else {
            assert(k * d < 0 && -(k * d) == k * e) by (nonlinear_arith)
                requires
                    k > 0,
                    d < 0,
                    e == -d,
            ;
            assert(2 * (k * e) + e == k * (2 * e) + e) by (nonlinear_arith);
            lemma_fundamental_div_mod_converse_div(2 * (k * e) + e, 2 * e, k, e);
        }
    }
}

proof fn lemma_mul_bound(a: int, b: int, ba: int, bb: int)
    requires
        -ba <= a <= ba,
        -bb <= b <= bb,
        0 <= ba,
        0 <= bb,
    ensures
        -(ba * bb) <= a * b <= ba * bb,
{
    assert(-(ba * bb) <= a * b <= ba * bb) by (nonlinear_arith)
        requires
            -ba <= a <= ba,
            -bb <= b <= bb,
            0 <= ba,
            0 <= bb,
    ;
}

/// Numerator of the rotated x coordinate, in units of `TRIG_SCALE_SQ`:
/// x' = x cos g + y sin g.
pub open spec fn rot_x_num(p: Point, t: Trig) -> int {
    (p.x * t.cos_gamma + p.y * t.sin_gamma) * TRIG_SCALE
}

/// Numerator of the rotated y coordinate, in units of `TRIG_SCALE_SQ`:
/// y' = -x cos a sin g + y cos a cos g + z sin a.
pub open spec fn rot_y_num(p: Point, t: Trig) -> int {
    -(p.x * t.cos_alpha * t.sin_gamma) + p.y * t.cos_alpha * t.cos_gamma + p.z * t.sin_alpha
        * TRIG_SCALE
}

/// Numerator of the rotated z coordinate, in units of `TRIG_SCALE_SQ`:
/// z' = x sin a sin g - y sin a cos g + z cos a.
pub open spec fn rot_z_num(p: Point, t: Trig) -> int {
    p.x * t.sin_alpha * t.sin_gamma - p.y * t.sin_alpha * t.cos_gamma + p.z * t.cos_alpha
        * TRIG_SCALE
}

/// The combined gamma-then-alpha rotation of an object-space point, each
/// coordinate rounded to the nearest lattice point.
pub open spec fn rotate_spec(p: Point, t: Trig) -> Point {
    Point {
        x: round_div_spec(rot_x_num(p, t), TRIG_SCALE_SQ as int) as i64,
        y: round_div_spec(rot_y_num(p, t), TRIG_SCALE_SQ as int) as i64,
        z: round_div_spec(rot_z_num(p, t), TRIG_SCALE_SQ as int) as i64,
    }
}

/// Apply the combined rotation to `p` with the frame's trig values.
pub fn rotate(p: Point, t: Trig) -> (r: Point)
    requires
        p.in_bounds(),
        t.wf(),
    ensures
        r == rotate_spec(p, t),
        -ROTATED_MAX <= r.x <= ROTATED_MAX,
        -ROTATED_MAX <= r.y <= ROTATED_MAX,
        -ROTATED_MAX <= r.z <= ROTATED_MAX,
{
    proof {
        let cm = COORD_MAX as int;
        let ts = TRIG_SCALE as int;
        lemma_mul_bound(p.x as int, t.cos_gamma as int, cm, ts);
        lemma_mul_bound(p.y as int, t.sin_gamma as int, cm, ts);
        lemma_mul_bound(p.x as int * t.cos_gamma + p.y as int * t.sin_gamma, ts, 2 * cm * ts, ts);
        lemma_mul_bound(p.x as int, t.cos_alpha as int, cm, ts);
        lemma_mul_bound(p.x as int * t.cos_alpha, t.sin_gamma as int, cm * ts, ts);
        lemma_mul_bound(p.y as int, t.cos_alpha as int, cm, ts);
        lemma_mul_bound(p.y as int * t.cos_alpha, t.cos_gamma as int, cm * ts, ts);
        lemma_mul_bound(p.z as int, t.sin_alpha as int, cm, ts);
        lemma_mul_bound(p.z as int * t.sin_alpha, ts, cm * ts, ts);
        lemma_mul_bound(p.x as int, t.sin_alpha as int, cm, ts);
        lemma_mul_bound(p.x as int * t.sin_alpha, t.sin_gamma as int, cm * ts, ts);
        lemma_mul_bound(p.y as int, t.sin_alpha as int, cm, ts);
        lemma_mul_bound(p.y as int * t.sin_alpha, t.cos_gamma as int, cm * ts, ts);
        lemma_mul_bound(p.z as int, t.cos_alpha as int, cm, ts);
        lemma_mul_bound(p.z as int * t.cos_alpha, ts, cm * ts, ts);
    }
    let nx: i64 = (p.x * t.cos_gamma + p.y * t.sin_gamma) * TRIG_SCALE;
    let ny: i64 = -(p.x * t.cos_alpha * t.sin_gamma) + p.y * t.cos_alpha * t.cos_gamma + p.z
        * t.sin_alpha * TRIG_SCALE;
    let nz: i64 = p.x * t.sin_alpha * t.sin_gamma - p.y * t.sin_alpha * t.cos_gamma + p.z
        * t.cos_alpha * TRIG_SCALE;
    proof {
        lemma_round_div_bound(nx as int, TRIG_SCALE_SQ as int, ROTATED_MAX as int);
        lemma_round_div_bound(ny as int, TRIG_SCALE_SQ as int, ROTATED_MAX as int);
        lemma_round_div_bound(nz as int, TRIG_SCALE_SQ as int, ROTATED_MAX as int);
    }
    let rx: i64 = round_div(nx, TRIG_SCALE_SQ);
    let ry: i64 = round_div(ny, TRIG_SCALE_SQ);
    let rz: i64 = round_div(nz, TRIG_SCALE_SQ);
    Point { x: rx, y: ry, z: rz }
}

/// Camera-relative x of `p` after rotation: the renderer's combination
/// operator adds the camera position to the rotated point.
pub open spec fn rel_x_spec(p: Point, camera: Point, t: Trig) -> int {
    rotate_spec(p, t).x + camera.x
}

/// Camera-relative y of `p` after rotation.
pub open spec fn rel_y_spec(p: Point, camera: Point, t: Trig) -> int {
    rotate_spec(p, t).y + camera.y
}

/// Camera-relative depth of `p` after rotation; the perspective divisor.
pub open spec fn rel_z_spec(p: Point, camera: Point, t: Trig) -> int {
    rotate_spec(p, t).z + camera.z
}

/// One projected screen coordinate: the plane distance over the depth,
/// times the camera-relative coordinate, rounded to the nearest integer.
pub open spec fn perspective_coord(plane_z: int, c: int, z: int) -> int
    recommends
        z != 0,
{
    round_div_spec(plane_z * c, z)
}

/// Where `p` lands on the terminal, or `None` for the degenerate depth:
/// a point whose camera-relative depth is exactly zero is skipped for the
/// frame rather than divided by zero.
pub open spec fn project_spec(p: Point, camera: Point, plane_z: i64, t: Trig) -> Option<
    ScreenPos,
> {
    let rz = rel_z_spec(p, camera, t);
    if rz == 0 {
        None
    } else {
        Some(
            ScreenPos {
                row: (perspective_coord(plane_z as int, rel_y_spec(p, camera, t), rz)
                    + DISP_OFFSET_ROW) as i64,
                col: (perspective_coord(plane_z as int, rel_x_spec(p, camera, t), rz)
                    + DISP_OFFSET_COL) as i64,
            },
        )
    }
}

/// Rotate `p`, combine it with the camera position, and perspective-divide
/// to a terminal position; a point at degenerate (zero) camera-relative
/// depth is skipped, never divided.
pub fn project_point(p: Point, camera: Point, plane_z: i64, t: Trig) -> (r: Option<ScreenPos>)
    requires
        p.in_bounds(),
        camera.in_bounds(),
        t.wf(),
        0 < plane_z <= COORD_MAX,
    ensures
        r == project_spec(p, camera, plane_z, t),
        (r is None) <==> rel_z_spec(p, camera, t) == 0,
{
    let rot = rotate(p, t);
    let rel = rot.translated(camera);
    if rel.z == 0 {
        None
    } else {
        proof {
            let cm = COORD_MAX as int;
            lemma_mul_bound(plane_z as int, rel.x as int, cm, 4 * cm);
            lemma_mul_bound(plane_z as int, rel.y as int, cm, 4 * cm);
            lemma_round_div_magnitude(plane_z as int * rel.x, rel.z as int);
            lemma_round_div_magnitude(plane_z as int * rel.y, rel.z as int);
        }
        let bx: i64 = round_div(plane_z * rel.x, rel.z);
        let by: i64 = round_div(plane_z * rel.y, rel.z);
        Some(ScreenPos { row: by + DISP_OFFSET_ROW, col: bx + DISP_OFFSET_COL })
    }
}

/// Rotation-identity law: at zero angles (sines zero, cosines one), the
/// rotation step returns every in-bounds point unchanged, before any camera
/// translation.
pub proof fn lemma_rotation_identity(p: Point)
    requires
        p.in_bounds(),
    ensures
        rotate_spec(p, trig_identity()) == p,
{
    let t = trig_identity();
    assert(TRIG_SCALE_SQ == TRIG_SCALE * TRIG_SCALE);
    assert((p.x * t.cos_gamma + p.y * t.sin_gamma) * (TRIG_SCALE as int) == p.x * (
    TRIG_SCALE_SQ as int)) by (nonlinear_arith)
        requires
            t.cos_gamma == TRIG_SCALE,
            t.sin_gamma == 0,
            TRIG_SCALE_SQ == TRIG_SCALE * TRIG_SCALE,
    ;
    assert(-(p.x * t.cos_alpha * t.sin_gamma) + p.y * t.cos_alpha * t.cos_gamma + p.z
        * t.sin_alpha * (TRIG_SCALE as int) == p.y * (TRIG_SCALE_SQ as int)) by (nonlinear_arith)
        requires
            t.cos_alpha == TRIG_SCALE,
            t.cos_gamma == TRIG_SCALE,
            t.sin_alpha == 0,
            t.sin_gamma == 0,
            TRIG_SCALE_SQ == TRIG_SCALE * TRIG_SCALE,
    ;
    assert(p.x * t.sin_alpha * t.sin_gamma - p.y * t.sin_alpha * t.cos_gamma + p.z * t.cos_alpha
        * (TRIG_SCALE as int) == p.z * (TRIG_SCALE_SQ as int)) by (nonlinear_arith)
        requires
            t.cos_alpha == TRIG_SCALE,
            t.cos_gamma == TRIG_SCALE,
            t.sin_alpha == 0,
            t.sin_gamma == 0,
            TRIG_SCALE_SQ == TRIG_SCALE * TRIG_SCALE,
    ;
    assert(rot_x_num(p, t) == p.x * (TRIG_SCALE_SQ as int));
    assert(rot_y_num(p, t) == p.y * (TRIG_SCALE_SQ as int));
    assert(rot_z_num(p, t) == p.z * (TRIG_SCALE_SQ as int));
    lemma_round_div_exact(p.x as int, TRIG_SCALE_SQ as int);
    lemma_round_div_exact(p.y as int, TRIG_SCALE_SQ as int);
    lemma_round_div_exact(p.z as int, TRIG_SCALE_SQ as int);
}

/// Nearest-integer characterisation: the rounded quotient, multiplied back
/// by the divisor, differs from the dividend by at most half the divisor.
pub proof fn lemma_round_div_nearest(n: int, d: int)
    requires
        d != 0,
    ensures
        -abs(d) <= 2 * n - 2 * (round_div_spec(n, d) * d) <= abs(d),
{
    let m = abs(n) as int;
    let e = abs(d) as int;
    let q = (2 * m + e) / (2 * e);
    lemma_fundamental_div_mod(2 * m + e, 2 * e);
    lemma_mod_bound(2 * m + e, 2 * e);
    let rem = (2 * m + e) % (2 * e);
    assert(2 * m - 2 * (q * e) == rem - e) by (nonlinear_arith)
        requires
            2 * m + e == 2 * e * q + rem,
    ;
    let r = round_div_spec(n, d);
    if n >= 0 && d > 0 {
        assert(r * d == q * e) by (nonlinear_arith)
            requires
                r == q,
                d == e,
        ;
    } else if n < 0 && d < 0 {
        assert(r * d == -(q * e)) by (nonlinear_arith)
            requires
                r == q,
                d == -e,
        ;
    } else if n >= 0 && d < 0 {
        assert(r * d == q * e) by (nonlinear_arith)
            requires
                r == -q,
                d == -e,
        ;
    } else {
        assert(r * d == -(q * e)) by (nonlinear_arith)
            requires
                r == -q,
                d == e,
        ;
    }
}

/// Perspective-scaling law, general form: the projected coordinate scales
/// with the plane distance over the depth, so doubling the camera-relative
/// depth halves it, up to at most one unit of rounding.
pub proof fn lemma_perspective_halving_rounds(plane_z: int, c: int, z: int)
    requires
        z != 0,
    ensures
        -1 <= 2 * perspective_coord(plane_z, c, 2 * z) - perspective_coord(plane_z, c, z) <= 1,
{
    let n = plane_z * c;
    let r1 = round_div_spec(n, z);
    let r2 = round_div_spec(n, 2 * z);
    lemma_round_div_nearest(n, z);
    lemma_round_div_nearest(n, 2 * z);
    let e = abs(z) as int;
    assert(abs(2 * z) == 2 * e);
    assert(2 * (r1 - 2 * r2) * z == (2 * n - 2 * (r2 * (2 * z))) - (2 * n - 2 * (r1 * z)))
        by (nonlinear_arith);
    let k = r1 - 2 * r2;
    assert(-1 <= k <= 1) by (nonlinear_arith)
        requires
            -3 * e <= 2 * k * z <= 3 * e,
            z == e || z == -e,
            e >= 1,
    ;
}

/// Perspective-scaling law: the projected coordinate scales with the plane
/// distance over the depth. When the divisions come out exact, doubling the
/// camera-relative depth exactly halves the projected coordinate.
pub proof fn lemma_perspective_halving(plane_z: int, c: int, z: int)
    requires
        z != 0,
        (plane_z * c) % (2 * z) == 0,
    ensures
        2 * perspective_coord(plane_z, c, 2 * z) == perspective_coord(plane_z, c, z),
{
    let n = plane_z * c;
    lemma_fundamental_div_mod(n, 2 * z);
    let k = n / (2 * z);
    assert(n == k * (2 * z));
    lemma_round_div_exact(k, 2 * z);
    assert(n == (2 * k) * z) by (nonlinear_arith)
        requires
            n == k * (2 * z),
    ;
    lemma_round_div_exact(2 * k, z);
}

} // verus!
