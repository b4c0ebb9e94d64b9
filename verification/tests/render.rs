use wirecube::frame::{render_frame, Scene};
use wirecube::geometry::initialize_points;
use wirecube::point::Point;
use wirecube::project::{project_point, rotate, round_div, ScreenPos, Trig, TRIG_SCALE};
use wirecube::rotation::RotationState;
use wirecube::text::frame_bytes;

#[test]
fn cube_point_count_radius_16() {
    let points = initialize_points(16);
    assert_eq!(points.len(), 24 * 16);
}

#[test]
fn cube_point_count_radius_1() {
    let points = initialize_points(1);
    assert_eq!(points.len(), 24);
}

#[test]
fn cube_points_lie_on_edges() {
    let radius: i64 = 2;
    let points = initialize_points(radius);
    for p in &points {
        let extremes = [p.x, p.y, p.z]
            .iter()
            .filter(|c| **c == radius || **c == -radius)
            .count();
        assert!(extremes >= 2, "point off the cube frame: {:?}", p);
        assert!(extremes <= 3);
    }
}

#[test]
fn generator_order_matches_first_group() {
    let points = initialize_points(1);
    let expected = [
        (-1, 1, 1),
        (-1, 1, -1),
        (-1, -1, 1),
        (-1, -1, -1),
        (1, -1, 1),
        (-1, -1, 1),
        (1, -1, -1),
        (-1, -1, -1),
        (1, 1, -1),
        (-1, 1, -1),
        (1, -1, -1),
        (-1, -1, -1),
    ];
    for (k, e) in expected.iter().enumerate() {
        assert_eq!((points[k].x, points[k].y, points[k].z), *e);
    }
}

#[test]
fn angles_advance_one_frame() {
    let mut rot = RotationState::new();
    rot.advance();
    assert_eq!(rot.alpha_deg, 2);
    assert_eq!(rot.gamma_deg, 16);
}

#[test]
fn angles_return_to_zero_after_180_frames() {
    let mut rot = RotationState::new();
    for _ in 0..180 {
        rot.advance();
        assert!(rot.alpha_deg < 360);
        assert!(rot.gamma_deg < 360);
    }
    assert_eq!(rot.alpha_deg, 0);
    assert_eq!(rot.gamma_deg, 0);
}

#[test]
fn rotation_at_zero_angles_is_identity() {
    let p = Point::new(5, -7, 9);
    let r = rotate(p, Trig::identity());
    assert_eq!((r.x, r.y, r.z), (5, -7, 9));
}

#[test]
fn rotation_quarter_turn_gamma() {
    // gamma = 90 degrees: sin = 1, cos = 0 in fixed point; alpha stays zero.
    let t = Trig::new(0, TRIG_SCALE, TRIG_SCALE, 0);
    let r = rotate(Point::new(3, 4, 5), t);
    assert_eq!((r.x, r.y, r.z), (4, -3, 5));
}

#[test]
fn round_division_is_nearest_ties_away() {
    assert_eq!(round_div(512, 64), 8);
    assert_eq!(round_div(5, 2), 3);
    assert_eq!(round_div(-5, 2), -3);
    assert_eq!(round_div(7, 2), 4);
    assert_eq!(round_div(1, 3), 0);
    assert_eq!(round_div(2, 3), 1);
    assert_eq!(round_div(-2, 3), -1);
    assert_eq!(round_div(8, -4), -2);
}

#[test]
fn perspective_halves_with_doubled_depth() {
    let plane_z: i64 = 32;
    let p = Point::new(8, 4, 0);
    let near = project_point(p, Point::new(0, 0, 16), plane_z, Trig::identity());
    let far = project_point(p, Point::new(0, 0, 32), plane_z, Trig::identity());
    // near depth 16: screen (16, 8); far depth 32: screen (8, 4), exactly half.
    assert_eq!(near, Some(ScreenPos { row: 8 + 24, col: 16 + 52 }));
    assert_eq!(far, Some(ScreenPos { row: 4 + 24, col: 8 + 52 }));
}

#[test]
fn degenerate_depth_is_skipped() {
    let p = Point::new(3, 4, 0);
    let r = project_point(p, Point::new(0, 0, 0), 32, Trig::identity());
    assert_eq!(r, None);
}

#[test]
fn degenerate_depth_dropped_from_frame() {
    // With the camera at the origin, a point with z = 0 sits at degenerate
    // depth and is skipped; the others are still drawn, in order.
    let points = vec![Point::new(2, 2, 1), Point::new(3, 4, 0), Point::new(2, 2, -1)];
    let frame = render_frame(&points, Point::new(0, 0, 0), 8, Trig::identity());
    assert_eq!(frame.len(), 2);
    assert_eq!(frame[0], ScreenPos { row: 16 + 24, col: 16 + 52 });
    assert_eq!(frame[1], ScreenPos { row: -16 + 24, col: -16 + 52 });
}

#[test]
fn whole_scene_frame_draws_every_point() {
    let mut scene = Scene::new(1);
    let frame = scene.render(Trig::identity());
    assert_eq!(frame.len(), 24);
    scene.advance_angles();
    assert_eq!(scene.alpha_deg(), 2);
    assert_eq!(scene.gamma_deg(), 16);
}

#[test]
fn end_to_end_corner_projection() {
    let scene = Scene::new(16);
    assert_eq!((scene.camera.x, scene.camera.y, scene.camera.z), (0, 0, 48));
    assert_eq!(scene.plane_z, 32);
    // The corner (16,16,16) at zero angles rotates to itself, combines with
    // the camera to (16,16,64), and projects to 32/64 * 16 = 8 on each axis.
    let r = project_point(Point::new(16, 16, 16), scene.camera, scene.plane_z, Trig::identity());
    assert_eq!(r, Some(ScreenPos { row: 8 + 24, col: 8 + 52 }));
}

#[test]
fn frame_bytes_write_clear_then_positions() {
    let frame = vec![ScreenPos { row: 32, col: 60 }];
    let bytes = frame_bytes(&frame);
    assert_eq!(bytes, b"\x1b[H\x1b[2J\x1b[32;60H##".to_vec());
}

#[test]
fn frame_bytes_render_negative_coordinates() {
    let frame = vec![ScreenPos { row: -5, col: 7 }, ScreenPos { row: 0, col: 123 }];
    let bytes = frame_bytes(&frame);
    assert_eq!(bytes, b"\x1b[H\x1b[2J\x1b[-5;7H##\x1b[0;123H##".to_vec());
}

#[test]
fn point_combination_adds_componentwise() {
    let a = Point::new(1, 2, 3);
    let b = Point::new(10, 20, 30);
    let s = a.translated(b);
    assert_eq!((s.x, s.y, s.z), (11, 22, 33));
    let d = a.relative_to(b);
    assert_eq!((d.x, d.y, d.z), (-9, -18, -27));
}

#[test]
fn point_from_integer_triple() {
    let p = Point::from((4, -5, 6));
    assert_eq!((p.x, p.y, p.z), (4, -5, 6));
}
