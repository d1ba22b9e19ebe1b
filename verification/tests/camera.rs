use rt::camera::{sighted, Camera};
use rt::fixed::Fixed;
use rt::point::Point;
use rt::ray::Ray;
use rt::vector::Vector3;

fn fx(v: f64) -> Fixed {
    Fixed { raw: (v * 4294967296.0) as i64 }
}

fn fl(v: Fixed) -> f64 {
    v.raw as f64 / 4294967296.0
}

fn pt(x: f64, y: f64, z: f64) -> Point {
    Point { x: fx(x), y: fx(y), z: fx(z) }
}

fn vc(x: f64, y: f64, z: f64) -> Vector3 {
    Vector3 { x: fx(x), y: fx(y), z: fx(z) }
}

fn pinhole() -> Camera {
    // a right angle of view, twice as wide as high, looking down -z
    Camera::new(
        pt(0.0, 0.0, 0.0),
        pt(0.0, 0.0, -1.0),
        vc(0.0, 1.0, 0.0),
        fx(1.0),
        fx(2.0),
        fx(0.0),
        fx(1.0),
    )
}

#[test]
fn frame_of_a_camera_that_looks_down_z() {
    let cam = pinhole();
    assert_eq!(cam.origin(), pt(0.0, 0.0, 0.0));
    assert_eq!(cam.u(), vc(1.0, 0.0, 0.0));
    assert_eq!(cam.v(), vc(0.0, -1.0, 0.0));
    assert_eq!(cam.lens_radius(), fx(0.0));
    assert_eq!(cam.start(), vc(-2.0, 1.0, -1.0));
    assert_eq!(cam.horizontal(), vc(4.0, 0.0, 0.0));
    assert_eq!(cam.vertical(), vc(0.0, -2.0, 0.0));
}

#[test]
fn pinhole_rays_leave_the_origin_toward_the_image() {
    let cam = pinhole();
    let centre = cam.get_ray(fx(0.5), fx(0.5));
    assert_eq!(centre, Ray { origin: pt(0.0, 0.0, 0.0), direction: vc(0.0, 0.0, -1.0) });
    assert_eq!(cam.get_ray(fx(0.0), fx(0.0)).direction, vc(-2.0, 1.0, -1.0));
    assert_eq!(cam.get_ray(fx(1.0), fx(1.0)).direction, vc(2.0, -1.0, -1.0));
    assert_eq!(cam.get_ray(fx(1.0), fx(0.0)).direction, vc(2.0, 1.0, -1.0));
    // values outside the image are not clamped
    assert_eq!(cam.get_ray(fx(1.5), fx(-0.5)).direction, vc(4.0, 2.0, -1.0));
}

#[test]
fn focus_distance_scales_the_image_plane() {
    let cam = Camera::new(
        pt(1.0, 2.0, 3.0),
        pt(1.0, 2.0, -5.0),
        vc(0.0, 1.0, 0.0),
        fx(0.5),
        fx(1.0),
        fx(0.0),
        fx(4.0),
    );
    assert_eq!(cam.start(), vc(-2.0, 2.0, -4.0));
    assert_eq!(cam.horizontal(), vc(4.0, 0.0, 0.0));
    assert_eq!(cam.vertical(), vc(0.0, -4.0, 0.0));
    let r = cam.get_ray(fx(0.5), fx(0.5));
    assert_eq!(r, Ray { origin: pt(1.0, 2.0, 3.0), direction: vc(0.0, 0.0, -4.0) });
}

#[test]
fn lens_point_moves_the_origin_and_keeps_the_target() {
    let cam = Camera::new(
        pt(0.0, 0.0, 0.0),
        pt(0.0, 0.0, -1.0),
        vc(0.0, 1.0, 0.0),
        fx(1.0),
        fx(1.0),
        fx(1.0),
        fx(2.0),
    );
    assert_eq!(cam.lens_radius(), fx(0.5));
    let r = cam.get_ray_with(fx(0.5), fx(0.5), &pt(0.5, -0.5, 0.0));
    // offset = u * 0.25 + v * (-0.25)
    assert_eq!(r.origin, pt(0.25, 0.25, 0.0));
    assert_eq!(r.direction, vc(-0.25, -0.25, -2.0));
    // whatever the lens point, the ray passes through the same point of the
    // plane in focus
    assert_eq!(r.at(fx(1.0)), pt(0.0, 0.0, -2.0));
}

#[test]
fn rays_of_an_open_lens_meet_in_the_plane_of_focus() {
    let cam = Camera::new(
        pt(0.0, 0.0, 0.0),
        pt(0.0, 0.0, -1.0),
        vc(0.0, 1.0, 0.0),
        fx(1.0),
        fx(1.0),
        fx(0.5),
        fx(2.0),
    );
    let mut moved = false;
    for _ in 0..200 {
        let r = cam.get_ray(fx(0.25), fx(0.75));
        let o = Vector3::from(r.origin);
        assert_eq!(o.z, fx(0.0));
        assert!(fl(o.length()) < 0.25 + 1e-9);
        moved = moved || r.origin != pt(0.0, 0.0, 0.0);
        let target = r.at(fx(1.0));
        assert!((fl(target.x) + 1.0).abs() < 1e-8);
        assert!((fl(target.y) + 1.0).abs() < 1e-8);
        assert!((fl(target.z) + 2.0).abs() < 1e-8);
    }
    assert!(moved);
}

#[test]
fn camera_needs_a_line_of_sight_and_an_up_across_it() {
    assert!(sighted(pt(0.0, 0.0, 0.0), pt(0.0, 0.0, -1.0), vc(0.0, 1.0, 0.0)));
    assert!(sighted(pt(13.0, 2.0, 3.0), pt(0.0, 0.0, 0.0), vc(0.0, 1.0, 0.0)));
    // nothing to look at
    assert!(!sighted(pt(1.0, 1.0, 1.0), pt(1.0, 1.0, 1.0), vc(0.0, 1.0, 0.0)));
    // up along the line of sight
    assert!(!sighted(pt(0.0, 0.0, 0.0), pt(0.0, -3.0, 0.0), vc(0.0, 1.0, 0.0)));
    assert!(!sighted(pt(0.0, 0.0, 0.0), pt(0.0, 0.0, -1.0), vc(0.0, 0.0, 0.0)));
}
