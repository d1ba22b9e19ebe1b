use rt::camera::random_in_unit_disc;
use rt::fixed::{Fixed, SCALE};
use rt::point::Point;
use rt::util::{
    cube_point, inside_unit_sphere, random_in_unit_sphere, random_unit, signed_unit_from_bits,
    square_point, unit_from_bits,
};
use rt::vector::Vector3;

fn fx(v: f64) -> Fixed {
    Fixed { raw: (v * 4294967296.0) as i64 }
}

fn fl(v: Fixed) -> f64 {
    v.raw as f64 / 4294967296.0
}

#[test]
fn bits_map_onto_the_unit_interval() {
    assert_eq!(unit_from_bits(0), fx(0.0));
    assert_eq!(unit_from_bits(1 << 31), fx(0.5));
    assert_eq!(unit_from_bits(u32::MAX), Fixed { raw: SCALE - 1 });
}

#[test]
fn bits_map_onto_the_symmetric_interval() {
    assert_eq!(signed_unit_from_bits(0), fx(-1.0));
    assert_eq!(signed_unit_from_bits(1 << 31), fx(0.0));
    assert_eq!(signed_unit_from_bits(3 << 30), fx(0.5));
    assert_eq!(signed_unit_from_bits(u32::MAX), Fixed { raw: SCALE - 2 });
}

#[test]
fn candidates_take_one_draw_per_coordinate() {
    assert_eq!(
        cube_point(0, 1 << 31, 3 << 30),
        Vector3 { x: fx(-1.0), y: fx(0.0), z: fx(0.5) }
    );
    assert_eq!(square_point(3 << 30, 1 << 30), Vector3 { x: fx(0.5), y: fx(-0.5), z: fx(0.0) });
}

#[test]
fn unit_sphere_excludes_its_surface() {
    assert!(inside_unit_sphere(&Vector3 { x: fx(0.0), y: fx(0.0), z: fx(0.0) }));
    assert!(inside_unit_sphere(&Vector3 { x: fx(0.5), y: fx(0.5), z: fx(0.5) }));
    assert!(!inside_unit_sphere(&Vector3 { x: fx(1.0), y: fx(0.0), z: fx(0.0) }));
    assert!(!inside_unit_sphere(&Vector3 { x: fx(0.6), y: fx(0.6), z: fx(0.6) }));
    assert!(inside_unit_sphere(&Vector3 { x: Fixed { raw: SCALE - 1 }, y: fx(0.0), z: fx(0.0) }));
}

#[test]
fn random_unit_lies_in_the_unit_interval() {
    let mut sum = 0.0;
    let n = 20000;
    for _ in 0..n {
        let r = random_unit();
        assert!(r >= fx(0.0) && r < fx(1.0));
        sum += fl(r);
    }
    assert!((sum / n as f64 - 0.5).abs() < 0.02);
}

#[test]
fn sphere_samples_lie_inside_and_centre_on_the_origin() {
    let n = 20000;
    let mut mean = [0.0f64; 3];
    let mut distinct = false;
    let first = random_in_unit_sphere();
    for _ in 0..n {
        let p = random_in_unit_sphere();
        let v = Vector3::from(p);
        assert!(v.norm() < fx(1.0));
        let (x, y, z) = (fl(p.x), fl(p.y), fl(p.z));
        assert!(x * x + y * y + z * z < 1.0 + 1e-9);
        mean[0] += x;
        mean[1] += y;
        mean[2] += z;
        distinct = distinct || p != first;
    }
    assert!(distinct);
    for m in mean.iter() {
        assert!((m / n as f64).abs() < 0.03);
    }
}

#[test]
fn disc_samples_lie_inside_and_centre_on_the_origin() {
    let n = 20000;
    let mut mean = [0.0f64; 2];
    let mut distinct = false;
    let first = random_in_unit_disc();
    for _ in 0..n {
        let p: Point = random_in_unit_disc();
        assert_eq!(p.z, fx(0.0));
        assert!(Vector3::from(p).norm() < fx(1.0));
        let (x, y) = (fl(p.x), fl(p.y));
        assert!(x * x + y * y < 1.0 + 1e-9);
        mean[0] += x;
        mean[1] += y;
        distinct = distinct || p != first;
    }
    assert!(distinct);
    for m in mean.iter() {
        assert!((m / n as f64).abs() < 0.03);
    }
}

#[test]
fn samples_are_candidates_of_the_grid_of_draws() {
    // a candidate is an even count of steps in [-1, 1): twice the bits drawn
    // less one; the centre, returned after rejections only, is one as well
    let on_grid = |v: Fixed| v.raw % 2 == 0 && -SCALE <= v.raw && v.raw < SCALE;
    let mut off_centre = 0;
    for _ in 0..5000 {
        let p = random_in_unit_sphere();
        assert!(on_grid(p.x) && on_grid(p.y) && on_grid(p.z));
        let from_bits = |v: Fixed| ((v.raw + SCALE) / 2) as u32;
        assert_eq!(Vector3::from(p), cube_point(from_bits(p.x), from_bits(p.y), from_bits(p.z)));
        if p != Point::origin() {
            off_centre += 1;
        }
        let d = random_in_unit_disc();
        assert!(on_grid(d.x) && on_grid(d.y) && d.z.raw == 0);
        assert_eq!(Vector3::from(d), square_point(from_bits(d.x), from_bits(d.y)));
    }
    // sixty-four rejections in a row do not happen
    assert!(off_centre >= 4999);
}

#[test]
fn about_half_the_cube_lies_inside_the_sphere() {
    // the share of candidates that rejection keeps is the volume of the
    // sphere over that of the cube, pi / 6
    let mut seed: u64 = 4242;
    let mut next = move || {
        seed = seed.wrapping_mul(6364136223846793005).wrapping_add(1442695040888963407);
        (seed >> 32) as u32
    };
    let n = 20000;
    let mut kept = 0;
    for _ in 0..n {
        if inside_unit_sphere(&cube_point(next(), next(), next())) {
            kept += 1;
        }
    }
    let share = kept as f64 / n as f64;
    assert!((share - 0.5236).abs() < 0.02);
}
