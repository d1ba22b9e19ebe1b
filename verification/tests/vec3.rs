use rt::fixed::Fixed;
use rt::vec3::Vec3;

fn fx(v: f64) -> Fixed {
    Fixed { raw: (v * 4294967296.0) as i64 }
}

#[test]
fn triple_is_read_by_index() {
    let v = Vec3::new(fx(1.0), fx(-2.0), fx(3.5));
    assert_eq!(v[0], fx(1.0));
    assert_eq!(v[1], fx(-2.0));
    assert_eq!(v[2], fx(3.5));
}

#[test]
fn triple_lengths() {
    let v = Vec3::new(fx(1.0), fx(2.0), fx(2.0));
    assert_eq!(v.squared_length(), fx(9.0));
    assert_eq!(v.length(), fx(3.0));
}

#[test]
fn triple_arithmetic_goes_by_component() {
    let a = Vec3::new(fx(1.0), fx(2.0), fx(3.0));
    let b = Vec3::new(fx(0.5), fx(-1.0), fx(2.0));
    assert_eq!(a + b, Vec3::new(fx(1.5), fx(1.0), fx(5.0)));
    assert_eq!(a - b, Vec3::new(fx(0.5), fx(3.0), fx(1.0)));
    assert_eq!(a * b, Vec3::new(fx(0.5), fx(-2.0), fx(6.0)));
}
