use rt::fixed::Fixed;
use rt::point::Point;
use rt::vector::Vector3;

fn fx(v: f64) -> Fixed {
    Fixed { raw: (v * 4294967296.0) as i64 }
}

#[test]
fn test_origin() {
    let pt = Point::origin();

    assert_eq!(
        pt,
        Point {
            x: fx(0.0),
            y: fx(0.0),
            z: fx(0.0),
        }
    )
}

#[test]
fn point_test_ops() {
    let pt1 = Point::origin();
    let pt2 = Point {
        x: fx(1.0),
        y: fx(1.0),
        z: fx(1.0),
    };

    assert_eq!(
        pt1 + pt2,
        Point {
            x: fx(1.0),
            y: fx(1.0),
            z: fx(1.0),
        }
    );

    assert_eq!(
        pt2 - pt1,
        Vector3 {
            x: fx(1.0),
            y: fx(1.0),
            z: fx(1.0),
        }
    );

    assert_eq!(
        pt1 - pt2,
        Vector3 {
            x: fx(-1.0),
            y: fx(-1.0),
            z: fx(-1.0),
        }
    );

    assert_eq!(
        -pt2,
        Point {
            x: fx(-1.0),
            y: fx(-1.0),
            z: fx(-1.0),
        }
    )
}

#[test]
fn test_zeros() {
    let zeros: Vector3 = Vector3::zero();

    assert_eq!(zeros.x, fx(0.0));
    assert_eq!(zeros.y, fx(0.0));
    assert_eq!(zeros.z, fx(0.0));
}

#[test]
fn test_squared_length() {
    let vec = Vector3 {
        x: fx(1.0),
        y: fx(1.0),
        z: fx(1.0),
    };

    assert_eq!(vec.norm(), fx(3.0));
}

#[test]
fn test_length() {
    let vec = Vector3 {
        x: fx(1.0),
        y: fx(2.0),
        z: fx(2.0),
    };

    assert_eq!(vec.length(), fx(3.0));
}

#[test]
fn vector_test_ops() {
    let vec1 = Vector3 {
        x: fx(1.0),
        y: fx(1.0),
        z: fx(1.0),
    };

    let vec2 = Vector3 {
        x: fx(2.0),
        y: fx(2.0),
        z: fx(2.0),
    };

    assert_eq!(
        vec1 + vec2,
        Vector3 {
            x: fx(3.0),
            y: fx(3.0),
            z: fx(3.0),
        }
    );
    assert_eq!(
        vec2 - vec1,
        Vector3 {
            x: fx(1.0),
            y: fx(1.0),
            z: fx(1.0),
        }
    );
    assert_eq!(
        -vec1,
        Vector3 {
            x: fx(-1.0),
            y: fx(-1.0),
            z: fx(-1.0),
        }
    );
}

#[test]
fn test_scalar_mul() {
    let vec = Vector3 {
        x: fx(1.0),
        y: fx(2.0),
        z: fx(3.0),
    };

    assert_eq!(
        fx(2.0) * vec,
        Vector3 {
            x: fx(2.0),
            y: fx(4.0),
            z: fx(6.0),
        }
    );
}

#[test]
fn test_scalar_div() {
    let vec = Vector3 {
        x: fx(10.0),
        y: fx(20.0),
        z: fx(30.0),
    };

    assert_eq!(
        vec / fx(10.0),
        Vector3 {
            x: fx(1.0),
            y: fx(2.0),
            z: fx(3.0),
        }
    );
}

#[test]
fn vector_times_scalar_on_either_side() {
    let vec = Vector3 { x: fx(1.5), y: fx(-2.0), z: fx(0.25) };
    assert_eq!(vec * fx(2.0), fx(2.0) * vec);
    assert_eq!(vec * fx(2.0), Vector3 { x: fx(3.0), y: fx(-4.0), z: fx(0.5) });
}

#[test]
fn dot_and_cross_of_axes() {
    let x = Vector3 { x: fx(1.0), y: fx(0.0), z: fx(0.0) };
    let y = Vector3 { x: fx(0.0), y: fx(1.0), z: fx(0.0) };
    let z = Vector3 { x: fx(0.0), y: fx(0.0), z: fx(1.0) };
    assert_eq!(x.dot(&y), fx(0.0));
    assert_eq!(x.cross(&y), z);
    assert_eq!(y.cross(&x), -z);
    assert_eq!(
        Vector3 { x: fx(1.0), y: fx(2.0), z: fx(3.0) }
            .dot(&Vector3 { x: fx(4.0), y: fx(-5.0), z: fx(6.0) }),
        fx(12.0)
    );
}

#[test]
fn normalize_gives_unit_length() {
    let v = Vector3 { x: fx(3.0), y: fx(0.0), z: fx(4.0) };
    assert_eq!(v.normalize(), Vector3 { x: fx(0.6), y: fx(0.0), z: fx(0.8) });
    let n = Vector3 { x: fx(1.0), y: fx(2.0), z: fx(-3.0) }.normalize();
    let len = n.length().raw as f64 / 4294967296.0;
    assert!((len - 1.0).abs() < 1e-8);
}

#[test]
fn normalize_of_zero_is_zero() {
    assert_eq!(Vector3::zero().normalize(), Vector3::zero());
}

#[test]
fn vector_from_point_keeps_coordinates() {
    let p = Point { x: fx(1.0), y: fx(-2.0), z: fx(3.5) };
    assert_eq!(Vector3::from(p), Vector3 { x: fx(1.0), y: fx(-2.0), z: fx(3.5) });
}

#[test]
fn point_moves_by_vector() {
    let p = Point { x: fx(1.0), y: fx(2.0), z: fx(3.0) };
    let v = Vector3 { x: fx(0.5), y: fx(-2.0), z: fx(1.0) };
    assert_eq!(p + v, Point { x: fx(1.5), y: fx(0.0), z: fx(4.0) });
    assert_eq!(p - v, Point { x: fx(0.5), y: fx(4.0), z: fx(2.0) });
    assert_eq!(p * fx(2.0), Point { x: fx(2.0), y: fx(4.0), z: fx(6.0) });
    assert_eq!(fx(2.0) * p, p * fx(2.0));
}

#[test]
fn defaults_are_zero() {
    assert_eq!(Vector3::default(), Vector3::zero());
    assert_eq!(Point::default(), Point::origin());
}

#[test]
fn normalised_vectors_are_unit_within_a_few_steps() {
    let one = 1i64 << 32;
    let mut seed: u64 = 2024;
    let mut next = move || {
        seed = seed.wrapping_mul(6364136223846793005).wrapping_add(1442695040888963407);
        (seed >> 11) as f64 / 9007199254740992.0
    };
    let mut checked = 0;
    for k in 0..4000 {
        // lengths from about one up to some thousands
        let scale = if k % 2 == 0 { 2.0 } else { 5000.0 };
        let v = Vector3 {
            x: fx((next() * 2.0 - 1.0) * scale),
            y: fx((next() * 2.0 - 1.0) * scale),
            z: fx((next() * 2.0 - 1.0) * scale),
        };
        if v.length() >= fx(1.0) {
            let n = v.normalize().norm().raw;
            assert!(one - 9 <= n && n <= one + 5);
            checked += 1;
        }
    }
    assert!(checked > 2000);
    // vectors along an axis, and the shortest that qualifies
    for v in [
        Vector3 { x: fx(1.0), y: fx(0.0), z: fx(0.0) },
        Vector3 { x: fx(0.0), y: fx(-30000.0), z: fx(0.0) },
        Vector3 { x: Fixed { raw: one + 1 }, y: Fixed { raw: 1 }, z: Fixed { raw: -1 } },
    ]
    .iter()
    {
        assert!(v.length() >= fx(1.0));
        let n = v.normalize().norm().raw;
        assert!(one - 9 <= n && n <= one + 5);
    }
}

#[test]
fn short_vectors_normalise_less_exactly() {
    let one = 1i64 << 32;
    // at least a sixteenth long: 3 * 16 * 16 + 3 * 16 - 1 steps above
    let excess = 815;
    let mut seed: u64 = 77;
    let mut next = move || {
        seed = seed.wrapping_mul(6364136223846793005).wrapping_add(1442695040888963407);
        (seed >> 11) as f64 / 9007199254740992.0
    };
    let mut checked = 0;
    let mut worst = 0;
    for _ in 0..4000 {
        let v = Vector3 {
            x: fx((next() * 2.0 - 1.0) * 0.1),
            y: fx((next() * 2.0 - 1.0) * 0.1),
            z: fx((next() * 2.0 - 1.0) * 0.1),
        };
        if v.length() >= fx(0.0625) {
            let n = v.normalize().norm().raw;
            assert!(one - 9 <= n && n <= one + excess);
            worst = worst.max((n - one).abs());
            checked += 1;
        }
    }
    assert!(checked > 2000);
    // and they do stray further than long vectors may
    assert!(worst > 9);
}
