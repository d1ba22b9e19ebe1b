use rt::fixed::{isqrt, Fixed, SCALE};

fn fx(v: f64) -> Fixed {
    Fixed { raw: (v * 4294967296.0) as i64 }
}

#[test]
fn one_is_scale_steps() {
    assert_eq!(Fixed::one().raw, SCALE);
    assert_eq!(Fixed::zero().raw, 0);
    assert_eq!(Fixed::from_int(3), fx(3.0));
    assert_eq!(Fixed::from_int(-7), fx(-7.0));
    assert_eq!(Fixed::from_int(i32::MIN).raw, i64::MIN);
    assert_eq!(Fixed::max_value().raw, i64::MAX);
}

#[test]
fn sums_saturate() {
    assert_eq!(fx(1.5) + fx(2.25), fx(3.75));
    assert_eq!(fx(1.5) - fx(2.25), fx(-0.75));
    assert_eq!(Fixed::max_value() + fx(1.0), Fixed::max_value());
    assert_eq!(Fixed { raw: i64::MIN } - fx(1.0), Fixed { raw: i64::MIN });
    assert_eq!(-Fixed { raw: i64::MIN }, Fixed::max_value());
    assert_eq!(-fx(2.0), fx(-2.0));
}

#[test]
fn product_rounds_toward_zero() {
    assert_eq!(fx(1.5) * fx(2.0), fx(3.0));
    assert_eq!(fx(-1.5) * fx(2.0), fx(-3.0));
    assert_eq!(Fixed { raw: 1 } * Fixed { raw: 1 }, Fixed { raw: 0 });
    assert_eq!(Fixed { raw: -3 } * fx(0.5), Fixed { raw: -1 });
    assert_eq!(Fixed { raw: 3 } * fx(-0.5), Fixed { raw: -1 });
    assert_eq!(Fixed { raw: -3 } * fx(-0.5), Fixed { raw: 1 });
}

#[test]
fn product_saturates() {
    assert_eq!(fx(100000.0) * fx(100000.0), Fixed::max_value());
    assert_eq!(fx(100000.0) * fx(-100000.0), Fixed { raw: i64::MIN });
}

#[test]
fn quotient_rounds_toward_zero() {
    assert_eq!(fx(3.0) / fx(2.0), fx(1.5));
    assert_eq!(fx(-3.0) / fx(2.0), fx(-1.5));
    assert_eq!(fx(1.0) / fx(3.0), Fixed { raw: 1431655765 });
    assert_eq!(fx(-1.0) / fx(3.0), Fixed { raw: -1431655765 });
    assert_eq!(fx(1.0) / fx(-3.0), Fixed { raw: -1431655765 });
    assert_eq!(fx(-1.0) / fx(-3.0), Fixed { raw: 1431655765 });
}

#[test]
fn quotient_by_zero_saturates() {
    assert_eq!(fx(1.0) / fx(0.0), Fixed::max_value());
    assert_eq!(fx(-1.0) / fx(0.0), Fixed { raw: i64::MIN });
    assert_eq!(fx(0.0) / fx(0.0), fx(0.0));
    assert_eq!(fx(1000000.0) / Fixed { raw: 1 }, Fixed::max_value());
}

#[test]
fn ratio_is_a_quotient() {
    assert_eq!(Fixed::from_ratio(1, 2), fx(0.5));
    assert_eq!(Fixed::from_ratio(7, 10), Fixed { raw: 3006477107 });
    assert_eq!(Fixed::from_ratio(1, 1000), Fixed { raw: 4294967 });
    assert_eq!(Fixed::from_ratio(-3, 4), fx(-0.75));
}

#[test]
fn square_root_rounds_toward_zero() {
    assert_eq!(fx(9.0).sqrt(), fx(3.0));
    assert_eq!(fx(0.25).sqrt(), fx(0.5));
    assert_eq!(fx(2.0).sqrt(), Fixed { raw: 6074000999 });
    assert_eq!(fx(0.0).sqrt(), fx(0.0));
    assert_eq!(fx(-4.0).sqrt(), fx(0.0));
    assert_eq!(Fixed { raw: 1 }.sqrt(), Fixed { raw: 65536 });
}

#[test]
fn integer_square_root() {
    assert_eq!(isqrt(0), 0);
    assert_eq!(isqrt(1), 1);
    assert_eq!(isqrt(15), 3);
    assert_eq!(isqrt(16), 4);
    assert_eq!(isqrt(17), 4);
    assert_eq!(isqrt(u128::MAX), u64::MAX);
    for n in 0..2000u128 {
        let r = isqrt(n) as u128;
        assert!(r * r <= n && n < (r + 1) * (r + 1));
    }
}

#[test]
fn sign_and_power() {
    assert_eq!(fx(3.5).signum(), fx(1.0));
    assert_eq!(fx(0.0).signum(), fx(1.0));
    assert_eq!(fx(-0.5).signum(), fx(-1.0));
    assert_eq!(fx(2.0).powi(5), fx(32.0));
    assert_eq!(fx(-2.0).powi(3), fx(-8.0));
    assert_eq!(fx(7.0).powi(0), fx(1.0));
    assert_eq!(fx(0.5).powi(5), fx(0.03125));
}

#[test]
fn order_follows_the_count() {
    assert!(fx(1.0) < fx(1.5));
    assert!(fx(-2.0) < fx(-1.0));
    assert!(Fixed::max_value() > fx(1000.0));
}
