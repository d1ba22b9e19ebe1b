use rt::color::Color;
use rt::fixed::Fixed;

fn fx(v: f64) -> Fixed {
    Fixed { raw: (v * 4294967296.0) as i64 }
}

fn col(r: f64, g: f64, b: f64) -> Color {
    Color { r: fx(r), g: fx(g), b: fx(b) }
}

#[test]
fn colours_add_and_subtract_by_channel() {
    assert_eq!(col(0.25, 0.5, 1.0) + col(0.5, 0.25, 0.125), col(0.75, 0.75, 1.125));
    assert_eq!(col(0.25, 0.5, 1.0) - col(0.5, 0.25, 0.125), col(-0.25, 0.25, 0.875));
    assert_eq!(-col(0.25, -0.5, 1.0), col(-0.25, 0.5, -1.0));
}

#[test]
fn colours_scale_on_either_side() {
    assert_eq!(col(0.25, 0.5, 1.0) * fx(2.0), col(0.5, 1.0, 2.0));
    assert_eq!(fx(2.0) * col(0.25, 0.5, 1.0), col(0.5, 1.0, 2.0));
    assert_eq!(col(0.25, 0.5, 1.0) / fx(4.0), col(0.0625, 0.125, 0.25));
}

#[test]
fn average_of_samples() {
    let mut sum = col(0.0, 0.0, 0.0);
    for c in [col(1.0, 0.0, 0.5), col(0.0, 1.0, 0.5), col(0.5, 0.5, 0.5), col(0.5, 0.5, 0.5)].iter() {
        sum = sum + *c;
    }
    assert_eq!(sum / fx(4.0), col(0.5, 0.5, 0.5));
}
