//! Linear-space radiance values.

use crate::fixed::Fixed;
use core::ops::Neg;
use vstd::prelude::*;

verus! {

/// A radiance value with red, green and blue channels, before gamma
/// correction.
#[derive(Clone, Copy, Debug, PartialEq, Eq, Structural)]
pub struct Color {
    pub r: Fixed,
    pub g: Fixed,
    pub b: Fixed,
}

impl Color {
    /// The sum, channel by channel.
    pub open spec fn plus(self, other: Color) -> Color {
        Color { r: self.r.plus(other.r), g: self.g.plus(other.g), b: self.b.plus(other.b) }
    }

    /// The difference, channel by channel.
    pub open spec fn minus(self, other: Color) -> Color {
        Color { r: self.r.minus(other.r), g: self.g.minus(other.g), b: self.b.minus(other.b) }
    }

    /// Each channel negated.
    pub open spec fn negated(self) -> Color {
        Color { r: self.r.negated(), g: self.g.negated(), b: self.b.negated() }
    }

    /// Each channel multiplied by `k`.
    pub open spec fn times(self, k: Fixed) -> Color {
        Color { r: k.times(self.r), g: k.times(self.g), b: k.times(self.b) }
    }

    /// Each channel divided by `k`.
    pub open spec fn over(self, k: Fixed) -> Color {
        Color { r: self.r.over(k), g: self.g.over(k), b: self.b.over(k) }
    }
}

impl core::ops::Add for Color {
    type Output = Color;

    fn add(self, other: Color) -> (c: Color) {
        Color { r: self.r + other.r, g: self.g + other.g, b: self.b + other.b }
    }
}

impl vstd::std_specs::ops::AddSpecImpl for Color {
    open spec fn obeys_add_spec() -> bool {
        true
    }

    open spec fn add_req(self, other: Color) -> bool {
        true
    }

    open spec fn add_spec(self, other: Color) -> Color {
        self.plus(other)
    }
}

impl core::ops::Sub for Color {
    type Output = Color;

    fn sub(self, other: Color) -> (c: Color) {
        Color { r: self.r - other.r, g: self.g - other.g, b: self.b - other.b }
    }
}

impl vstd::std_specs::ops::SubSpecImpl for Color {
    open spec fn obeys_sub_spec() -> bool {
        true
    }

    open spec fn sub_req(self, other: Color) -> bool {
        true
    }

    open spec fn sub_spec(self, other: Color) -> Color {
        self.minus(other)
    }
}

impl core::ops::Neg for Color {
    type Output = Color;

    fn neg(self) -> (c: Color) {
        Color { r: self.r.neg(), g: self.g.neg(), b: self.b.neg() }
    }
}

impl vstd::std_specs::ops::NegSpecImpl for Color {
    open spec fn obeys_neg_spec() -> bool {
        true
    }

    open spec fn neg_req(self) -> bool {
        true
    }

    open spec fn neg_spec(self) -> Color {
        self.negated()
    }
}

impl core::ops::Mul<Fixed> for Color {
    type Output = Color;

    fn mul(self, other: Fixed) -> (c: Color) {
        Color { r: other * self.r, g: other * self.g, b: other * self.b }
    }
}

impl vstd::std_specs::ops::MulSpecImpl<Fixed> for Color {
    open spec fn obeys_mul_spec() -> bool {
        true
    }

    open spec fn mul_req(self, other: Fixed) -> bool {
        true
    }

    open spec fn mul_spec(self, other: Fixed) -> Color {
        self.times(other)
    }
}

impl core::ops::Mul<Color> for Fixed {
    type Output = Color;

    fn mul(self, other: Color) -> (c: Color) {
        Color { r: self * other.r, g: self * other.g, b: self * other.b }
    }
}

impl vstd::std_specs::ops::MulSpecImpl<Color> for Fixed {
    open spec fn obeys_mul_spec() -> bool {
        true
    }

    open spec fn mul_req(self, other: Color) -> bool {
        true
    }

    open spec fn mul_spec(self, other: Color) -> Color {
        other.times(self)
    }
}

impl core::ops::Div<Fixed> for Color {
    type Output = Color;

    fn div(self, other: Fixed) -> (c: Color) {
        Color { r: self.r / other, g: self.g / other, b: self.b / other }
    }
}

impl vstd::std_specs::ops::DivSpecImpl<Fixed> for Color {
    open spec fn obeys_div_spec() -> bool {
        true
    }

    open spec fn div_req(self, other: Fixed) -> bool {
        true
    }

    open spec fn div_spec(self, other: Fixed) -> Color {
        self.over(other)
    }
}

} // verus!
