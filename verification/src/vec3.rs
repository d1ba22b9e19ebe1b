//! A plain triple of numbers.

use crate::fixed::Fixed;
use vstd::prelude::*;

verus! {

/// Three numbers, read by index: its view is the sequence of the three.
/// Sums, differences and products go component by component.
#[derive(Clone, Copy, Debug, PartialEq)]
pub struct Vec3 {
    data: [Fixed; 3],
}

impl View for Vec3 {
    type V = Seq<Fixed>;

    closed spec fn view(&self) -> Seq<Fixed> {
        self.data@
    }
}

impl Vec3 {
    /// The triple of `x`, `y` and `z`.
    pub closed spec fn spec_new(x: Fixed, y: Fixed, z: Fixed) -> Vec3 {
        Vec3 { data: [x, y, z] }
    }

    /// The sum, component by component.
    pub open spec fn plus(self, other: Vec3) -> Vec3 {
        Vec3::new(self@[0].plus(other@[0]), self@[1].plus(other@[1]), self@[2].plus(other@[2]))
    }

    /// The difference, component by component.
    pub open spec fn minus(self, other: Vec3) -> Vec3 {
        Vec3::new(
            self@[0].minus(other@[0]),
            self@[1].minus(other@[1]),
            self@[2].minus(other@[2]),
        )
    }

    /// The product, component by component.
    pub open spec fn times(self, other: Vec3) -> Vec3 {
        Vec3::new(
            self@[0].times(other@[0]),
            self@[1].times(other@[1]),
            self@[2].times(other@[2]),
        )
    }

    /// The sum of the squares of the components, from left to right.
    pub open spec fn spec_squared_length(&self) -> Fixed {
        self@[0].times(self@[0]).plus(self@[1].times(self@[1])).plus(self@[2].times(self@[2]))
    }

    /// The root of the squared length.
    pub open spec fn spec_length(&self) -> Fixed {
        self.spec_squared_length().root()
    }

    /// The triple of `x`, `y` and `z`.
    #[verifier::when_used_as_spec(spec_new)]
    pub fn new(x: Fixed, y: Fixed, z: Fixed) -> (v: Vec3)
        ensures
            v == Vec3::spec_new(x, y, z),
            v@ == seq![x, y, z],
    {
        let v = Vec3 { data: [x, y, z] };
        assert(v@ =~= seq![x, y, z]);
        v
    }

    /// A triple has three components, and the triple made of `x`, `y` and
    /// `z` has these three.
    pub proof fn lemma_components(x: Fixed, y: Fixed, z: Fixed)
        ensures
            Vec3::new(x, y, z)@ == seq![x, y, z],
            forall|v: Vec3| (#[trigger] v@).len() == 3,
    {
        assert(Vec3::new(x, y, z)@ =~= seq![x, y, z]);
    }

    /// The length.
    #[verifier::when_used_as_spec(spec_length)]
    pub fn length(&self) -> (r: Fixed)
        ensures
            r == self.spec_length(),
    {
        (self[0] * self[0] + self[1] * self[1] + self[2] * self[2]).sqrt()
    }

    /// The squared length.
    #[verifier::when_used_as_spec(spec_squared_length)]
    pub fn squared_length(&self) -> (r: Fixed)
        ensures
            r == self.spec_squared_length(),
    {
        self[0] * self[0] + self[1] * self[1] + self[2] * self[2]
    }
}

impl core::ops::Index<usize> for Vec3 {
    type Output = Fixed;

    /// The component at `index`, which is 0, 1 or 2.
    fn index(&self, index: usize) -> (r: &Fixed)
        ensures
            *r == self@[index as int],
    {
        &self.data[index]
    }
}

impl vstd::std_specs::core::IndexSpecImpl<usize> for Vec3 {
    open spec fn index_req(&self, index: &usize) -> bool {
        *index < 3
    }
}

impl core::ops::Add for Vec3 {
    type Output = Vec3;

    fn add(self, other: Vec3) -> (v: Vec3) {
        Vec3::new(self[0] + other[0], self[1] + other[1], self[2] + other[2])
    }
}

impl vstd::std_specs::ops::AddSpecImpl for Vec3 {
    open spec fn obeys_add_spec() -> bool {
        true
    }

    open spec fn add_req(self, other: Vec3) -> bool {
        true
    }

    open spec fn add_spec(self, other: Vec3) -> Vec3 {
        self.plus(other)
    }
}

impl core::ops::Sub for Vec3 {
    type Output = Vec3;

    fn sub(self, other: Vec3) -> (v: Vec3) {
        Vec3::new(self[0] - other[0], self[1] - other[1], self[2] - other[2])
    }
}

impl vstd::std_specs::ops::SubSpecImpl for Vec3 {
    open spec fn obeys_sub_spec() -> bool {
        true
    }

    open spec fn sub_req(self, other: Vec3) -> bool {
        true
    }

    open spec fn sub_spec(self, other: Vec3) -> Vec3 {
        self.minus(other)
    }
}

impl core::ops::Mul for Vec3 {
    type Output = Vec3;

    fn mul(self, other: Vec3) -> (v: Vec3) {
        Vec3::new(self[0] * other[0], self[1] * other[1], self[2] * other[2])
    }
}

impl vstd::std_specs::ops::MulSpecImpl for Vec3 {
    open spec fn obeys_mul_spec() -> bool {
        true
    }

    open spec fn mul_req(self, other: Vec3) -> bool {
        true
    }

    open spec fn mul_spec(self, other: Vec3) -> Vec3 {
        self.times(other)
    }
}

} // verus!
