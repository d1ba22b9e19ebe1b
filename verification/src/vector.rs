//! Displacements and directions in space.

use crate::fixed::{
    floor_sqrt, is_floor_sqrt, lemma_floor_sqrt_exists, lemma_over_magnitude, lemma_root_bound,
    lemma_times_self, magnitude, Fixed, SCALE,
};
use crate::point::Point;
use core::ops::Neg;
use vstd::prelude::*;

verus! {

/// A displacement or direction.
#[derive(Clone, Copy, Debug, PartialEq, Eq, Structural)]
pub struct Vector3 {
    pub x: Fixed,
    pub y: Fixed,
    pub z: Fixed,
}

impl Vector3 {
    /// The sum, component by component.
    pub open spec fn plus(self, other: Vector3) -> Vector3 {
        Vector3 { x: self.x.plus(other.x), y: self.y.plus(other.y), z: self.z.plus(other.z) }
    }

    /// The difference, component by component.
    pub open spec fn minus(self, other: Vector3) -> Vector3 {
        Vector3 { x: self.x.minus(other.x), y: self.y.minus(other.y), z: self.z.minus(other.z) }
    }

    /// The opposite vector.
    pub open spec fn negated(self) -> Vector3 {
        Vector3 { x: self.x.negated(), y: self.y.negated(), z: self.z.negated() }
    }

    /// Each component multiplied by `k`.
    pub open spec fn times(self, k: Fixed) -> Vector3 {
        Vector3 { x: k.times(self.x), y: k.times(self.y), z: k.times(self.z) }
    }

    /// Each component divided by `k`.
    pub open spec fn over(self, k: Fixed) -> Vector3 {
        Vector3 { x: self.x.over(k), y: self.y.over(k), z: self.z.over(k) }
    }

    /// The vector whose components are all zero.
    pub open spec fn spec_zero() -> Vector3 {
        Vector3 { x: Fixed::whole(0), y: Fixed::whole(0), z: Fixed::whole(0) }
    }

    /// The scalar product: the three products summed from left to right.
    pub open spec fn spec_dot(&self, other: &Vector3) -> Fixed {
        self.x.times(other.x).plus(self.y.times(other.y)).plus(self.z.times(other.z))
    }

    /// The squared length.
    pub open spec fn spec_norm(&self) -> Fixed {
        self.spec_dot(self)
    }

    /// The length: the root of the squared length.
    pub open spec fn spec_length(&self) -> Fixed {
        self.spec_norm().root()
    }

    /// The vector divided by its length.
    pub open spec fn spec_normalize(&self) -> Vector3 {
        self.over(self.spec_length())
    }

    /// The vector product.
    pub open spec fn spec_cross(&self, other: &Vector3) -> Vector3 {
        Vector3 {
            x: self.y.times(other.z).minus(self.z.times(other.y)),
            y: self.z.times(other.x).minus(self.x.times(other.z)),
            z: self.x.times(other.y).minus(self.y.times(other.x)),
        }
    }

    #[verifier::when_used_as_spec(spec_zero)]
    pub fn zero() -> (r: Vector3)
        ensures
            r == Vector3::spec_zero(),
    {
        Vector3 { x: Fixed::zero(), y: Fixed::zero(), z: Fixed::zero() }
    }

    #[verifier::when_used_as_spec(spec_dot)]
    pub fn dot(&self, other: &Vector3) -> (r: Fixed)
        ensures
            r == self.spec_dot(other),
    {
        self.x * other.x + self.y * other.y + self.z * other.z
    }

    #[verifier::when_used_as_spec(spec_norm)]
    pub fn norm(&self) -> (r: Fixed)
        ensures
            r == self.spec_norm(),
    {
        self.dot(self)
    }

    #[verifier::when_used_as_spec(spec_length)]
    pub fn length(&self) -> (r: Fixed)
        ensures
            r == self.spec_length(),
    {
        self.norm().sqrt()
    }

    #[verifier::when_used_as_spec(spec_normalize)]
    pub fn normalize(&self) -> (r: Vector3)
        ensures
            r == self.spec_normalize(),
    {
        let len = self.length();
        Vector3 { x: self.x / len, y: self.y / len, z: self.z / len }
    }

    #[verifier::when_used_as_spec(spec_cross)]
    pub fn cross(&self, other: &Vector3) -> (r: Vector3)
        ensures
            r == self.spec_cross(other),
    {
        Vector3 {
            x: self.y * other.z - self.z * other.y,
            y: self.z * other.x - self.x * other.z,
            z: self.x * other.y - self.y * other.x,
        }
    }
}

/// How far above one the squared length of a normalised vector may lie, in
/// steps of `2^-32`, if the vector is at least `1/k` long.
pub open spec fn unit_excess(k: int) -> int {
    3 * k * k + 3 * k - 1
}

/// A vector at least one long, whose squared length is in range, is
/// normalised to a vector of squared length one, within nine steps of
/// `2^-32` below and five above.
pub proof fn lemma_normalize_unit(v: Vector3)
    requires
        v.length().raw >= SCALE,
        v.norm().raw < i64::MAX,
    ensures
        SCALE - 9 <= v.normalize().norm().raw <= SCALE + 5,
{
    lemma_normalize_near_unit(v, 1);
}

/// A vector at least `1/k` long, whose squared length is in range, is
/// normalised to a vector of squared length one, within nine steps of
/// `2^-32` below and `unit_excess(k)` above. The shorter the vector, the
/// more its own rounding weighs. No component of the normalised vector
/// exceeds one by more than that and a step.
pub proof fn lemma_normalize_near_unit(v: Vector3, k: int)
    requires
        1 <= k <= 0x1000,
        v.length().raw * k >= SCALE,
        v.norm().raw < i64::MAX,
    ensures
        SCALE - 9 <= v.normalize().norm().raw <= SCALE + unit_excess(k),
        magnitude(v.normalize().x.raw as int) <= SCALE + unit_excess(k) + 1,
        magnitude(v.normalize().y.raw as int) <= SCALE + unit_excess(k) + 1,
        magnitude(v.normalize().z.raw as int) <= SCALE + unit_excess(k) + 1,
{
    let s = SCALE as int;
    let x = magnitude(v.x.raw as int);
    let y = magnitude(v.y.raw as int);
    let z = magnitude(v.z.raw as int);
    lemma_times_self(v.x);
    lemma_times_self(v.y);
    lemma_times_self(v.z);
    // nothing saturates on the way to the squared length
    let n = (x * x) / s + (y * y) / s + (z * z) / s;
    assert(v.norm().raw == n);
    let len = v.length();
    assert(len.raw > 0) by (nonlinear_arith)
        requires
            len.raw * k >= 0x1_0000_0000,
            k >= 1,
    ;
    assert(n > 0);
    lemma_floor_sqrt_exists(n * s);
    lemma_root_bound(n, floor_sqrt(n * s));
    let l = len.raw as int;
    assert(is_floor_sqrt(n * s, l));
    let a = (x * s) / l;
    let b = (y * s) / l;
    let c = (z * s) / l;
    lemma_unit_counts(x, y, z, l, a, b, c, k);
    assert(0 <= unit_excess(k) <= 0x4000_0000) by (nonlinear_arith)
        requires
            1 <= k <= 0x1000,
    ;
    lemma_over_magnitude(v.x, len);
    lemma_over_magnitude(v.y, len);
    lemma_over_magnitude(v.z, len);
    let u = v.normalize();
    assert(magnitude(u.x.raw as int) == a);
    assert(magnitude(u.y.raw as int) == b);
    assert(magnitude(u.z.raw as int) == c);
    lemma_times_self(u.x);
    lemma_times_self(u.y);
    lemma_times_self(u.z);
    vstd::arithmetic::div_mod::lemma_div_pos_is_pos(a * a, s);
    vstd::arithmetic::div_mod::lemma_div_pos_is_pos(b * b, s);
    vstd::arithmetic::div_mod::lemma_div_pos_is_pos(c * c, s);
    assert(a * a >= 0 && b * b >= 0 && c * c >= 0) by (nonlinear_arith);
}

/// The arithmetic behind `lemma_normalize_near_unit`, on the magnitudes of
/// the counts: `x`, `y`, `z` of the components, `l` of the length, `a`, `b`,
/// `c` of the normalised components.
proof fn lemma_unit_counts(x: int, y: int, z: int, l: int, a: int, b: int, c: int, k: int)
    requires
        0 <= x,
        0 <= y,
        0 <= z,
        1 <= k <= 0x1000,
        l * k >= SCALE,
        is_floor_sqrt(((x * x) / (SCALE as int) + (y * y) / (SCALE as int) + (z * z) / (
        SCALE as int)) * SCALE, l),
        a == (x * SCALE) / l,
        b == (y * SCALE) / l,
        c == (z * SCALE) / l,
    ensures
        SCALE - 9 <= (a * a) / (SCALE as int) + (b * b) / (SCALE as int) + (c * c) / (
        SCALE as int) <= SCALE + unit_excess(k),
        0 <= a <= SCALE + unit_excess(k) + 1,
        0 <= b <= SCALE + unit_excess(k) + 1,
        0 <= c <= SCALE + unit_excess(k) + 1,
{
    let s: int = 0x1_0000_0000;
    let e = unit_excess(k) + 1;
    assert(6 <= e <= 0x400_0000 && e == 3 * (k * k) + 3 * k) by (nonlinear_arith)
        requires
            1 <= k <= 0x1000,
            e == 3 * k * k + 3 * k,
    ;
    assert(l >= 1) by (nonlinear_arith)
        requires
            l * k >= s,
            k >= 1,
            s > 0,
    ;
    let xx = x * x;
    let yy = y * y;
    let zz = z * z;
    let q = xx + yy + zz;
    let n = xx / s + yy / s + zz / s;
    let ll = l * l;
    assert(xx >= 0 && yy >= 0 && zz >= 0) by (nonlinear_arith)
        requires
            xx == x * x,
            yy == y * y,
            zz == z * z,
    ;
    // the squared length counts the sum of the squares, short of three steps
    assert(n * s <= q < n * s + 3 * s);
    // so the length squared is the sum of the squares, nearly
    assert((l + 1) * (l + 1) == ll + 2 * l + 1) by (nonlinear_arith)
        requires
            ll == l * l,
    ;
    assert(ll <= q < ll + 2 * l + 1 + 3 * s);
    // s <= k l, so s l <= k l², s <= k l² and s² <= k² l²
    let kl = k * l;
    assert(kl >= s && kl * l == k * ll && kl * kl == (k * k) * ll && ll >= l && ll >= 1)
        by (nonlinear_arith)
        requires
            kl == k * l,
            l * k >= s,
            ll == l * l,
            l >= 1,
    ;
    assert(s * l <= kl * l && s * s <= kl * kl && s <= k * ll) by (nonlinear_arith)
        requires
            0 < s <= kl,
            l >= 1,
            kl * l == k * ll,
            ll >= l,
            k >= 1,
            kl == k * l,
    ;
    // each normalised count times the length is the component's count times
    // one, short of one length
    assert(x * s >= 0 && y * s >= 0 && z * s >= 0) by (nonlinear_arith)
        requires
            x >= 0,
            y >= 0,
            z >= 0,
            s > 0,
    ;
    lemma_quotient_bounds(x * s, l);
    lemma_quotient_bounds(y * s, l);
    lemma_quotient_bounds(z * s, l);
    let aa = a * a;
    let bb = b * b;
    let cc = c * c;
    lemma_square_below(a, l, x, s);
    lemma_square_below(b, l, y, s);
    lemma_square_below(c, l, z, s);
    let ss = s * s;
    assert(ss == 0x1_0000_0000_0000_0000) by (nonlinear_arith)
        requires
            ss == s * s,
            s == 0x1_0000_0000,
    ;
    // above: (aa + bb + cc) * ll <= ss * q < (ss + e s) * ll
    assert((aa + bb + cc) * ll == aa * ll + bb * ll + cc * ll) by (nonlinear_arith);
    assert(ss * q == xx * ss + yy * ss + zz * ss) by (nonlinear_arith)
        requires
            q == xx + yy + zz,
    ;
    assert(ss * q < ss * (ll + 2 * l + 1 + 3 * s));
    let kk = k * k;
    assert(2 * l * s + s + 3 * ss <= 2 * (k * ll) + k * ll + 3 * (kk * ll));
    assert(2 * (k * ll) + k * ll + 3 * (kk * ll) == e * ll) by (nonlinear_arith)
        requires
            e == 3 * kk + 3 * k,
    ;
    assert(ss * (2 * l + 1 + 3 * s) == s * (2 * l * s + s + 3 * ss)) by (nonlinear_arith)
        requires
            ss == s * s,
    ;
    assert(s * (2 * l * s + s + 3 * ss) <= s * (e * ll)) by (nonlinear_arith)
        requires
            2 * l * s + s + 3 * ss <= e * ll,
            s > 0,
    ;
    assert(ss * (ll + 2 * l + 1 + 3 * s) == ss * ll + ss * (2 * l + 1 + 3 * s))
        by (nonlinear_arith);
    assert((ss + e * s) * ll == ss * ll + s * (e * ll)) by (nonlinear_arith);
    assert((aa + bb + cc) * ll < (ss + e * s) * ll);
    assert(aa + bb + cc < ss + e * s) by (nonlinear_arith)
        requires
            (aa + bb + cc) * ll < (ss + e * s) * ll,
            ll > 0,
    ;
    assert(aa >= 0 && bb >= 0 && cc >= 0) by (nonlinear_arith)
        requires
            aa == a * a,
            bb == b * b,
            cc == c * c,
    ;
    lemma_below_root(a, aa, s, e);
    lemma_below_root(b, bb, s, e);
    lemma_below_root(c, cc, s, e);
    // below: ((a+1)² + (b+1)² + (c+1)²) * ll > ss * q >= ss * ll
    assert((a + 1) * l == a * l + l && (b + 1) * l == b * l + l && (c + 1) * l == c * l + l)
        by (nonlinear_arith);
    lemma_square_above(a, l, x, s);
    lemma_square_above(b, l, y, s);
    lemma_square_above(c, l, z, s);
    let a1 = (a + 1) * (a + 1);
    let b1 = (b + 1) * (b + 1);
    let c1 = (c + 1) * (c + 1);
    assert((a1 + b1 + c1) * ll == a1 * ll + b1 * ll + c1 * ll) by (nonlinear_arith);
    assert((a1 + b1 + c1) * ll > ss * q);
    assert(ss * q >= ss * ll);
    assert(a1 + b1 + c1 > ss) by (nonlinear_arith)
        requires
            (a1 + b1 + c1) * ll > ss * ll,
            ll > 0,
    ;
    assert(a1 == aa + 2 * a + 1 && b1 == bb + 2 * b + 1 && c1 == cc + 2 * c + 1)
        by (nonlinear_arith)
        requires
            a1 == (a + 1) * (a + 1),
            b1 == (b + 1) * (b + 1),
            c1 == (c + 1) * (c + 1),
            aa == a * a,
            bb == b * b,
            cc == c * c,
    ;
    assert(aa + bb + cc > ss - 6 * s - 6 * e - 3);
    assert(aa / s * s <= aa < aa / s * s + s);
    assert(bb / s * s <= bb < bb / s * s + s);
    assert(cc / s * s <= cc < cc / s * s + s);
    let m = aa / s + bb / s + cc / s;
    assert(m * s <= aa + bb + cc < m * s + 3 * s);
    assert(m * s < s * s + e * s);
    assert(m < s + e) by (nonlinear_arith)
        requires
            m * s < s * s + e * s,
            s > 0,
    ;
    assert(m * s > s * s - 10 * s);
}

/// For `n >= 0` and `d > 0`, the quotient times `d` is `n`, short of one `d`.
proof fn lemma_quotient_bounds(n: int, d: int)
    requires
        0 <= n,
        0 < d,
    ensures
        0 <= n / d,
        (n / d) * d <= n < (n / d) * d + d,
{
    vstd::arithmetic::div_mod::lemma_remainder(n, d);
    vstd::arithmetic::div_mod::lemma_div_pos_is_pos(n, d);
}

/// From `a * l <= x * s` to `(a * a) * (l * l) <= (x * x) * (s * s)`.
proof fn lemma_square_below(a: int, l: int, x: int, s: int)
    by (nonlinear_arith)
    requires
        0 <= a,
        0 <= l,
        a * l <= x * s,
    ensures
        (a * a) * (l * l) <= (x * x) * (s * s),
{
    assert((a * l) * (a * l) <= (x * s) * (x * s));
    assert((a * l) * (a * l) == (a * a) * (l * l));
    assert((x * s) * (x * s) == (x * x) * (s * s));
}

/// From `x * s < (a + 1) * l` to `(x * x) * (s * s) < ((a + 1) * (a + 1)) *
/// (l * l)`.
proof fn lemma_square_above(a: int, l: int, x: int, s: int)
    by (nonlinear_arith)
    requires
        0 <= x,
        0 <= s,
        x * s < (a + 1) * l,
    ensures
        (x * x) * (s * s) < ((a + 1) * (a + 1)) * (l * l),
{
    assert((x * s) * (x * s) < ((a + 1) * l) * ((a + 1) * l));
    assert(((a + 1) * l) * ((a + 1) * l) == ((a + 1) * (a + 1)) * (l * l));
    assert((x * s) * (x * s) == (x * x) * (s * s));
}

/// A number whose square is below `s² + e·s` is below `s + e`.
proof fn lemma_below_root(a: int, aa: int, s: int, e: int)
    by (nonlinear_arith)
    requires
        0 <= a,
        aa == a * a,
        aa < s * s + e * s,
        s > 0,
        e > 0,
    ensures
        a <= s + e,
{
    if a > s + e {
        assert(a * a >= (s + e) * (s + e));
        assert((s + e) * (s + e) == s * s + 2 * (e * s) + e * e);
    }
}

impl Default for Vector3 {
    fn default() -> (r: Vector3)
        ensures
            r == Vector3::zero(),
    {
        Vector3::zero()
    }
}

impl core::ops::Add for Vector3 {
    type Output = Vector3;

    fn add(self, other: Vector3) -> (r: Vector3) {
        Vector3 { x: self.x + other.x, y: self.y + other.y, z: self.z + other.z }
    }
}

impl vstd::std_specs::ops::AddSpecImpl for Vector3 {
    open spec fn obeys_add_spec() -> bool {
        true
    }

    open spec fn add_req(self, other: Vector3) -> bool {
        true
    }

    open spec fn add_spec(self, other: Vector3) -> Vector3 {
        self.plus(other)
    }
}

impl core::ops::Sub for Vector3 {
    type Output = Vector3;

    fn sub(self, other: Vector3) -> (r: Vector3) {
        Vector3 { x: self.x - other.x, y: self.y - other.y, z: self.z - other.z }
    }
}

impl vstd::std_specs::ops::SubSpecImpl for Vector3 {
    open spec fn obeys_sub_spec() -> bool {
        true
    }

    open spec fn sub_req(self, other: Vector3) -> bool {
        true
    }

    open spec fn sub_spec(self, other: Vector3) -> Vector3 {
        self.minus(other)
    }
}

impl core::ops::Neg for Vector3 {
    type Output = Vector3;

    fn neg(self) -> (r: Vector3) {
        Vector3 { x: self.x.neg(), y: self.y.neg(), z: self.z.neg() }
    }
}

impl vstd::std_specs::ops::NegSpecImpl for Vector3 {
    open spec fn obeys_neg_spec() -> bool {
        true
    }

    open spec fn neg_req(self) -> bool {
        true
    }

    open spec fn neg_spec(self) -> Vector3 {
        self.negated()
    }
}

impl core::ops::Mul<Fixed> for Vector3 {
    type Output = Vector3;

    fn mul(self, other: Fixed) -> (r: Vector3) {
        Vector3 { x: other * self.x, y: other * self.y, z: other * self.z }
    }
}

impl vstd::std_specs::ops::MulSpecImpl<Fixed> for Vector3 {
    open spec fn obeys_mul_spec() -> bool {
        true
    }

    open spec fn mul_req(self, other: Fixed) -> bool {
        true
    }

    open spec fn mul_spec(self, other: Fixed) -> Vector3 {
        self.times(other)
    }
}

impl core::ops::Mul<Vector3> for Fixed {
    type Output = Vector3;

    fn mul(self, other: Vector3) -> (r: Vector3) {
        Vector3 { x: self * other.x, y: self * other.y, z: self * other.z }
    }
}

impl vstd::std_specs::ops::MulSpecImpl<Vector3> for Fixed {
    open spec fn obeys_mul_spec() -> bool {
        true
    }

    open spec fn mul_req(self, other: Vector3) -> bool {
        true
    }

    open spec fn mul_spec(self, other: Vector3) -> Vector3 {
        other.times(self)
    }
}

impl core::ops::Div<Fixed> for Vector3 {
    type Output = Vector3;

    fn div(self, other: Fixed) -> (r: Vector3) {
        Vector3 { x: self.x / other, y: self.y / other, z: self.z / other }
    }
}

impl vstd::std_specs::ops::DivSpecImpl<Fixed> for Vector3 {
    open spec fn obeys_div_spec() -> bool {
        true
    }

    open spec fn div_req(self, other: Fixed) -> bool {
        true
    }

    open spec fn div_spec(self, other: Fixed) -> Vector3 {
        self.over(other)
    }
}

impl From<Point> for Vector3 {
    fn from(pt: Point) -> (r: Vector3) {
        Vector3 { x: pt.x, y: pt.y, z: pt.z }
    }
}

impl vstd::std_specs::convert::FromSpecImpl<Point> for Vector3 {
    open spec fn obeys_from_spec() -> bool {
        true
    }

    open spec fn from_spec(pt: Point) -> Vector3 {
        pt.position()
    }
}

} // verus!
