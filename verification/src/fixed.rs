//! Fixed-point real numbers.
//!
//! Every quantity of the renderer (coordinates, ray parameters, colour
//! channels) is a [`Fixed`]: a signed 64-bit count of steps of `2^-32`. The
//! range is a little over ±2·10⁹, the resolution a little under 2.4·10⁻¹⁰.
//! Sums saturate at the ends of the range; products, quotients and roots
//! round toward zero and saturate. No operation can fail.

use vstd::prelude::*;

verus! {

/// Number of grid steps in the value one: `2^32`.
pub const SCALE: i64 = 0x1_0000_0000;

/// A real number on the grid of step `2^-32`. `raw` counts the steps.
#[derive(Clone, Copy, Debug, PartialEq, Eq, Structural, PartialOrd, Ord, Hash)]
pub struct Fixed {
    pub raw: i64,
}

/// The count nearest to `v` that a `Fixed` can hold.
pub open spec fn saturate(v: int) -> int {
    if v < i64::MIN as int {
        i64::MIN as int
    } else if v > i64::MAX as int {
        i64::MAX as int
    } else {
        v
    }
}

/// The quotient `n / d` rounded toward zero, for `d != 0`.
pub open spec fn quotient_toward_zero(n: int, d: int) -> int {
    if n >= 0 && d > 0 {
        n / d
    } else if n >= 0 {
        -(n / (-d))
    } else if d > 0 {
        -((-n) / d)
    } else {
        (-n) / (-d)
    }
}

/// `r` is the integer square root of `n`: the largest integer whose square
/// does not exceed `n`.
pub open spec fn is_floor_sqrt(n: int, r: int) -> bool {
    0 <= r && r * r <= n < (r + 1) * (r + 1)
}

/// The integer square root of `n`, for `n >= 0`.
pub open spec fn floor_sqrt(n: int) -> int {
    choose|r: int| is_floor_sqrt(n, r)
}

/// A number has at most one integer square root.
pub proof fn lemma_floor_sqrt_unique(n: int, r1: int, r2: int)
    requires
        is_floor_sqrt(n, r1),
        is_floor_sqrt(n, r2),
    ensures
        r1 == r2,
{
    if r1 < r2 {
        assert((r1 + 1) * (r1 + 1) <= r2 * r2) by (nonlinear_arith)
            requires
                0 <= r1,
                r1 + 1 <= r2,
        ;
    } else if r2 < r1 {
        assert((r2 + 1) * (r2 + 1) <= r1 * r1) by (nonlinear_arith)
            requires
                0 <= r2,
                r2 + 1 <= r1,
        ;
    }
}

/// The integer square root of `n`.
pub fn isqrt(n: u128) -> (r: u64)
    ensures
        is_floor_sqrt(n as int, r as int),
        r == floor_sqrt(n as int),
{
    let mut lo: u128 = 0;
    let mut hi: u128 = 0x1_0000_0000_0000_0000;
    assert(lo * lo <= n < hi * hi) by (nonlinear_arith)
        requires
            lo == 0,
            hi == 0x1_0000_0000_0000_0000,
            n <= u128::MAX,
    ;
    while hi - lo > 1
        invariant
            lo < hi <= 0x1_0000_0000_0000_0000,
            lo * lo <= n < hi * hi,
        decreases hi - lo,
    {
        let mid: u128 = lo + (hi - lo) / 2;
        assert(mid * mid <= 0xffff_ffff_ffff_ffff * 0xffff_ffff_ffff_ffff) by (nonlinear_arith)
            requires
                0 <= mid <= 0xffff_ffff_ffff_ffff,
        ;
        if mid * mid <= n {
            lo = mid;
        } else {
            hi = mid;
        }
    }
    proof {
        assert(hi == lo + 1);
        assert(is_floor_sqrt(n as int, lo as int));
        lemma_floor_sqrt_unique(n as int, lo as int, floor_sqrt(n as int));
    }
    lo as u64
}

fn clamp(v: i128) -> (r: i64)
    ensures
        r == saturate(v as int),
{
    if v > i64::MAX as i128 {
        i64::MAX
    } else if v < i64::MIN as i128 {
        i64::MIN
    } else {
        v as i64
    }
}

fn divide_toward_zero(n: i128, d: i128) -> (q: i128)
    requires
        d != 0,
        i128::MIN < n,
        i128::MIN < d,
    ensures
        q == quotient_toward_zero(n as int, d as int),
{
    let nn: u128 = if n < 0 {
        (-n) as u128
    } else {
        n as u128
    };
    let dd: u128 = if d < 0 {
        (-d) as u128
    } else {
        d as u128
    };
    let m: u128 = nn / dd;
    assert(m <= nn) by (nonlinear_arith)
        requires
            m == nn / dd,
            dd >= 1,
    ;
    if (n < 0) != (d < 0) {
        -(m as i128)
    } else {
        m as i128
    }
}

impl Fixed {
    /// The sum, saturated.
    pub open spec fn plus(self, other: Fixed) -> Fixed {
        Fixed { raw: saturate(self.raw + other.raw) as i64 }
    }

    /// The difference, saturated.
    pub open spec fn minus(self, other: Fixed) -> Fixed {
        Fixed { raw: saturate(self.raw - other.raw) as i64 }
    }

    /// The opposite, saturated (only the least value has none).
    pub open spec fn negated(self) -> Fixed {
        Fixed { raw: saturate(-self.raw) as i64 }
    }

    /// The product, rounded toward zero and saturated.
    pub open spec fn times(self, other: Fixed) -> Fixed {
        Fixed { raw: saturate(quotient_toward_zero(self.raw * other.raw, SCALE as int)) as i64 }
    }

    /// The quotient, rounded toward zero and saturated. A non-zero number
    /// over zero is the end of the range on its own side; zero over zero is
    /// zero.
    pub open spec fn over(self, other: Fixed) -> Fixed {
        if other.raw == 0 {
            Fixed {
                raw: if self.raw > 0 {
                    i64::MAX
                } else if self.raw < 0 {
                    i64::MIN
                } else {
                    0
                },
            }
        } else {
            Fixed {
                raw: saturate(quotient_toward_zero(self.raw * SCALE, other.raw as int)) as i64,
            }
        }
    }

    /// The square root, rounded toward zero; zero for a number that is not
    /// positive.
    pub open spec fn root(self) -> Fixed {
        if self.raw <= 0 {
            Fixed { raw: 0 }
        } else {
            Fixed { raw: floor_sqrt(self.raw * SCALE) as i64 }
        }
    }

    /// One with the sign of the number; zero counts as positive.
    pub open spec fn sign(self) -> Fixed {
        if self.raw < 0 {
            Fixed::whole(-1)
        } else {
            Fixed::whole(1)
        }
    }

    /// The product of `n` factors equal to the number, taken from the left,
    /// starting from one.
    pub open spec fn power(self, n: nat) -> Fixed
        decreases n,
    {
        if n == 0 {
            Fixed::whole(1)
        } else {
            self.power((n - 1) as nat).times(self)
        }
    }

    /// The whole number `n`.
    pub open spec fn whole(n: int) -> Fixed {
        Fixed { raw: (n * SCALE) as i64 }
    }

    /// The fraction `num / den` on the grid.
    pub open spec fn ratio(num: int, den: int) -> Fixed {
        Fixed { raw: num as i64 }.over(Fixed { raw: den as i64 })
    }

    /// The greatest value; it stands for an unbounded ray parameter.
    pub open spec fn greatest() -> Fixed {
        Fixed { raw: i64::MAX }
    }

    /// Zero.
    pub fn zero() -> (r: Fixed)
        ensures
            r == Fixed::whole(0),
    {
        Fixed { raw: 0 }
    }

    /// One.
    pub fn one() -> (r: Fixed)
        ensures
            r == Fixed::whole(1),
    {
        Fixed { raw: SCALE }
    }

    /// The greatest value.
    pub fn max_value() -> (r: Fixed)
        ensures
            r == Fixed::greatest(),
    {
        Fixed { raw: i64::MAX }
    }

    /// The whole number `n`, exactly.
    pub fn from_int(n: i32) -> (r: Fixed)
        ensures
            r == Fixed::whole(n as int),
    {
        Fixed { raw: (n as i64) * SCALE }
    }

    /// The fraction `num / den`, rounded toward zero.
    pub fn from_ratio(num: i64, den: i64) -> (r: Fixed)
        ensures
            r == Fixed::ratio(num as int, den as int),
    {
        Fixed { raw: num } / Fixed { raw: den }
    }

    /// One with the sign of the number; zero counts as positive.
    pub fn signum(self) -> (r: Fixed)
        ensures
            r == self.sign(),
    {
        if self.raw < 0 {
            Fixed { raw: -SCALE }
        } else {
            Fixed { raw: SCALE }
        }
    }

    /// The `n`-th power, each product rounded toward zero.
    pub fn powi(self, n: u32) -> (r: Fixed)
        ensures
            r == self.power(n as nat),
    {
        let mut r = Fixed::one();
        let mut i: u32 = 0;
        while i < n
            invariant
                i <= n,
                r == self.power(i as nat),
            decreases n - i,
        {
            r = r * self;
            i = i + 1;
        }
        r
    }

    /// The square root, rounded toward zero.
    pub fn sqrt(self) -> (r: Fixed)
        ensures
            r == self.root(),
    {
        if self.raw <= 0 {
            Fixed { raw: 0 }
        } else {
            let n: u128 = (self.raw as u128) * (SCALE as u128);
            let r: u64 = isqrt(n);
            proof {
                lemma_root_bound(self.raw as int, r as int);
            }
            Fixed { raw: r as i64 }
        }
    }
}

/// The root of a positive count scaled by `2^32` fits in 48 bits, and is
/// not zero.
pub proof fn lemma_root_bound(raw: int, r: int)
    requires
        0 < raw <= i64::MAX,
        is_floor_sqrt(raw * SCALE, r),
    ensures
        0x1_0000 <= r < 0x1_0000_0000_0000,
{
    if r >= 0x1_0000_0000_0000 {
        assert(r * r >= 0x1_0000_0000_0000 * 0x1_0000_0000_0000) by (nonlinear_arith)
            requires
                r >= 0x1_0000_0000_0000,
        ;
    }
    if r < 0x1_0000 {
        assert((r + 1) * (r + 1) <= 0x1_0000 * 0x1_0000) by (nonlinear_arith)
            requires
                0 <= r,
                r + 1 <= 0x1_0000,
        ;
    }
}

/// Whether `b` lies on the side of zero on which `a` lies, or is zero: it
/// is zero if `a` is, and never of the opposite sign.
pub open spec fn same_side(a: Fixed, b: Fixed) -> bool {
    &&& a.raw > 0 ==> b.raw >= 0
    &&& a.raw < 0 ==> b.raw <= 0
    &&& a.raw == 0 ==> b.raw == 0
}

/// One times a number is the number, and minus one times a number is its
/// opposite, without rounding.
pub proof fn lemma_times_unit(a: Fixed)
    ensures
        Fixed::whole(1).times(a) == a,
        Fixed::whole(-1).times(a) == a.negated(),
{
    let n = a.raw as int;
    let s = SCALE as int;
    assert((s * n) / s == n && ((-s) * n) == -(s * n) && (s * (-n)) / s == -n)
        by (nonlinear_arith)
        requires
            s == 0x1_0000_0000,
    ;
    assert(Fixed::whole(1).raw == s);
    assert(Fixed::whole(-1).raw == -s);
    assert(Fixed::whole(1).raw * a.raw == s * n);
    assert(Fixed::whole(-1).raw * a.raw == (-s) * n);
    if n >= 0 {
        assert(s * n >= 0) by (nonlinear_arith)
            requires
                s > 0,
                n >= 0,
        ;
    } else {
        assert(s * n < 0 && -(s * n) == s * (-n)) by (nonlinear_arith)
            requires
                s > 0,
                n < 0,
        ;
    }
}

/// A square root is not negative, and is zero only for a number that is
/// not positive.
pub proof fn lemma_root_sign(a: Fixed)
    ensures
        a.root().raw >= 0,
        a.raw > 0 ==> a.root().raw > 0,
{
    if a.raw > 0 {
        let n = a.raw * SCALE;
        assert(n >= 0x1_0000_0000) by (nonlinear_arith)
            requires
                n == a.raw * SCALE,
                a.raw >= 1,
                SCALE == 0x1_0000_0000,
        ;
        lemma_floor_sqrt_exists(n);
        lemma_root_bound(a.raw as int, floor_sqrt(n));
    }
}

/// Every number that is not negative has an integer square root, so
/// `floor_sqrt` is one.
pub proof fn lemma_floor_sqrt_exists(n: int)
    requires
        n >= 0,
    ensures
        is_floor_sqrt(n, floor_sqrt(n)),
    decreases n,
{
    if n == 0 {
        assert(is_floor_sqrt(0, 0));
    } else {
        lemma_floor_sqrt_exists(n - 1);
        let r = floor_sqrt(n - 1);
        if (r + 1) * (r + 1) <= n {
            assert((r + 2) * (r + 2) > (r + 1) * (r + 1)) by (nonlinear_arith)
                requires
                    r >= 0,
            ;
            assert(is_floor_sqrt(n, r + 1));
        } else {
            assert(is_floor_sqrt(n, r));
        }
    }
}

/// A quotient by a number that is not negative lies on the side of zero
/// where the dividend lies, or is zero.
pub proof fn lemma_over_side(a: Fixed, b: Fixed)
    requires
        b.raw >= 0,
    ensures
        same_side(a, a.over(b)),
{
    if b.raw > 0 {
        let s = SCALE as int;
        let n = a.raw as int;
        let d = b.raw as int;
        if n > 0 {
            assert(n * s >= 0) by (nonlinear_arith)
                requires
                    n > 0,
                    s > 0,
            ;
            vstd::arithmetic::div_mod::lemma_div_pos_is_pos(n * s, d);
        } else if n < 0 {
            assert(n * s < 0 && -(n * s) >= 0) by (nonlinear_arith)
                requires
                    n < 0,
                    s > 0,
            ;
            vstd::arithmetic::div_mod::lemma_div_pos_is_pos(-(n * s), d);
        } else {
            assert(n * s == 0) by (nonlinear_arith)
                requires
                    n == 0,
            ;
            vstd::arithmetic::div_mod::lemma_div_of0(d);
        }
    }
}

/// The magnitude of `v`.
pub open spec fn magnitude(v: int) -> int {
    if v < 0 {
        -v
    } else {
        v
    }
}

/// The square of a number is the square of the magnitude of its count over
/// the count of one, saturated; it is not negative.
pub proof fn lemma_times_self(a: Fixed)
    ensures
        a.times(a).raw == saturate(
            (magnitude(a.raw as int) * magnitude(a.raw as int)) / (SCALE as int),
        ),
        a.times(a).raw >= 0,
{
    let r = a.raw as int;
    let m = magnitude(r);
    assert(r * r == m * m && m * m >= 0) by (nonlinear_arith)
        requires
            m == r || m == -r,
    ;
    vstd::arithmetic::div_mod::lemma_div_pos_is_pos(m * m, SCALE as int);
}

/// The quotient of a number by a positive one has the sign of the number,
/// and as magnitude the magnitude of the number's count times the count of
/// one over the divisor's count, before saturation.
pub proof fn lemma_over_magnitude(a: Fixed, b: Fixed)
    requires
        b.raw > 0,
    ensures
        ({
            let q = (magnitude(a.raw as int) * SCALE) / (b.raw as int);
            &&& q >= 0
            &&& a.over(b).raw == saturate(if a.raw < 0 { -q } else { q })
        }),
{
    let r = a.raw as int;
    let m = magnitude(r);
    let s = SCALE as int;
    assert(m * s >= 0 && (r >= 0 ==> r * s == m * s) && (r < 0 ==> -(r * s) == m * s && r * s
        < 0)) by (nonlinear_arith)
        requires
            m == magnitude(r),
            s == 0x1_0000_0000,
    ;
    vstd::arithmetic::div_mod::lemma_div_pos_is_pos(m * s, b.raw as int);
}

impl core::ops::Add for Fixed {
    type Output = Fixed;

    fn add(self, other: Fixed) -> (r: Fixed) {
        Fixed { raw: clamp(self.raw as i128 + other.raw as i128) }
    }
}

impl vstd::std_specs::ops::AddSpecImpl for Fixed {
    open spec fn obeys_add_spec() -> bool {
        true
    }

    open spec fn add_req(self, other: Fixed) -> bool {
        true
    }

    open spec fn add_spec(self, other: Fixed) -> Fixed {
        self.plus(other)
    }
}

impl core::ops::Sub for Fixed {
    type Output = Fixed;

    fn sub(self, other: Fixed) -> (r: Fixed) {
        Fixed { raw: clamp(self.raw as i128 - other.raw as i128) }
    }
}

impl vstd::std_specs::ops::SubSpecImpl for Fixed {
    open spec fn obeys_sub_spec() -> bool {
        true
    }

    open spec fn sub_req(self, other: Fixed) -> bool {
        true
    }

    open spec fn sub_spec(self, other: Fixed) -> Fixed {
        self.minus(other)
    }
}

impl core::ops::Neg for Fixed {
    type Output = Fixed;

    fn neg(self) -> (r: Fixed) {
        Fixed { raw: clamp(-(self.raw as i128)) }
    }
}

impl vstd::std_specs::ops::NegSpecImpl for Fixed {
    open spec fn obeys_neg_spec() -> bool {
        true
    }

    open spec fn neg_req(self) -> bool {
        true
    }

    open spec fn neg_spec(self) -> Fixed {
        self.negated()
    }
}

impl core::ops::Mul for Fixed {
    type Output = Fixed;

    fn mul(self, other: Fixed) -> (r: Fixed) {
        let a: i128 = self.raw as i128;
        let b: i128 = other.raw as i128;
        assert(-0x4000_0000_0000_0000_0000_0000_0000_0000 <= a * b
            <= 0x4000_0000_0000_0000_0000_0000_0000_0000) by (nonlinear_arith)
            requires
                -0x8000_0000_0000_0000 <= a <= 0x8000_0000_0000_0000,
                -0x8000_0000_0000_0000 <= b <= 0x8000_0000_0000_0000,
        ;
        Fixed { raw: clamp(divide_toward_zero(a * b, SCALE as i128)) }
    }
}

impl vstd::std_specs::ops::MulSpecImpl for Fixed {
    open spec fn obeys_mul_spec() -> bool {
        true
    }

    open spec fn mul_req(self, other: Fixed) -> bool {
        true
    }

    open spec fn mul_spec(self, other: Fixed) -> Fixed {
        self.times(other)
    }
}

impl core::ops::Div for Fixed {
    type Output = Fixed;

    fn div(self, other: Fixed) -> (r: Fixed) {
        if other.raw == 0 {
            if self.raw > 0 {
                Fixed { raw: i64::MAX }
            } else if self.raw < 0 {
                Fixed { raw: i64::MIN }
            } else {
                Fixed { raw: 0 }
            }
        } else {
            let n: i128 = (self.raw as i128) * (SCALE as i128);
            Fixed { raw: clamp(divide_toward_zero(n, other.raw as i128)) }
        }
    }
}

impl vstd::std_specs::ops::DivSpecImpl for Fixed {
    open spec fn obeys_div_spec() -> bool {
        true
    }

    open spec fn div_req(self, other: Fixed) -> bool {
        true
    }

    open spec fn div_spec(self, other: Fixed) -> Fixed {
        self.over(other)
    }
}

} // verus!
