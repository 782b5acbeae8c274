//! Three-component vectors of fixed-point numbers, also used as colours.
use crate::isqrt::{floor_sqrt, isqrt, lemma_floor_sqrt_exists};
use core::ops::Neg;
use crate::scalar::{saturate, saturate_wide, trunc_div, trunc_div_wide, wide_limit, Scalar, SCALE};
use vstd::arithmetic::div_mod::{
    lemma_div_by_multiple, lemma_div_is_ordered, lemma_div_multiples_vanish_fancy,
    lemma_div_pos_is_pos,
};
use vstd::prelude::*;

verus! {

/// A vector `(e0, e1, e2)`, read as `(x, y, z)` in space and as `(r, g, b)`
/// for a colour.
#[derive(Clone, Copy, PartialEq, Eq, Structural, Debug)]
pub struct Vec3 {
    pub e0: Scalar,
    pub e1: Scalar,
    pub e2: Scalar,
}

/// The product of two raw values as a fixed-point raw value, rounded toward
/// zero and not yet saturated.
pub open spec fn raw_product(a: int, b: int) -> int {
    trunc_div(a * b, SCALE as int)
}

/// The product of two raw values, rounded toward zero, in a wide integer.
fn wide_product(a: i64, b: i64) -> (r: i128)
    ensures
        r == raw_product(a as int, b as int),
        -0x4000_0000_0000_0000_0000_0000_0000 <= r <= 0x4000_0000_0000_0000_0000_0000_0000,
{
    let x: i128 = a as i128;
    let y: i128 = b as i128;
    assert(-wide_limit() <= x * y <= wide_limit()) by (nonlinear_arith)
        requires
            -0x8000_0000_0000_0000 <= x <= 0x8000_0000_0000_0000,
            -0x8000_0000_0000_0000 <= y <= 0x8000_0000_0000_0000,
            wide_limit() == 0x8000_0000_0000_0000int * 0x8000_0000_0000_0000int,
    ;
    let q: i128 = trunc_div_wide(x * y, SCALE as i128);
    proof {
        lemma_raw_product_bound(a as int, b as int);
    }
    q
}

/// A rounded product of two 64-bit raw values stays below `2^94` in magnitude.
pub proof fn lemma_raw_product_bound(a: int, b: int)
    requires
        i64::MIN <= a <= i64::MAX,
        i64::MIN <= b <= i64::MAX,
    ensures
        -0x4000_0000_0000_0000_0000_0000_0000 <= raw_product(a, b)
            <= 0x4000_0000_0000_0000_0000_0000_0000,
{
    let p = a * b;
    assert(-wide_limit() <= p <= wide_limit()) by (nonlinear_arith)
        requires
            p == a * b,
            -0x8000_0000_0000_0000 <= a <= 0x8000_0000_0000_0000,
            -0x8000_0000_0000_0000 <= b <= 0x8000_0000_0000_0000,
            wide_limit() == 0x8000_0000_0000_0000int * 0x8000_0000_0000_0000int,
    ;
    let m = if p < 0 { -p } else { p };
    assert(m / 0x1_0000_0000 <= 0x4000_0000_0000_0000_0000_0000_0000) by (nonlinear_arith)
        requires
            0 <= m <= 0x4000_0000_0000_0000_0000_0000_0000int * 0x1_0000_0000,
    ;
    assert(m / 0x1_0000_0000 >= 0) by (nonlinear_arith)
        requires
            0 <= m,
    ;
}

/// Sums and differences of two moderate vectors are exact, so adding a vector and taking it away again changes
/// nothing.
pub proof fn lemma_plus_minus_cancel(a: Vec3, b: Vec3)
    requires
        a.is_moderate(),
        b.is_moderate(),
    ensures
        a.plus(b).minus(a) == b,
        a.plus(b.minus(a)) == b,
        a.minus(b).plus(b) == a,
{
}

/// The rounded square of a raw value is not negative.
pub proof fn lemma_raw_square_nonnegative(a: int)
    ensures
        raw_product(a, a) >= 0,
{
    assert(a * a >= 0) by (nonlinear_arith);
    lemma_div_pos_is_pos(a * a, SCALE as int);
}

/// The squared length of a vector is not negative.
pub proof fn lemma_squared_norm_nonnegative(v: Vec3)
    ensures
        v.squared_norm().raw >= 0,
{
    lemma_raw_square_nonnegative(v.e0.raw as int);
    lemma_raw_square_nonnegative(v.e1.raw as int);
    lemma_raw_square_nonnegative(v.e2.raw as int);
}

/// A raw value divided by a positive raw value that is at least as large in
/// magnitude, or smaller by one and above `SCALE`, gives at most one.
proof fn lemma_quotient_within_one(y: int, l: int)
    requires
        l > 0,
        -(l + 1) <= y <= l + 1,
        (y == l + 1 || y == -(l + 1)) ==> l > SCALE,
    ensures
        -SCALE <= trunc_div(y * SCALE, l) <= SCALE,
{
    let m = if y < 0 { -y } else { y };
    let s = SCALE as int;
    assert(crate::scalar::magnitude(y * s) == m * s && ((y * s < 0) <==> y < 0)) by (nonlinear_arith)
        requires
            m == if y < 0 { -y } else { y },
            s > 0,
    ;
    assert(0 <= m * s) by (nonlinear_arith)
        requires
            0 <= m,
            0 < s,
    ;
    lemma_div_pos_is_pos(m * s, l);
    if m <= l {
        assert(m * s <= s * l) by (nonlinear_arith)
            requires
                0 <= m <= l,
                0 < s,
        ;
        lemma_div_is_ordered(m * s, s * l, l);
        lemma_div_by_multiple(s, l);
    } else {
        assert(m * s == l * s + s) by (nonlinear_arith)
            requires
                m == l + 1,
        ;
        lemma_div_multiples_vanish_fancy(s, s, l);
    }
}

/// Every component of a unit vector lies between minus one and one.
pub proof fn lemma_unit_within_one(v: Vec3)
    ensures
        -SCALE <= v.unit().e0.raw <= SCALE,
        -SCALE <= v.unit().e1.raw <= SCALE,
        -SCALE <= v.unit().e2.raw <= SCALE,
{
    let n = v.raw_square_sum();
    let x = v.e0.raw as int;
    let y = v.e1.raw as int;
    let z = v.e2.raw as int;
    assert(0 <= x * x && 0 <= y * y && 0 <= z * z) by (nonlinear_arith);
    lemma_floor_sqrt_exists(n);
    let root = floor_sqrt(n) as int;
    let l = v.norm().raw as int;
    lemma_component_below_root(x, n);
    lemma_component_below_root(y, n);
    lemma_component_below_root(z, n);
    if l > 0 {
        lemma_quotient_within_one(x, l);
        lemma_quotient_within_one(y, l);
        lemma_quotient_within_one(z, l);
    }
}

/// A length that is not saturated is the largest number of the format whose
/// square does not exceed the exact sum of the squares of the components.
pub proof fn lemma_norm_accuracy(v: Vec3)
    requires
        v.norm().raw < i64::MAX,
    ensures
        0 <= v.norm().raw,
        v.norm().raw * v.norm().raw <= v.raw_square_sum() < (v.norm().raw + 1) * (v.norm().raw
            + 1),
{
    lemma_floor_sqrt_exists(v.raw_square_sum());
}

/// A number whose square is at most `n` is at most the square root of `n`
/// in magnitude.
pub proof fn lemma_component_below_root(y: int, n: nat)
    requires
        y * y <= n,
    ensures
        -floor_sqrt(n) <= y <= floor_sqrt(n),
{
    lemma_floor_sqrt_exists(n);
    let root = floor_sqrt(n) as int;
    assert(-root <= y <= root) by (nonlinear_arith)
        requires
            y * y <= n,
            n < (root + 1) * (root + 1),
            0 <= root,
    {
        if y > root {
            assert(y * y >= (root + 1) * (root + 1));
        }
        if y < -root {
            assert(y * y >= (root + 1) * (root + 1));
        }
    }
}

impl Vec3 {
    /// Every component lies below `2^28` in magnitude, that is below the
    /// raw value `2^60`: sums of a few such vectors do not saturate.
    pub open spec fn is_moderate(self) -> bool {
        &&& -0x1000_0000_0000_0000 <= self.e0.raw <= 0x1000_0000_0000_0000
        &&& -0x1000_0000_0000_0000 <= self.e1.raw <= 0x1000_0000_0000_0000
        &&& -0x1000_0000_0000_0000 <= self.e2.raw <= 0x1000_0000_0000_0000
    }

    /// The sum of the squares of the three raw components.
    pub open spec fn raw_square_sum(self) -> nat {
        (self.e0.raw * self.e0.raw + self.e1.raw * self.e1.raw + self.e2.raw * self.e2.raw) as nat
    }

    /// The component-wise sum.
    pub open spec fn plus(self, rhs: Vec3) -> Vec3 {
        Vec3 { e0: self.e0.plus(rhs.e0), e1: self.e1.plus(rhs.e1), e2: self.e2.plus(rhs.e2) }
    }

    /// The component-wise difference.
    pub open spec fn minus(self, rhs: Vec3) -> Vec3 {
        Vec3 { e0: self.e0.minus(rhs.e0), e1: self.e1.minus(rhs.e1), e2: self.e2.minus(rhs.e2) }
    }

    /// The component-wise product.
    pub open spec fn times(self, rhs: Vec3) -> Vec3 {
        Vec3 { e0: self.e0.times(rhs.e0), e1: self.e1.times(rhs.e1), e2: self.e2.times(rhs.e2) }
    }

    /// The component-wise quotient.
    pub open spec fn over(self, rhs: Vec3) -> Vec3 {
        Vec3 { e0: self.e0.over(rhs.e0), e1: self.e1.over(rhs.e1), e2: self.e2.over(rhs.e2) }
    }

    /// Every component multiplied by `k`.
    pub open spec fn scaled(self, k: Scalar) -> Vec3 {
        Vec3 { e0: self.e0.times(k), e1: self.e1.times(k), e2: self.e2.times(k) }
    }

    /// Every component divided by `k`.
    pub open spec fn divided(self, k: Scalar) -> Vec3 {
        Vec3 { e0: self.e0.over(k), e1: self.e1.over(k), e2: self.e2.over(k) }
    }

    /// The opposite vector.
    pub open spec fn negated(self) -> Vec3 {
        Vec3 { e0: self.e0.negated(), e1: self.e1.negated(), e2: self.e2.negated() }
    }

    /// The dot product: the three rounded products, summed exactly and then
    /// saturated.
    pub open spec fn dot_product(self, v2: Vec3) -> Scalar {
        Scalar {
            raw: saturate(
                raw_product(self.e0.raw as int, v2.e0.raw as int) + raw_product(
                    self.e1.raw as int,
                    v2.e1.raw as int,
                ) + raw_product(self.e2.raw as int, v2.e2.raw as int),
            ),
        }
    }

    /// The cross product, each component from two rounded products.
    pub open spec fn cross_product(self, v2: Vec3) -> Vec3 {
        Vec3 {
            e0: self.e1.times(v2.e2).minus(self.e2.times(v2.e1)),
            e1: self.e0.times(v2.e2).minus(self.e2.times(v2.e0)).negated(),
            e2: self.e0.times(v2.e1).minus(self.e1.times(v2.e0)),
        }
    }

    /// The squared Euclidean length: the dot product of the vector with itself.
    pub open spec fn squared_norm(self) -> Scalar {
        self.dot_product(self)
    }

    /// The Euclidean length: the square root of the exact sum of squares,
    /// rounded down to a multiple of `2^-32` and saturated.
    pub open spec fn norm(self) -> Scalar {
        Scalar { raw: saturate(floor_sqrt(self.raw_square_sum()) as int) }
    }

    /// The vector divided by its own length.
    pub open spec fn unit(self) -> Vec3 {
        self.divided(self.norm())
    }

    /// The vector with the given components.
    pub fn new(e0: Scalar, e1: Scalar, e2: Scalar) -> (v: Vec3)
        ensures
            v == (Vec3 { e0, e1, e2 }),
    {
        Vec3 { e0, e1, e2 }
    }

    /// The first component.
    pub fn x(self) -> (r: Scalar)
        ensures
            r == self.e0,
    {
        self.e0
    }

    /// The second component.
    pub fn y(self) -> (r: Scalar)
        ensures
            r == self.e1,
    {
        self.e1
    }

    /// The third component.
    pub fn z(self) -> (r: Scalar)
        ensures
            r == self.e2,
    {
        self.e2
    }

    /// The red channel: the first component.
    pub fn r(self) -> (r: Scalar)
        ensures
            r == self.e0,
    {
        self.e0
    }

    /// The green channel: the second component.
    pub fn g(self) -> (r: Scalar)
        ensures
            r == self.e1,
    {
        self.e1
    }

    /// The blue channel: the third component.
    pub fn b(self) -> (r: Scalar)
        ensures
            r == self.e2,
    {
        self.e2
    }

    /// The Euclidean length.
    pub fn length(&self) -> (r: Scalar)
        ensures
            r == self.norm(),
    {
        let s: u128 = square_wide(self.e0.raw) + square_wide(self.e1.raw) + square_wide(
            self.e2.raw,
        );
        let root: u64 = isqrt(s);
        if root > i64::MAX as u64 {
            Scalar { raw: i64::MAX }
        } else {
            Scalar { raw: root as i64 }
        }
    }

    /// The squared Euclidean length.
    pub fn squared_length(&self) -> (r: Scalar)
        ensures
            r == self.squared_norm(),
    {
        self.dot(*self)
    }

    /// Scales the vector in place to unit length.
    pub fn make_unit_vector(&mut self)
        ensures
            *final(self) == old(self).unit(),
    {
        let k = self.length();
        *self = *self / k;
    }

    /// The dot product.
    pub fn dot(&self, v2: Vec3) -> (r: Scalar)
        ensures
            r == self.dot_product(v2),
    {
        let s: i128 = wide_product(self.e0.raw, v2.e0.raw) + wide_product(self.e1.raw, v2.e1.raw)
            + wide_product(self.e2.raw, v2.e2.raw);
        Scalar { raw: saturate_wide(s) }
    }

    /// The cross product.
    pub fn cross(&self, v2: Vec3) -> (r: Vec3)
        ensures
            r == self.cross_product(v2),
    {
        Vec3 {
            e0: self.e1 * v2.e2 - self.e2 * v2.e1,
            e1: (self.e0 * v2.e2 - self.e2 * v2.e0).neg(),
            e2: self.e0 * v2.e1 - self.e1 * v2.e0,
        }
    }

    /// Adds `rhs` in place.
    pub fn add_assign(&mut self, rhs: Vec3)
        ensures
            *final(self) == old(self).plus(rhs),
    {
        *self = *self + rhs;
    }

    /// Subtracts `rhs` in place.
    pub fn sub_assign(&mut self, rhs: Vec3)
        ensures
            *final(self) == old(self).minus(rhs),
    {
        *self = *self - rhs;
    }

    /// Multiplies component-wise by `rhs` in place.
    pub fn mul_assign(&mut self, rhs: Vec3)
        ensures
            *final(self) == old(self).times(rhs),
    {
        *self = *self * rhs;
    }

    /// Multiplies every component by `k` in place.
    pub fn scale_assign(&mut self, k: Scalar)
        ensures
            *final(self) == old(self).scaled(k),
    {
        *self = *self * k;
    }

    /// Divides component-wise by `rhs` in place.
    pub fn div_assign(&mut self, rhs: Vec3)
        ensures
            *final(self) == old(self).over(rhs),
    {
        *self = *self / rhs;
    }

    /// Divides every component by `k` in place.
    pub fn shrink_assign(&mut self, k: Scalar)
        ensures
            *final(self) == old(self).divided(k),
    {
        *self = *self / k;
    }
}

/// The square of a raw value, exactly.
fn square_wide(a: i64) -> (r: u128)
    ensures
        r == a * a,
        r <= 0x4000_0000_0000_0000_0000_0000_0000_0000,
{
    let m: u128 = if a < 0 {
        (-(a as i128)) as u128
    } else {
        a as u128
    };
    assert(m * m <= 0x4000_0000_0000_0000_0000_0000_0000_0000 && m * m == a * a)
        by (nonlinear_arith)
        requires
            0 <= m <= 0x8000_0000_0000_0000,
            m == a || m == -a,
    ;
    m * m
}

/// The vector `v` divided by its own length.
pub fn unit_vector(v: Vec3) -> (r: Vec3)
    ensures
        r == v.unit(),
{
    v / v.length()
}

impl core::ops::Neg for Vec3 {
    type Output = Vec3;

    fn neg(self) -> (r: Vec3) {
        Vec3 { e0: self.e0.neg(), e1: self.e1.neg(), e2: self.e2.neg() }
    }
}

impl vstd::std_specs::ops::NegSpecImpl for Vec3 {
    open spec fn obeys_neg_spec() -> bool {
        true
    }

    open spec fn neg_req(self) -> bool {
        true
    }

    open spec fn neg_spec(self) -> Vec3 {
        self.negated()
    }
}

impl core::ops::Add<Vec3> for Vec3 {
    type Output = Vec3;

    fn add(self, rhs: Vec3) -> (r: Vec3) {
        Vec3 { e0: self.e0 + rhs.e0, e1: self.e1 + rhs.e1, e2: self.e2 + rhs.e2 }
    }
}

impl vstd::std_specs::ops::AddSpecImpl<Vec3> for Vec3 {
    open spec fn obeys_add_spec() -> bool {
        true
    }

    open spec fn add_req(self, rhs: Vec3) -> bool {
        true
    }

    open spec fn add_spec(self, rhs: Vec3) -> Vec3 {
        self.plus(rhs)
    }
}

impl core::ops::Sub<Vec3> for Vec3 {
    type Output = Vec3;

    fn sub(self, rhs: Vec3) -> (r: Vec3) {
        Vec3 { e0: self.e0 - rhs.e0, e1: self.e1 - rhs.e1, e2: self.e2 - rhs.e2 }
    }
}

impl vstd::std_specs::ops::SubSpecImpl<Vec3> for Vec3 {
    open spec fn obeys_sub_spec() -> bool {
        true
    }

    open spec fn sub_req(self, rhs: Vec3) -> bool {
        true
    }

    open spec fn sub_spec(self, rhs: Vec3) -> Vec3 {
        self.minus(rhs)
    }
}

impl core::ops::Mul<Vec3> for Vec3 {
    type Output = Vec3;

    fn mul(self, rhs: Vec3) -> (r: Vec3) {
        Vec3 { e0: self.e0 * rhs.e0, e1: self.e1 * rhs.e1, e2: self.e2 * rhs.e2 }
    }
}

impl vstd::std_specs::ops::MulSpecImpl<Vec3> for Vec3 {
    open spec fn obeys_mul_spec() -> bool {
        true
    }

    open spec fn mul_req(self, rhs: Vec3) -> bool {
        true
    }

    open spec fn mul_spec(self, rhs: Vec3) -> Vec3 {
        self.times(rhs)
    }
}

impl core::ops::Mul<Scalar> for Vec3 {
    type Output = Vec3;

    fn mul(self, rhs: Scalar) -> (r: Vec3) {
        Vec3 { e0: self.e0 * rhs, e1: self.e1 * rhs, e2: self.e2 * rhs }
    }
}

impl vstd::std_specs::ops::MulSpecImpl<Scalar> for Vec3 {
    open spec fn obeys_mul_spec() -> bool {
        true
    }

    open spec fn mul_req(self, rhs: Scalar) -> bool {
        true
    }

    open spec fn mul_spec(self, rhs: Scalar) -> Vec3 {
        self.scaled(rhs)
    }
}

impl core::ops::Mul<Vec3> for Scalar {
    type Output = Vec3;

    fn mul(self, rhs: Vec3) -> (r: Vec3) {
        Vec3 { e0: rhs.e0 * self, e1: rhs.e1 * self, e2: rhs.e2 * self }
    }
}

impl vstd::std_specs::ops::MulSpecImpl<Vec3> for Scalar {
    open spec fn obeys_mul_spec() -> bool {
        true
    }

    open spec fn mul_req(self, rhs: Vec3) -> bool {
        true
    }

    open spec fn mul_spec(self, rhs: Vec3) -> Vec3 {
        rhs.scaled(self)
    }
}

impl core::ops::Div<Vec3> for Vec3 {
    type Output = Vec3;

    fn div(self, rhs: Vec3) -> (r: Vec3) {
        Vec3 { e0: self.e0 / rhs.e0, e1: self.e1 / rhs.e1, e2: self.e2 / rhs.e2 }
    }
}

impl vstd::std_specs::ops::DivSpecImpl<Vec3> for Vec3 {
    open spec fn obeys_div_spec() -> bool {
        true
    }

    open spec fn div_req(self, rhs: Vec3) -> bool {
        true
    }

    open spec fn div_spec(self, rhs: Vec3) -> Vec3 {
        self.over(rhs)
    }
}

impl core::ops::Div<Scalar> for Vec3 {
    type Output = Vec3;

    fn div(self, rhs: Scalar) -> (r: Vec3) {
        Vec3 { e0: self.e0 / rhs, e1: self.e1 / rhs, e2: self.e2 / rhs }
    }
}

impl vstd::std_specs::ops::DivSpecImpl<Scalar> for Vec3 {
    open spec fn obeys_div_spec() -> bool {
        true
    }

    open spec fn div_req(self, rhs: Scalar) -> bool {
        true
    }

    open spec fn div_spec(self, rhs: Scalar) -> Vec3 {
        self.divided(rhs)
    }
}

} // verus!
