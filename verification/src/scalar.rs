//! Signed fixed-point numbers with 32 fractional bits.
//!
//! A `Scalar` stores the number `raw / 2^32` in a 64-bit integer, so the
//! format reaches from `-2^31` to just below `2^31` in steps of `2^-32`.
//! Every operation computes its exact result in a wider integer, rounds it
//! toward zero to a multiple of `2^-32`, and saturates at the ends of the
//! range instead of wrapping. Squares of lengths stay in range for vectors
//! shorter than `2^15`.
use crate::isqrt::{floor_sqrt, isqrt, lemma_floor_sqrt_exists};
use vstd::arithmetic::div_mod::{
    lemma_div_by_multiple, lemma_div_is_ordered, lemma_div_pos_is_pos, lemma_fundamental_div_mod,
    lemma_mod_bound,
};
use vstd::prelude::*;

verus! {

/// The raw value of the number one.
pub const SCALE: i64 = 0x1_0000_0000;

/// The raw value of one half.
pub const HALF_RAW: i64 = 0x8000_0000;

/// The nearest 64-bit integer to `x`.
pub open spec fn saturate(x: int) -> i64 {
    if x < i64::MIN {
        i64::MIN
    } else if x > i64::MAX {
        i64::MAX
    } else {
        x as i64
    }
}

/// The magnitude of `x`.
pub open spec fn magnitude(x: int) -> int {
    if x < 0 {
        -x
    } else {
        x
    }
}

/// The quotient of `n` by a non-zero `d`, rounded toward zero.
pub open spec fn trunc_div(n: int, d: int) -> int {
    if (n < 0) != (d < 0) {
        -(magnitude(n) / magnitude(d))
    } else {
        magnitude(n) / magnitude(d)
    }
}

/// A fixed-point number: `raw` counts multiples of `2^-32`.
#[derive(Clone, Copy, PartialEq, Eq, Structural, Debug)]
pub struct Scalar {
    pub raw: i64,
}

/// The largest 128-bit magnitude that the helpers below accept.
pub open spec fn wide_limit() -> int {
    0x4000_0000_0000_0000_0000_0000_0000_0000
}

/// Narrows a wide integer to 64 bits, saturating.
pub fn saturate_wide(x: i128) -> (r: i64)
    ensures
        r == saturate(x as int),
{
    if x < i64::MIN as i128 {
        i64::MIN
    } else if x > i64::MAX as i128 {
        i64::MAX
    } else {
        x as i64
    }
}

/// Divides two wide integers, rounding toward zero.
pub(crate) fn trunc_div_wide(n: i128, d: i128) -> (q: i128)
    requires
        d != 0,
        -wide_limit() <= n <= wide_limit(),
        -wide_limit() <= d <= wide_limit(),
    ensures
        q == trunc_div(n as int, d as int),
        magnitude(q as int) <= magnitude(n as int),
{
    let nm: u128 = if n < 0 {
        (-n) as u128
    } else {
        n as u128
    };
    let dm: u128 = if d < 0 {
        (-d) as u128
    } else {
        d as u128
    };
    let qm: u128 = nm / dm;
    assert(qm <= nm) by (nonlinear_arith)
        requires
            qm == nm / dm,
            dm >= 1,
    ;
    if (n < 0) != (d < 0) {
        -(qm as i128)
    } else {
        qm as i128
    }
}

impl View for Scalar {
    type V = int;

    /// The number of multiples of `2^-32` that the scalar holds.
    open spec fn view(&self) -> int {
        self.raw as int
    }
}

impl Scalar {
    /// The number zero.
    pub open spec fn zero() -> Scalar {
        Scalar { raw: 0 }
    }

    /// The number one.
    pub open spec fn one() -> Scalar {
        Scalar { raw: SCALE }
    }

    /// The number two.
    pub open spec fn two() -> Scalar {
        Scalar { raw: 0x2_0000_0000 }
    }

    /// The largest number of the format, which stands for "no bound".
    pub open spec fn max() -> Scalar {
        Scalar { raw: i64::MAX }
    }

    /// The sum, saturated.
    pub open spec fn plus(self, rhs: Scalar) -> Scalar {
        Scalar { raw: saturate(self.raw + rhs.raw) }
    }

    /// The difference, saturated.
    pub open spec fn minus(self, rhs: Scalar) -> Scalar {
        Scalar { raw: saturate(self.raw - rhs.raw) }
    }

    /// The opposite number, saturated.
    pub open spec fn negated(self) -> Scalar {
        Scalar { raw: saturate(-self.raw) }
    }

    /// The product, rounded toward zero and saturated.
    pub open spec fn times(self, rhs: Scalar) -> Scalar {
        Scalar { raw: saturate(trunc_div(self.raw * rhs.raw, SCALE as int)) }
    }

    /// The quotient, rounded toward zero and saturated. Division by zero
    /// saturates in the direction of the dividend's sign, and zero divided by
    /// zero is zero.
    pub open spec fn over(self, rhs: Scalar) -> Scalar {
        if rhs.raw == 0 {
            if self.raw > 0 {
                Scalar { raw: i64::MAX }
            } else if self.raw < 0 {
                Scalar { raw: i64::MIN }
            } else {
                Scalar { raw: 0 }
            }
        } else {
            Scalar { raw: saturate(trunc_div(self.raw * SCALE, rhs.raw as int)) }
        }
    }

    /// The square root, rounded down; zero for a number that is not positive.
    pub open spec fn root(self) -> Scalar {
        if self.raw <= 0 {
            Scalar { raw: 0 }
        } else {
            Scalar { raw: floor_sqrt((self.raw * SCALE) as nat) as i64 }
        }
    }

    /// The `n`-th power by repeated multiplication from the left.
    pub open spec fn power(self, n: nat) -> Scalar
        decreases n,
    {
        if n == 0 {
            Scalar::one()
        } else {
            self.power((n - 1) as nat).times(self)
        }
    }

    /// The whole number `i`.
    pub fn from_int(i: i32) -> (r: Scalar)
        ensures
            r.raw == i * SCALE,
    {
        Scalar { raw: (i as i64) * SCALE }
    }

    /// The square root, rounded down; zero for a number that is not positive.
    pub fn sqrt(self) -> (r: Scalar)
        ensures
            r == self.root(),
    {
        if self.raw <= 0 {
            Scalar { raw: 0 }
        } else {
            let wide: u128 = (self.raw as u128) * 0x1_0000_0000;
            let s: u64 = isqrt(wide);
            proof {
                lemma_root_bounds(self);
            }
            Scalar { raw: s as i64 }
        }
    }

    /// The `n`-th power by repeated multiplication.
    pub fn powi(self, n: u32) -> (r: Scalar)
        ensures
            r == self.power(n as nat),
    {
        let mut acc = Scalar { raw: SCALE };
        let mut i: u32 = 0;
        while i < n
            invariant
                i <= n,
                acc == self.power(i as nat),
            decreases n - i,
        {
            acc = acc * self;
            i = i + 1;
        }
        acc
    }
}

/// Rounding toward zero loses less than one divisor: the quotient times the
/// divisor lies between zero and the dividend, less than one divisor away
/// from the dividend.
pub proof fn lemma_trunc_div_accuracy(n: int, d: int)
    requires
        d != 0,
    ensures
        magnitude(n) - magnitude(d) < magnitude(trunc_div(n, d) * d) <= magnitude(n),
        n >= 0 ==> trunc_div(n, d) * d >= 0,
        n <= 0 ==> trunc_div(n, d) * d <= 0,
{
    let nm = magnitude(n);
    let dm = magnitude(d);
    let q = nm / dm;
    lemma_fundamental_div_mod(nm, dm);
    lemma_mod_bound(nm, dm);
    lemma_div_pos_is_pos(nm, dm);
    let t = trunc_div(n, d);
    assert(dm * q == q * dm) by (nonlinear_arith);
    assert(t * d == q * dm || t * d == -(q * dm)) by (nonlinear_arith)
        requires
            t == q || t == -q,
            d == dm || d == -dm,
    ;
    assert(q * dm >= 0) by (nonlinear_arith)
        requires
            q >= 0,
            dm > 0,
    ;
    if n >= 0 {
        assert(t * d == q * dm) by (nonlinear_arith)
            requires
                (d > 0 && t == q && dm == d) || (d < 0 && t == -q && dm == -d),
        ;
    }
    if n <= 0 {
        if n == 0 {
            assert(q == 0);
            assert(t * d == 0) by (nonlinear_arith)
                requires
                    t == 0,
            ;
        } else {
            assert(t * d == -(q * dm)) by (nonlinear_arith)
                requires
                    (d > 0 && t == -q && dm == d) || (d < 0 && t == q && dm == -d),
            ;
        }
    }
}

/// A product that is not saturated differs from the exact product of the
/// two numbers by less than one step of `2^-32`, toward zero.
pub proof fn lemma_times_accuracy(a: Scalar, b: Scalar)
    requires
        i64::MIN <= trunc_div(a.raw * b.raw, SCALE as int) <= i64::MAX,
    ensures
        magnitude(a.raw * b.raw) - SCALE < magnitude(a.times(b).raw * SCALE) <= magnitude(
            a.raw * b.raw,
        ),
        a.raw * b.raw >= 0 ==> a.times(b).raw >= 0,
        a.raw * b.raw <= 0 ==> a.times(b).raw <= 0,
{
    lemma_trunc_div_accuracy(a.raw * b.raw, SCALE as int);
    let t = a.times(b).raw as int;
    assert((t * SCALE >= 0 ==> t >= 0) && (t * SCALE <= 0 ==> t <= 0)) by (nonlinear_arith)
        requires
            SCALE > 0,
    ;
}

/// A quotient that is not saturated, times the divisor, differs from the
/// dividend by less than one step of `2^-32` times the divisor, toward zero.
pub proof fn lemma_over_accuracy(a: Scalar, b: Scalar)
    requires
        b.raw != 0,
        i64::MIN <= trunc_div(a.raw * SCALE, b.raw as int) <= i64::MAX,
    ensures
        magnitude(a.raw * SCALE) - magnitude(b.raw as int) < magnitude(a.over(b).raw * b.raw)
            <= magnitude(a.raw * SCALE),
{
    lemma_trunc_div_accuracy(a.raw * SCALE, b.raw as int);
}

/// The square root of a positive number is the largest number of the format
/// whose square does not exceed it.
pub proof fn lemma_root_accuracy(a: Scalar)
    requires
        a.raw > 0,
    ensures
        a.root().raw * a.root().raw <= a.raw * SCALE < (a.root().raw + 1) * (a.root().raw + 1),
{
    lemma_root_bounds(a);
    let n = (a.raw * SCALE) as nat;
    lemma_floor_sqrt_exists(n);
    let t = floor_sqrt(n);
    assert(a.root().raw == t);
    assert(n == a.raw * SCALE) by (nonlinear_arith)
        requires
            n == (a.raw * SCALE) as nat,
            a.raw > 0,
            SCALE > 0,
    ;
}

/// Any number times one is the number itself.
pub proof fn lemma_times_one(k: Scalar)
    ensures
        k.times(Scalar::one()) == k,
        Scalar::one().times(k) == k,
{
    let s = SCALE as int;
    let m = magnitude(k.raw as int);
    assert(magnitude(k.raw * s) == m * s && magnitude(s * k.raw) == m * s && ((k.raw * s < 0) <==> k.raw
        < 0) && ((s * k.raw < 0) <==> k.raw < 0)) by (nonlinear_arith)
        requires
            m == magnitude(k.raw as int),
            s > 0,
    ;
    lemma_div_by_multiple(m, s);
}

/// Zero times any number is zero.
pub proof fn lemma_zero_times(k: Scalar)
    ensures
        Scalar::zero().times(k) == Scalar::zero(),
        k.times(Scalar::zero()) == Scalar::zero(),
{
    assert(0 * k.raw == 0 && k.raw * 0 == 0) by (nonlinear_arith);
    assert(0int / (SCALE as int) == 0) by (nonlinear_arith)
        requires
            SCALE > 0,
    ;
}

/// Rounding toward zero keeps the order of the dividends.
pub proof fn lemma_trunc_div_monotonic(m: int, n: int, d: int)
    requires
        m <= n,
        d > 0,
    ensures
        trunc_div(m, d) <= trunc_div(n, d),
{
    if n < 0 {
        lemma_div_is_ordered(-n, -m, d);
    } else if m < 0 {
        lemma_div_pos_is_pos(-m, d);
        lemma_div_pos_is_pos(n, d);
    } else {
        lemma_div_is_ordered(m, n, d);
    }
}

/// Division by a number that is not negative keeps the order of the
/// dividends.
pub proof fn lemma_over_monotonic(x: Scalar, y: Scalar, d: Scalar)
    requires
        x.raw <= y.raw,
        d.raw >= 0,
    ensures
        x.over(d).raw <= y.over(d).raw,
{
    if d.raw > 0 {
        assert(x.raw * SCALE <= y.raw * SCALE) by (nonlinear_arith)
            requires
                x.raw <= y.raw,
                SCALE > 0,
        ;
        lemma_trunc_div_monotonic(x.raw * SCALE, y.raw * SCALE, d.raw as int);
    }
}

/// A square root is not negative and stays below `2^16`, that is below the
/// raw value `2^48`.
pub proof fn lemma_root_bounds(a: Scalar)
    ensures
        0 <= a.root().raw < 0x1_0000_0000_0000,
        a.raw > 0 ==> a.root().raw == floor_sqrt((a.raw * SCALE) as nat),
{
    if a.raw > 0 {
        let n = (a.raw * SCALE) as nat;
        lemma_floor_sqrt_exists(n);
        let t = floor_sqrt(n);
        assert(t < 0x1_0000_0000_0000) by (nonlinear_arith)
            requires
                t * t <= n,
                n < 0x1_0000_0000_0000int * 0x1_0000_0000_0000int,
        {
            if t >= 0x1_0000_0000_0000 {
                assert(t * t >= 0x1_0000_0000_0000int * 0x1_0000_0000_0000int);
            }
        }
    }
}

impl core::ops::Neg for Scalar {
    type Output = Scalar;

    fn neg(self) -> (r: Scalar) {
        Scalar { raw: saturate_wide(-(self.raw as i128)) }
    }
}

impl vstd::std_specs::ops::NegSpecImpl for Scalar {
    open spec fn obeys_neg_spec() -> bool {
        true
    }

    open spec fn neg_req(self) -> bool {
        true
    }

    open spec fn neg_spec(self) -> Scalar {
        self.negated()
    }
}

impl core::ops::Add for Scalar {
    type Output = Scalar;

    fn add(self, rhs: Scalar) -> (r: Scalar) {
        Scalar { raw: saturate_wide(self.raw as i128 + rhs.raw as i128) }
    }
}

impl vstd::std_specs::ops::AddSpecImpl for Scalar {
    open spec fn obeys_add_spec() -> bool {
        true
    }

    open spec fn add_req(self, rhs: Scalar) -> bool {
        true
    }

    open spec fn add_spec(self, rhs: Scalar) -> Scalar {
        self.plus(rhs)
    }
}

impl core::ops::Sub for Scalar {
    type Output = Scalar;

    fn sub(self, rhs: Scalar) -> (r: Scalar) {
        Scalar { raw: saturate_wide(self.raw as i128 - rhs.raw as i128) }
    }
}

impl vstd::std_specs::ops::SubSpecImpl for Scalar {
    open spec fn obeys_sub_spec() -> bool {
        true
    }

    open spec fn sub_req(self, rhs: Scalar) -> bool {
        true
    }

    open spec fn sub_spec(self, rhs: Scalar) -> Scalar {
        self.minus(rhs)
    }
}

impl core::ops::Mul for Scalar {
    type Output = Scalar;

    fn mul(self, rhs: Scalar) -> (r: Scalar) {
        let a: i128 = self.raw as i128;
        let b: i128 = rhs.raw as i128;
        assert(-wide_limit() <= a * b <= wide_limit()) by (nonlinear_arith)
            requires
                -0x8000_0000_0000_0000 <= a <= 0x8000_0000_0000_0000,
                -0x8000_0000_0000_0000 <= b <= 0x8000_0000_0000_0000,
                wide_limit() == 0x8000_0000_0000_0000int * 0x8000_0000_0000_0000int,
        ;
        Scalar { raw: saturate_wide(trunc_div_wide(a * b, SCALE as i128)) }
    }
}

impl vstd::std_specs::ops::MulSpecImpl for Scalar {
    open spec fn obeys_mul_spec() -> bool {
        true
    }

    open spec fn mul_req(self, rhs: Scalar) -> bool {
        true
    }

    open spec fn mul_spec(self, rhs: Scalar) -> Scalar {
        self.times(rhs)
    }
}

impl core::ops::Div for Scalar {
    type Output = Scalar;

    fn div(self, rhs: Scalar) -> (r: Scalar) {
        if rhs.raw == 0 {
            if self.raw > 0 {
                Scalar { raw: i64::MAX }
            } else if self.raw < 0 {
                Scalar { raw: i64::MIN }
            } else {
                Scalar { raw: 0 }
            }
        } else {
            let n: i128 = (self.raw as i128) * 0x1_0000_0000;
            Scalar { raw: saturate_wide(trunc_div_wide(n, rhs.raw as i128)) }
        }
    }
}

impl vstd::std_specs::ops::DivSpecImpl for Scalar {
    open spec fn obeys_div_spec() -> bool {
        true
    }

    open spec fn div_req(self, rhs: Scalar) -> bool {
        true
    }

    open spec fn div_spec(self, rhs: Scalar) -> Scalar {
        self.over(rhs)
    }
}

} // verus!
