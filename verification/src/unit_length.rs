//! How close to one the length of a normalised vector is.
use crate::isqrt::{
    floor_sqrt, lemma_floor_sqrt_exists, lemma_floor_sqrt_monotonic, lemma_floor_sqrt_of_square,
};
use crate::scalar::{magnitude, trunc_div, SCALE};
use crate::vec3::{lemma_component_below_root, lemma_unit_within_one, Vec3};
use vstd::arithmetic::div_mod::{lemma_div_pos_is_pos, lemma_fundamental_div_mod, lemma_mod_bound};
use vstd::prelude::*;

verus! {

/// The square of a component of the normalised vector, times the squared
/// length `l * l`, is at most the square of the component `c` times
/// `SCALE * SCALE`, and falls short of it by at most `2 * SCALE * l * |c|`.
proof fn lemma_quotient_square(c: int, l: int)
    requires
        l > 0,
        -l <= c <= l,
    ensures
        ({
            let u = trunc_div(c * SCALE, l);
            &&& u * u * (l * l) <= c * c * (SCALE * SCALE)
            &&& u * u * (l * l) >= c * c * (SCALE * SCALE) - 2 * (SCALE * (l * l))
        }),
{
    let s = SCALE as int;
    let m = magnitude(c);
    let a = m * s;
    assert(magnitude(c * s) == a && 0 <= a) by (nonlinear_arith)
        requires
            m == magnitude(c),
            a == m * s,
            s > 0,
    ;
    let q = a / l;
    let u = trunc_div(c * s, l);
    assert(u == q || u == -q);
    assert(u * u == q * q) by (nonlinear_arith)
        requires
            u == q || u == -q,
    ;
    lemma_div_pos_is_pos(a, l);
    lemma_fundamental_div_mod(a, l);
    lemma_mod_bound(a, l);
    let r = a % l;
    let b = q * l;
    assert(b == l * q) by (nonlinear_arith)
        requires
            b == q * l,
    ;
    assert(b == a - r);
    assert(0 <= b <= a);
    assert(b * b <= a * a) by (nonlinear_arith)
        requires
            0 <= b <= a,
    ;
    assert(a <= s * l) by (nonlinear_arith)
        requires
            a == m * s,
            0 <= m <= l,
            s > 0,
    ;
    assert(b * b >= a * a - 2 * (s * (l * l))) by (nonlinear_arith)
        requires
            b == a - r,
            0 <= r < l,
            0 <= a <= s * l,
            0 <= b,
            s > 0,
            l > 0,
    {
        assert(a * a - b * b == (a - b) * (a + b));
        assert((a - b) * (a + b) <= l * (2 * a));
        assert(l * (2 * a) <= l * (2 * (s * l)));
        assert(l * (2 * (s * l)) == 2 * (s * (l * l)));
    }
    assert(b * b == u * u * (l * l)) by (nonlinear_arith)
        requires
            b == q * l,
            u * u == q * q,
    ;
    assert(a * a == c * c * (s * s)) by (nonlinear_arith)
        requires
            a == m * s,
            m == c || m == -c,
    ;
}

/// Normalising a vector whose length is at least one half, and below the end
/// of the range, gives a vector whose length differs from one by at most
/// four steps of `2^-32` downward and one step upward.
pub proof fn lemma_unit_length_near_one(v: Vec3)
    requires
        SCALE <= 2 * v.norm().raw,
        v.norm().raw < i64::MAX,
    ensures
        SCALE - 4 <= v.unit().norm().raw <= SCALE + 1,
{
    let s = SCALE as int;
    let n = v.raw_square_sum();
    let x = v.e0.raw as int;
    let y = v.e1.raw as int;
    let z = v.e2.raw as int;
    assert(0 <= x * x && 0 <= y * y && 0 <= z * z) by (nonlinear_arith);
    lemma_floor_sqrt_exists(n);
    let l = floor_sqrt(n) as int;
    assert(l == v.norm().raw);
    lemma_component_below_root(x, n);
    lemma_component_below_root(y, n);
    lemma_component_below_root(z, n);
    lemma_unit_within_one(v);
    lemma_quotient_square(x, l);
    lemma_quotient_square(y, l);
    lemma_quotient_square(z, l);
    let ux = trunc_div(x * s, l);
    let uy = trunc_div(y * s, l);
    let uz = trunc_div(z * s, l);
    assert(v.unit().e0.raw == ux);
    assert(v.unit().e1.raw == uy);
    assert(v.unit().e2.raw == uz);
    assert(0 <= ux * ux && 0 <= uy * uy && 0 <= uz * uz) by (nonlinear_arith);
    let m = v.unit().raw_square_sum();
    assert(m == ux * ux + uy * uy + uz * uz);
    let ll = l * l;
    let ss = s * s;
    assert(m * ll == ux * ux * ll + uy * uy * ll + uz * uz * ll) by (nonlinear_arith)
        requires
            m == ux * ux + uy * uy + uz * uz,
    ;
    assert(n * ss == x * x * ss + y * y * ss + z * z * ss) by (nonlinear_arith)
        requires
            n == x * x + y * y + z * z,
    ;
    assert(m * ll <= n * ss);
    let sll = s * ll;
    assert(m * ll >= n * ss - 6 * sll);
    // From above: the length is at most one and a step.
    assert(m < (s + 2) * (s + 2)) by (nonlinear_arith)
        requires
            m * ll <= n * ss,
            n < (l + 1) * (l + 1),
            ll == l * l,
            ss == s * s,
            s <= 2 * l,
            l > 0,
            s > 0,
            m >= 0,
    {
        assert((l + 1) * s <= (s + 2) * l);
        assert(((l + 1) * s) * ((l + 1) * s) <= ((s + 2) * l) * ((s + 2) * l));
        assert(n * ss < ((l + 1) * (l + 1)) * ss);
        assert(((l + 1) * (l + 1)) * ss == ((l + 1) * s) * ((l + 1) * s));
        assert(((s + 2) * l) * ((s + 2) * l) == ((s + 2) * (s + 2)) * ll);
        if m >= (s + 2) * (s + 2) {
            assert(m * ll >= ((s + 2) * (s + 2)) * ll);
        }
    }
    // From below: the length is at least one less four steps.
    assert(m >= (s - 4) * (s - 4)) by (nonlinear_arith)
        requires
            m * ll >= n * ss - 6 * sll,
            sll == s * ll,
            l * l <= n,
            ll == l * l,
            ss == s * s,
            l > 0,
            s >= 16,
            m >= 0,
    {
        assert(n * ss >= ll * ss);
        assert((ss - 6 * s) * ll == ll * ss - 6 * sll);
        assert(m * ll >= (ss - 6 * s) * ll);
        assert(ll > 0);
        if m < ss - 6 * s {
            assert(m * ll < (ss - 6 * s) * ll);
        }
        assert((s - 4) * (s - 4) <= ss - 6 * s);
    }
    lemma_floor_sqrt_exists(m);
    let root = floor_sqrt(m) as int;
    assert(root < s + 2) by (nonlinear_arith)
        requires
            root * root <= m,
            m < (s + 2) * (s + 2),
            root >= 0,
            s > 0,
    {
        if root >= s + 2 {
            assert(root * root >= (s + 2) * (s + 2));
        }
    }
    lemma_floor_sqrt_monotonic(((s - 4) * (s - 4)) as nat, m);
    lemma_floor_sqrt_of_square((s - 4) as nat);
}

} // verus!
