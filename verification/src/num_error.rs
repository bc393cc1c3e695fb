//! How far a rounded result lies from the exact one.
//!
//! `exact` is the value of a finite number as a real. Each operation is off by at most one
//! part in 2^53 of its exact result, and half a unit of 2^-1074 where the result is tiny.
use crate::num::Num;
use crate::num_laws::{
    lemma_add_key, lemma_div_mag, lemma_mul_mag, lemma_negated, lemma_one_units, lemma_ratio_bits,
    lemma_skey_exact, lemma_skey_mono, lemma_units_nonneg, lemma_val_order, nonneg,
};
use crate::num_ops::lemma_uint_is_ratio;
use crate::rounding::{
    expo, lemma_encode_exact, lemma_rnd_lower, lemma_rnd_nonneg, lemma_rne_bounds, lemma_rne_exact,
    rnd, rne, sig, units, INF_BITS, P52,
};
use vstd::arithmetic::div_mod::lemma_fundamental_div_mod;
use vstd::arithmetic::power2::{
    lemma2_to64, lemma_pow2_adds, lemma_pow2_pos, lemma_pow2_strictly_increases, lemma_pow2_unfold,
    pow2,
};
use vstd::prelude::*;

verus! {

/// The distance of two integers.
pub open spec fn apart(a: int, b: int) -> int {
    if a < b {
        b - a
    } else {
        a - b
    }
}

proof fn lemma_units_next_binade(b: int)
    requires
        b >= P52,
    ensures
        units(b + P52) == 2 * units(b),
{
    let p = P52 as int;
    assert((b + p) % p == b % p && (b + p) / p == b / p + 1) by {
        vstd::arithmetic::div_mod::lemma_mod_add_multiples_vanish(b, p);
        vstd::arithmetic::div_mod::lemma_div_plus_one(b, p);
    }
    assert(b / p >= 1) by (nonlinear_arith)
        requires
            b >= p,
            p == 0x10_0000_0000_0000,
    ;
    assert(expo(b + p) == expo(b) + 1);
    lemma_pow2_unfold(expo(b + p));
    let s = sig(b);
    let q = pow2(expo(b)) as int;
    assert(s * (2 * q) == 2 * (s * q)) by (nonlinear_arith);
}

proof fn lemma_units_small(m: int)
    requires
        0 <= m <= 0x20_0000_0000_0000,
    ensures
        units(m) == m,
{
    lemma2_to64();
    lemma_pow2_unfold(1);
    let p = P52 as int;
    let e = if m < 0x20_0000_0000_0000 { 0nat } else { 1nat };
    let g = if m < 0x20_0000_0000_0000 { m } else { p };
    if p <= m < 0x20_0000_0000_0000 {
        assert(m / p == 1 && m % p == m - p) by (nonlinear_arith)
            requires
                p <= m < 2 * p,
                p == 0x10_0000_0000_0000,
        ;
    }
    assert(sig(m) == g && expo(m) == e);
    assert(g * pow2(e) == m) by (nonlinear_arith)
        requires
            pow2(e) == 1 && g == m || pow2(e) == 2 && g == p && m == 2 * p,
    ;
}

/// The nearest double to `n / d` units is off by at most one part in 2^53, and by half a
/// unit below 2^52 units.
pub proof fn lemma_rnd_error(n: int, d: int)
    requires
        d > 0,
        n >= 0,
    ensures
        n < 0x10_0000_0000_0000 * d ==> 2 * apart(units(rnd(n, d)) * d, n) <= d,
        n >= 0x10_0000_0000_0000 * d ==> 0x20_0000_0000_0000 * apart(units(rnd(n, d)) * d, n) <= n,
    decreases n - d,
{
    if n < 0x20_0000_0000_0000 * d {
        let m = rne(n, d);
        lemma_rne_bounds(n, d, 0, 0x20_0000_0000_0000);
        lemma_units_small(m);
        lemma_fundamental_div_mod(n, d);
        let k = n / d;
        assert((k + 1) * d == k * d + d) by (nonlinear_arith);
        assert(d * k == k * d) by (nonlinear_arith);
        assert(2 * apart(m * d, n) <= d);
    } else {
        lemma_rnd_error(n, 2 * d);
        lemma_rnd_lower(n, 2 * d);
        let b = rnd(n, 2 * d);
        lemma_units_next_binade(b);
        let y = units(b);
        assert((2 * y) * d == y * (2 * d)) by (nonlinear_arith);
    }
}

/// The value of a finite number.
pub open spec fn exact(x: Num) -> real {
    x.val() as real / pow2(1074) as real
}

/// The distance of two values.
pub open spec fn dist(x: real, y: real) -> real {
    if x < y {
        y - x
    } else {
        x - y
    }
}

/// 2^53: a rounded result is off by one part in it.
pub open spec fn parts() -> real {
    0x20_0000_0000_0000int as real
}

/// Half the distance of the tiniest numbers, 2^-1075.
pub open spec fn trace() -> real {
    1int as real / (2 * pow2(1074)) as real
}

proof fn lemma_scale(a: int, b: int, c: int, d: int)
    requires
        d > 0,
        0x20_0000_0000_0000 * apart(a, b) <= c,
    ensures
        parts() * dist(a as real / d as real, b as real / d as real) <= c as real / d as real,
{
    let x = a as real;
    let y = b as real;
    let z = c as real;
    let k = d as real;
    assert(k > 0int as real);
    if a < b {
        assert(parts() * (y - x) <= z);
        assert(parts() * (y / k - x / k) <= z / k) by (nonlinear_arith)
            requires
                k > 0int as real,
                parts() * (y - x) <= z,
        ;
        assert(x / k <= y / k) by (nonlinear_arith)
            requires
                k > 0int as real,
                x <= y,
        ;
    } else {
        assert(parts() * (x - y) <= z);
        assert(parts() * (x / k - y / k) <= z / k) by (nonlinear_arith)
            requires
                k > 0int as real,
                parts() * (x - y) <= z,
        ;
        assert(y / k <= x / k) by (nonlinear_arith)
            requires
                k > 0int as real,
                y <= x,
        ;
    }
}

/// A sum is off by at most one part in 2^53.
pub proof fn lemma_add_error(a: Num, b: Num)
    requires
        a.is_finite(),
        b.is_finite(),
        (a + b).is_finite(),
    ensures
        parts() * dist(exact(a + b), exact(a) + exact(b)) <= dist(
            exact(a) + exact(b),
            0int as real,
        ),
{
    reveal(Num::spec_add);
    let s = a.val() + b.val();
    let m = if s < 0 { -s } else { s };
    lemma_rnd_error(m, 1);
    lemma_rnd_nonneg(m, 1);
    let r = units(rnd(m, 1));
    assert(r * 1 == r);
    let v = (a + b).val();
    if s == 0 {
        assert(units(0) == 0);
    }
    assert(apart(v, s) == apart(r, m));
    assert(0x20_0000_0000_0000 * apart(v, s) <= m);
    lemma_pow2_pos(1074);
    let d = pow2(1074) as int;
    lemma_scale(v, s, m, d);
    let k = d as real;
    assert(exact(a) + exact(b) == s as real / k) by (nonlinear_arith)
        requires
            exact(a) == a.val() as real / k,
            exact(b) == b.val() as real / k,
            s as real == a.val() as real + b.val() as real,
            k > 0int as real,
    ;
    assert(m as real / k == dist(s as real / k, 0int as real)) by (nonlinear_arith)
        requires
            m as real == if s < 0 { -(s as real) } else { s as real },
            k > 0int as real,
    ;
}

/// A difference is off by at most one part in 2^53.
pub proof fn lemma_sub_error(a: Num, b: Num)
    requires
        a.is_finite(),
        b.is_finite(),
        (a - b).is_finite(),
    ensures
        parts() * dist(exact(a - b), exact(a) - exact(b)) <= dist(
            exact(a) - exact(b),
            0int as real,
        ),
{
    lemma_negated(b);
    let nb = b.negated();
    assert(a - b == a.spec_add(nb));
    lemma_add_error(a, nb);
    lemma_pow2_pos(1074);
    let k = pow2(1074) as real;
    assert(exact(nb) == -exact(b)) by (nonlinear_arith)
        requires
            exact(b) == b.val() as real / k,
            exact(nb) == nb.val() as real / k,
            nb.val() as real == -(b.val() as real),
            k > 0int as real,
    ;
}

/// What is not negative has a value that is not.
pub proof fn lemma_exact_nonneg(x: Num)
    requires
        nonneg(x),
    ensures
        exact(x) >= 0int as real,
        x.val() == units(x.mag()),
        x.val() >= 0,
        exact(x) > 0int as real <==> x.key() > 0,
{
    lemma_units_nonneg(x.mag());
    lemma_pow2_pos(1074);
    let k = pow2(1074) as real;
    let v = x.val() as real;
    assert(v / k >= 0int as real && (v / k > 0int as real <==> v > 0int as real))
        by (nonlinear_arith)
        requires
            v >= 0int as real,
            k > 0int as real,
    ;
}

/// Whole units and values have one order.
pub proof fn lemma_value_order(a: Num, b: Num)
    ensures
        a.val() <= b.val() <==> exact(a) <= exact(b),
        a.val() < b.val() <==> exact(a) < exact(b),
{
    lemma_pow2_pos(1074);
    let k = pow2(1074) as real;
    let x = a.val() as real;
    let y = b.val() as real;
    assert((x <= y <==> x / k <= y / k) && (x < y <==> x / k < y / k)) by (nonlinear_arith)
        requires
            k > 0int as real,
    ;
}

/// The order of finite numbers is that of their values.
pub proof fn lemma_exact_order(a: Num, b: Num)
    requires
        a.is_finite(),
        b.is_finite(),
    ensures
        a.le(b) <==> exact(a) <= exact(b),
        a.lt(b) <==> exact(a) < exact(b),
{
    if a.le(b) {
        lemma_val_order(a, b);
    }
    if b.le(a) {
        lemma_val_order(b, a);
    }
    lemma_skey_exact(a);
    lemma_skey_exact(b);
    lemma_value_order(a, b);
}

/// A product of whole numbers is the product of their values.
pub proof fn lemma_real_product(x: int, y: int)
    ensures
        (x * y) as real == x as real * y as real,
{
    assert((x * y) as real == x as real * y as real) by (nonlinear_arith);
}

/// A product is off by at most one part in 2^53 and a trace.
pub proof fn lemma_mul_error(a: Num, b: Num)
    requires
        nonneg(a),
        nonneg(b),
        (a * b).is_finite(),
    ensures
        nonneg(a * b),
        parts() * dist(exact(a * b), exact(a) * exact(b)) <= exact(a) * exact(b) + parts() * trace(),
{
    lemma_mul_mag(a, b);
    lemma_exact_nonneg(a);
    lemma_exact_nonneg(b);
    lemma_pow2_pos(1074);
    let d = pow2(1074) as int;
    let ua = units(a.mag());
    let ub = units(b.mag());
    let n = ua * ub;
    assert(n >= 0) by (nonlinear_arith)
        requires
            n == ua * ub,
            ua >= 0,
            ub >= 0,
    ;
    lemma_rnd_error(n, d);
    lemma_rnd_nonneg(n, d);
    let ur = units(rnd(n, d));
    if a.is_neg() || b.is_neg() {
        assert(n == 0) by (nonlinear_arith)
            requires
                n == ua * ub,
                ua == 0 || ub == 0,
        ;
        lemma_rne_zero(d);
    }
    lemma_exact_nonneg(a * b);
    assert((a * b).val() == ur);
    assert(0x20_0000_0000_0000 * apart(ur * d, n) <= n + 0x10_0000_0000_0000 * d);
    let dd = d * d;
    assert(dd > 0) by (nonlinear_arith)
        requires
            dd == d * d,
            d > 0,
    ;
    lemma_scale(ur * d, n, n + 0x10_0000_0000_0000 * d, dd);
    lemma_real_product(ur, d);
    lemma_real_product(ua, ub);
    lemma_real_product(d, d);
    let k = d as real;
    let xr = ur as real;
    let xa = ua as real;
    let xb = ub as real;
    assert((xr * k) / (k * k) == xr / k) by (nonlinear_arith)
        requires
            k > 0int as real,
    ;
    assert((xa * xb) / (k * k) == (xa / k) * (xb / k)) by (nonlinear_arith)
        requires
            k > 0int as real,
    ;
    let h = 0x10_0000_0000_0000int as real;
    let z = xa * xb;
    assert((z + h * k) / (k * k) == z / (k * k) + h / k) by (nonlinear_arith)
        requires
            k > 0int as real,
    ;
    lemma_trace(k);
}

proof fn lemma_trace(k: real)
    requires
        k == pow2(1074) as real,
    ensures
        0x10_0000_0000_0000int as real / k == parts() * trace(),
        k > 0int as real,
        trace() > 0int as real,
{
    lemma_pow2_pos(1074);
    let t = (2 * pow2(1074)) as real;
    assert(0x10_0000_0000_0000int as real / k == parts() * (1int as real / t) && 1int as real / t
        > 0int as real) by (nonlinear_arith)
        requires
            t == 2int as real * k,
            k > 0int as real,
            parts() == 2int as real * 0x10_0000_0000_0000int as real,
    ;
}

proof fn lemma_rne_zero(d: int)
    requires
        d > 0,
    ensures
        rnd(0, d) == 0,
        units(0) == 0,
{
    lemma_rne_bounds(0, d, 0, 0);
    lemma_units_small(0);
}

/// A quotient times its divisor is off by at most one part in 2^53 and a trace of the
/// divisor.
pub proof fn lemma_div_error(a: Num, b: Num)
    requires
        nonneg(a),
        nonneg(b),
        b.key() > 0,
        (a / b).is_finite(),
    ensures
        nonneg(a / b),
        parts() * dist(exact(a / b) * exact(b), exact(a)) <= exact(a) + parts() * trace() * exact(b),
{
    lemma_div_mag(a, b);
    lemma_exact_nonneg(a);
    lemma_exact_nonneg(b);
    lemma_units_nonneg(b.mag());
    lemma_pow2_pos(1074);
    let d = pow2(1074) as int;
    let ua = units(a.mag());
    let ub = units(b.mag());
    let n = ua * d;
    assert(n >= 0) by (nonlinear_arith)
        requires
            n == ua * d,
            ua >= 0,
            d > 0,
    ;
    lemma_rnd_error(n, ub);
    lemma_rnd_nonneg(n, ub);
    let ur = units(rnd(n, ub));
    if a.is_neg() {
        assert(n == 0) by (nonlinear_arith)
            requires
                n == ua * d,
                ua == 0,
        ;
        lemma_rne_zero(ub);
    }
    lemma_exact_nonneg(a / b);
    assert((a / b).val() == ur);
    assert(0x20_0000_0000_0000 * apart(ur * ub, n) <= n + 0x10_0000_0000_0000 * ub);
    let dd = d * d;
    assert(dd > 0) by (nonlinear_arith)
        requires
            dd == d * d,
            d > 0,
    ;
    lemma_scale(ur * ub, n, n + 0x10_0000_0000_0000 * ub, dd);
    lemma_real_product(ur, ub);
    lemma_real_product(ua, d);
    lemma_real_product(d, d);
    let k = d as real;
    let xr = ur as real;
    let xa = ua as real;
    let xb = ub as real;
    assert((xa * k) / (k * k) == xa / k) by (nonlinear_arith)
        requires
            k > 0int as real,
    ;
    assert((xr * xb) / (k * k) == (xr / k) * (xb / k)) by (nonlinear_arith)
        requires
            k > 0int as real,
    ;
    let h = 0x10_0000_0000_0000int as real;
    assert((xa * k + h * xb) / (k * k) == xa / k + (h / k) * (xb / k)) by (nonlinear_arith)
        requires
            k > 0int as real,
    ;
    lemma_trace(k);
    assert((n + 0x10_0000_0000_0000 * ub) as real == xa * k + h * xb);
    assert(dd as real == k * k);
    assert((ur * ub) as real == xr * xb && n as real == xa * k);
    assert(exact(b) == xb / k && exact(a) == xa / k && exact(a / b) == xr / k);
    assert((h / k) * (xb / k) == parts() * trace() * exact(b));
}

proof fn lemma_units_limit(b: int)
    requires
        0 <= b < INF_BITS,
    ensures
        0x10_0000_0000_0000 * units(b) <= 4 * (pow2(1074) * pow2(1074)),
{
    let p = P52 as int;
    let e = expo(b);
    let g = sig(b);
    assert(b / p <= 2046) by (nonlinear_arith)
        requires
            b < 2047 * p,
            p == 0x10_0000_0000_0000,
    ;
    assert(g < 0x20_0000_0000_0000) by (nonlinear_arith)
        requires
            g == b && b < p || g == p + b % p,
            p == 0x10_0000_0000_0000,
    ;
    assert(e <= 2045);
    if e < 2045 {
        lemma_pow2_strictly_increases(e, 2045);
    }
    lemma_pow2_pos(e);
    lemma_pow2_pos(2045);
    lemma_pow2_adds(1074, 1074);
    lemma_pow2_adds(2045, 103);
    lemma_pow2_adds(60, 43);
    lemma2_to64();
    assert(pow2(43) == 0x800_0000_0000) by {
        lemma_pow2_adds(32, 11);
    }
    assert(pow2(60) == 0x1000_0000_0000_0000) by {
        lemma_pow2_adds(32, 28);
    }
    assert(pow2(103) == 0x1000_0000_0000_0000int * 0x800_0000_0000int);
    let x = pow2(e) as int;
    let y = pow2(2045) as int;
    assert(0x10_0000_0000_0000 * (g * x) <= 4 * (y * (0x1000_0000_0000_0000int * 0x800_0000_0000int)))
        by (nonlinear_arith)
        requires
            0 <= g < 0x20_0000_0000_0000,
            0 < x <= y,
    ;
}

/// A trace of a finite number is small.
pub proof fn lemma_trace_small(x: Num)
    requires
        nonneg(x),
    ensures
        0int as real <= parts() * trace() <= 1int as real,
        parts() * trace() * exact(x) <= 4int as real,
{
    lemma_exact_nonneg(x);
    lemma_units_limit(x.mag());
    lemma_pow2_pos(1074);
    let d = pow2(1074) as int;
    let k = d as real;
    lemma_trace(k);
    lemma_real_product(d, d);
    let v = x.val() as real;
    let h = 0x10_0000_0000_0000int as real;
    assert(h * v <= 4int as real * (k * k));
    assert((h / k) * (v / k) <= 4int as real) by (nonlinear_arith)
        requires
            h * v <= 4int as real * (k * k),
            k > 0int as real,
    ;
    lemma_pow2_strictly_increases(52, 1074);
    lemma2_to64();
    assert(pow2(52) == 0x10_0000_0000_0000) by {
        lemma_pow2_adds(32, 20);
    }
    assert(0int as real <= h / k <= 1int as real) by (nonlinear_arith)
        requires
            (0int as real) < h <= k,
    ;
}

/// The difference of two finite numbers that are not negative is finite.
pub proof fn lemma_sub_finite(a: Num, b: Num)
    requires
        nonneg(a),
        nonneg(b),
    ensures
        (a - b).is_finite(),
{
    lemma_negated(b);
    let nb = b.negated();
    assert(a - b == a.spec_add(nb));
    lemma_add_key(a, nb);
    lemma_skey_exact(a);
    lemma_skey_exact(b);
    lemma_skey_exact(nb);
    lemma_skey_mono(nb.val(), a.val() + nb.val());
    lemma_skey_mono(a.val() + nb.val(), a.val());
}

/// One times a number is the number.
pub proof fn lemma_one_times(x: Num)
    requires
        x.is_finite(),
    ensures
        Num::one() * x == x,
{
    lemma_mul_mag(Num::one(), x);
    lemma_one_units();
    lemma_pow2_pos(1074);
    lemma_encode_exact(x.mag(), pow2(1074) as int);
    assert(units(x.mag()) * pow2(1074) == pow2(1074) * units(x.mag())) by (nonlinear_arith);
    let y = Num::one() * x;
    assert(y.mag() == x.mag() && y.is_neg() == x.is_neg());
    assert(y.bits == x.bits);
}

/// One has the value one.
pub proof fn lemma_exact_one()
    ensures
        exact(Num::one()) == 1int as real,
        exact(Num::zero()) == 0int as real,
        nonneg(Num::one()),
{
    lemma_one_units();
    lemma_pow2_pos(1074);
    lemma_units_small(0);
    let k = pow2(1074) as real;
    assert(k / k == 1int as real && 0int as real / k == 0int as real) by (nonlinear_arith)
        requires
            k > 0int as real,
    ;
}

/// A factor times a small error.
pub proof fn lemma_scaled(m: real, x: real, y: real, b: real)
    requires
        m >= 0int as real,
        parts() * dist(x, y) <= b,
    ensures
        parts() * dist(m * x, m * y) <= m * b,
{
    let k = parts();
    let d = dist(x, y);
    assert(m * (k * d) <= m * b) by (nonlinear_arith)
        requires
            m >= 0int as real,
            k * d <= b,
    ;
    assert(m * (k * d) == k * (m * d)) by (nonlinear_arith);
    if x < y {
        assert(m * x <= m * y && m * (y - x) == m * y - m * x) by (nonlinear_arith)
            requires
                x < y,
                m >= 0int as real,
        ;
    } else {
        assert(m * y <= m * x && m * (x - y) == m * x - m * y) by (nonlinear_arith)
            requires
                y <= x,
                m >= 0int as real,
        ;
    }
}

/// Ten thousand is a positive number.
pub proof fn lemma_ten_thousand()
    ensures
        nonneg(Num::uint(10_000)),
        Num::uint(10_000).key() > 0,
{
    lemma_uint_is_ratio(10_000);
    lemma2_to64();
    assert(pow2(39) == 0x80_0000_0000) by {
        lemma_pow2_adds(32, 7);
    }
    let x = 10_000int * 0x80_0000_0000;
    lemma_rne_exact(x, 1);
    lemma_ratio_bits(10_000, 1, 1035, x);
}

/// A billionth is a positive number, between 2^-30 and 2^-29.
pub proof fn lemma_billionth()
    ensures
        nonneg(Num::ratio(1, 1_000_000_000)),
        Num::ratio(1, 1_000_000_000).key() > 0,
        1int as real <= 0x4000_0000int as real * exact(Num::ratio(1, 1_000_000_000)) <= 2int as real,
{
    lemma2_to64();
    assert(pow2(82) == 0x10000_0000_0000_0000int * 0x4_0000) by {
        lemma_pow2_adds(64, 18);
    }
    let m = 4835703278458517int;
    lemma_ratio_bits(1, 1_000_000_000, 992, m);
    let x = Num::ratio(1, 1_000_000_000);
    assert(sig(x.mag()) == m && expo(x.mag()) == 992);
    lemma_pow2_adds(992, 82);
    lemma_pow2_pos(992);
    let p = pow2(992) as int;
    lemma_real_product(m, p);
    lemma_real_product(p, pow2(82) as int);
    let k = p as real;
    let y = pow2(82) as real;
    let z = m as real;
    assert((z * k) / (k * y) == z / y && 1int as real <= 0x4000_0000int as real * (z / y)
        && 0x4000_0000int as real * (z / y) <= 2int as real) by (nonlinear_arith)
        requires
            k > 0int as real,
            y > 0int as real,
            y <= 0x4000_0000int as real * z,
            0x4000_0000int as real * z <= 2int as real * y,
    ;
}

} // verus!
