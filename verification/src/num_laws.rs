//! Order laws of rounded arithmetic.
use crate::num::Num;
use crate::rounding::{
    encode, expo, lemma_encode_exact, lemma_encode_mono, lemma_rnd_steps, lemma_rne_scale, rne, sig,
    units, INF_BITS,
};
use vstd::arithmetic::power2::{
    lemma2_to64, lemma_pow2_adds, lemma_pow2_pos, lemma_pow2_unfold, pow2,
};
use vstd::prelude::*;

verus! {

/// A number between two bounds.
pub open spec fn within(x: Num, lo: Num, hi: Num) -> bool {
    lo.le(x) && x.le(hi)
}

/// Zero or more, below infinity.
pub open spec fn nonneg(x: Num) -> bool {
    x.is_finite() && x.key() >= 0
}

pub open spec fn unit(x: Num) -> bool {
    within(x, Num::zero(), Num::one())
}

pub proof fn lemma_units_order(b1: int, b2: int)
    requires
        0 <= b1 <= INF_BITS,
        0 <= b2 <= INF_BITS,
    ensures
        b1 <= b2 <==> units(b1) <= units(b2),
        units(b1) >= 0,
{
    lemma_units_nonneg(b1);
    lemma_units_nonneg(b2);
    lemma_encode_exact(b1, 1);
    lemma_encode_exact(b2, 1);
    if units(b1) <= units(b2) {
        lemma_encode_mono(units(b1) * 1, 1, units(b2) * 1, 1);
    }
    if units(b2) <= units(b1) {
        lemma_encode_mono(units(b2) * 1, 1, units(b1) * 1, 1);
    }
}

pub proof fn lemma_units_nonneg(b: int)
    requires
        0 <= b <= INF_BITS,
    ensures
        units(b) >= 0,
        units(b) == 0 <==> b == 0,
{
    lemma_pow2_pos(expo(b));
    let s = sig(b);
    let p = pow2(expo(b));
    assert(s >= 0 && (s == 0 <==> b == 0));
    assert(s * p >= 0 && (s * p == 0 <==> s == 0)) by (nonlinear_arith)
        requires
            s >= 0,
            p > 0,
    ;
}

pub proof fn lemma_one_units()
    ensures
        units(0x3FF0_0000_0000_0000) == pow2(1074),
        Num::one().mag() == 0x3FF0_0000_0000_0000,
{
    lemma2_to64();
    lemma_pow2_adds(52, 1022);
    assert(pow2(52) == 0x10_0000_0000_0000) by {
        lemma_pow2_adds(32, 20);
    }
    let b = 0x3FF0_0000_0000_0000int;
    assert(sig(b) == 0x10_0000_0000_0000 && expo(b) == 1022);
}

/// Signed position of the double nearest to `s` units.
pub open spec fn skey(s: int) -> int {
    if s < 0 {
        -encode(-s, 1)
    } else {
        encode(s, 1)
    }
}

pub proof fn lemma_skey_mono(s1: int, s2: int)
    requires
        s1 <= s2,
    ensures
        skey(s1) <= skey(s2),
        -INF_BITS <= skey(s1) <= INF_BITS,
        -INF_BITS <= skey(s2) <= INF_BITS,
{
    let a1 = if s1 < 0 { -s1 } else { s1 };
    let a2 = if s2 < 0 { -s2 } else { s2 };
    lemma_encode_mono(a1, 1, a1, 1);
    lemma_encode_mono(a2, 1, a2, 1);
    if s1 >= 0 {
        lemma_encode_mono(a1, 1, a2, 1);
    } else if s2 < 0 {
        lemma_encode_mono(a2, 1, a1, 1);
    }
}

pub proof fn lemma_skey_exact(x: Num)
    requires
        x.is_finite(),
    ensures
        skey(x.val()) == x.key(),
        x.key() >= 0 <==> x.val() >= 0,
{
    lemma_encode_exact(x.mag(), 1);
    lemma_units_nonneg(x.mag());
    assert(units(x.mag()) * 1 == units(x.mag()));
}

pub proof fn lemma_add_key(a: Num, b: Num)
    requires
        a.is_finite(),
        b.is_finite(),
    ensures
        (a + b).key() == skey(a.val() + b.val()),
        !(a + b).is_nan(),
{
    reveal(Num::spec_add);
    let s = a.val() + b.val();
    let m = if s < 0 { -s } else { s };
    lemma_encode_mono(m, 1, m, 1);
    if s == 0 {
        assert(encode(0, 1) == 0);
    }
}

pub proof fn lemma_val_order(a: Num, b: Num)
    requires
        a.is_finite(),
        b.is_finite(),
        a.le(b),
    ensures
        a.val() <= b.val(),
{
    lemma_units_order(a.mag(), b.mag());
    lemma_units_order(b.mag(), a.mag());
    lemma_units_nonneg(a.mag());
    lemma_units_nonneg(b.mag());
}

/// Adding the same number keeps the order.
pub proof fn lemma_add_mono(a: Num, b: Num, c: Num)
    requires
        a.is_finite(),
        b.is_finite(),
        c.is_finite(),
        a.le(b),
    ensures
        (a + c).le(b + c),
        (c + a).le(c + b),
{
    lemma_add_key(a, c);
    lemma_add_key(b, c);
    lemma_add_key(c, a);
    lemma_add_key(c, b);
    lemma_val_order(a, b);
    lemma_skey_mono(a.val() + c.val(), b.val() + c.val());
}

/// Adding what is not negative does not lower a number.
pub proof fn lemma_add_grows(x: Num, c: Num)
    requires
        !x.is_nan(),
        nonneg(c),
    ensures
        x.le(x + c),
        !(x + c).is_nan(),
{
    reveal(Num::spec_add);
    if x.is_finite() {
        lemma_add_key(x, c);
        lemma_skey_exact(x);
        lemma_skey_exact(c);
        lemma_skey_mono(x.val(), x.val() + c.val());
    }
}

pub proof fn lemma_negated(x: Num)
    ensures
        x.negated().key() == -x.key(),
        x.negated().is_nan() == x.is_nan(),
        x.negated().is_finite() == x.is_finite(),
        x.negated().val() == -x.val(),
        x.negated().mag() == x.mag(),
{
}

/// A difference with the smaller number taken away is not negative, where it is a number.
pub proof fn lemma_sub_nonneg(a: Num, b: Num)
    requires
        b.le(a),
    ensures
        (a - b).is_nan() || (a - b).ge(Num::zero()),
        a.is_finite() && b.is_finite() ==> !(a - b).is_nan(),
{
    reveal(Num::spec_add);
    lemma_negated(b);
    let nb = b.negated();
    assert(a - b == a.spec_add(nb));
    if a.is_finite() && b.is_finite() {
        lemma_add_key(a, nb);
        lemma_val_order(b, a);
        lemma_skey_mono(0, a.val() + nb.val());
        assert(encode(0, 1) == 0);
    }
}

/// Taking away what is not negative does not raise a number.
pub proof fn lemma_sub_shrinks(x: Num, c: Num)
    requires
        !x.is_nan(),
        nonneg(c),
    ensures
        (x - c).le(x),
        !(x - c).is_nan(),
{
    reveal(Num::spec_add);
    lemma_negated(c);
    let nc = c.negated();
    assert(x - c == x.spec_add(nc));
    if x.is_finite() {
        lemma_add_key(x, nc);
        lemma_skey_exact(x);
        lemma_skey_exact(c);
        lemma_skey_mono(x.val() + nc.val(), x.val());
    }
}

/// A sum of finite numbers that are not negative is at least each of them.
pub proof fn lemma_add_nonneg(a: Num, b: Num)
    requires
        nonneg(a),
        nonneg(b),
    ensures
        (a + b).ge(a),
        (a + b).ge(b),
        (a + b).ge(Num::zero()),
        !(a + b).is_nan(),
{
    lemma_add_grows(a, b);
    lemma_add_key(a, b);
    lemma_add_key(b, a);
    lemma_add_grows(b, a);
}

pub proof fn lemma_mul_mag(a: Num, b: Num)
    requires
        a.is_finite(),
        b.is_finite(),
    ensures
        (a * b).mag() == encode(units(a.mag()) * units(b.mag()), pow2(1074) as int),
        (a * b).is_neg() == (a.is_neg() != b.is_neg()),
        !(a * b).is_nan(),
{
    reveal(Num::spec_mul);
    lemma_pow2_pos(1074);
    lemma_units_nonneg(a.mag());
    lemma_units_nonneg(b.mag());
    let n = units(a.mag()) * units(b.mag());
    assert(n >= 0) by (nonlinear_arith)
        requires
            n == units(a.mag()) * units(b.mag()),
            units(a.mag()) >= 0,
            units(b.mag()) >= 0,
    ;
    lemma_encode_mono(n, pow2(1074) as int, n, pow2(1074) as int);
}

/// A share of a number is not more than the number.
pub proof fn lemma_mul_share(x: Num, y: Num)
    requires
        unit(x),
        nonneg(y),
    ensures
        nonneg(x * y),
        (x * y).le(y),
        nonneg(y * x),
        (y * x).le(y),
{
    lemma_mul_mag(x, y);
    lemma_mul_mag(y, x);
    lemma_one_units();
    lemma_pow2_pos(1074);
    let p = pow2(1074) as int;
    let ux = units(x.mag());
    let uy = units(y.mag());
    lemma_units_order(x.mag(), 0x3FF0_0000_0000_0000);
    lemma_units_nonneg(x.mag());
    lemma_units_nonneg(y.mag());
    assert(0 <= ux * uy <= uy * p) by (nonlinear_arith)
        requires
            0 <= ux <= p,
            0 <= uy,
    ;
    assert(ux * uy == uy * ux) by (nonlinear_arith);
    assert((ux * uy) * p <= (uy * p) * p) by (nonlinear_arith)
        requires
            ux * uy <= uy * p,
            p > 0,
    ;
    lemma_encode_mono(ux * uy, p, uy * p, p);
    lemma_encode_exact(y.mag(), p);
    // a negative zero times a share is still zero
    if y.is_neg() {
        assert(y.mag() == 0);
    }
    if x.is_neg() {
        assert(x.mag() == 0);
        assert(0 * uy == 0);
    }
}

/// A part over its whole is a share.
pub proof fn lemma_div_share(a: Num, b: Num)
    requires
        nonneg(a),
        nonneg(b),
        b.gt(Num::zero()),
        a.le(b),
    ensures
        unit(a / b),
{
    reveal(Num::spec_div);
    lemma_one_units();
    lemma_pow2_pos(1074);
    let p = pow2(1074) as int;
    let ua = units(a.mag());
    let ub = units(b.mag());
    lemma_units_nonneg(a.mag());
    lemma_units_nonneg(b.mag());
    lemma_units_order(a.mag(), b.mag());
    assert(0 <= ua * p <= p * ub) by (nonlinear_arith)
        requires
            0 <= ua <= ub,
            p > 0,
    ;
    assert((ua * p) * ub <= (p * ub) * ub) by (nonlinear_arith)
        requires
            ua * p <= p * ub,
            ub > 0,
    ;
    lemma_encode_mono(ua * p, ub, p * ub, ub);
    lemma_encode_exact(0x3FF0_0000_0000_0000, ub);
    if a.is_neg() {
        assert(a.mag() == 0);
        assert(units(0) == 0);
        assert(0 * p == 0);
    }
}

/// A quotient of numbers that are not negative is not negative, where it is a number.
pub proof fn lemma_div_nonneg(a: Num, b: Num)
    requires
        nonneg(a),
        b.gt(Num::zero()),
    ensures
        !(a / b).is_nan(),
        (a / b).ge(Num::zero()),
{
    reveal(Num::spec_div);
    if b.is_finite() {
        lemma_pow2_pos(1074);
        let p = pow2(1074) as int;
        let ua = units(a.mag());
        let ub = units(b.mag());
        lemma_units_nonneg(a.mag());
        lemma_units_nonneg(b.mag());
        assert(ua * p >= 0) by (nonlinear_arith)
            requires
                ua >= 0,
                p > 0,
        ;
        lemma_encode_mono(ua * p, ub, ua * p, ub);
        if a.is_neg() {
            assert(ua == 0);
            assert(0 * p == 0);
            lemma_encode_exact(0, ub);
            assert(0 * ub == 0);
        }
    }
}

/// The bits of a fraction below one, from its significand.
pub proof fn lemma_ratio_bits(n: u64, d: u64, e: nat, m: int)
    requires
        d > 0,
        e <= 1074,
        e > 0,
        0x10_0000_0000_0000 * d <= n * pow2((1074 - e) as nat),
        n * pow2((1074 - e) as nat) < 0x20_0000_0000_0000 * d,
        rne(n * pow2((1074 - e) as nat), d as int) == m,
        e * 0x10_0000_0000_0000 + m < INF_BITS,
        0 <= m,
    ensures
        Num::spec_ratio(n, d) == (Num { bits: (e * 0x10_0000_0000_0000 + m) as u64 }),
{
    reveal(Num::spec_ratio);
    let h = (1074 - e) as nat;
    lemma_pow2_adds(h, e);
    lemma_pow2_pos(e);
    let pe = pow2(e) as int;
    let ph = pow2(h) as int;
    let x = n * ph;
    assert(n * pow2(1074) == x * pe) by (nonlinear_arith)
        requires
            pow2(1074) == ph * pe,
            x == n * ph,
    ;
    assert(0x10_0000_0000_0000 * (d * pe) <= x * pe) by (nonlinear_arith)
        requires
            0x10_0000_0000_0000 * d <= x,
            pe > 0,
    ;
    assert(x * pe < 0x20_0000_0000_0000 * (d * pe)) by (nonlinear_arith)
        requires
            x < 0x20_0000_0000_0000 * d,
            pe > 0,
    ;
    lemma_rnd_steps(x * pe, d as int, e);
    lemma_rne_scale(x, d as int, pe);
}

/// One over one is one.
pub proof fn lemma_ratio_one()
    ensures
        Num::spec_ratio(1, 1) == Num::one(),
        Num::spec_uint(1) == Num::one(),
{
    crate::num_ops::lemma_uint_is_ratio(1);
    lemma2_to64();
    assert(pow2(52) == 0x10_0000_0000_0000) by {
        lemma_pow2_adds(32, 20);
    }
    lemma_ratio_bits(1, 1, 1022, 0x10_0000_0000_0000);
}

/// A difference with the smaller number taken away is positive.
pub proof fn lemma_sub_pos(a: Num, b: Num)
    requires
        a.is_finite(),
        b.is_finite(),
        b.lt(a),
    ensures
        (a - b).gt(Num::zero()),
{
    lemma_negated(b);
    let nb = b.negated();
    assert(a - b == a.spec_add(nb));
    lemma_add_key(a, nb);
    lemma_val_order(b, a);
    lemma_skey_exact(a);
    lemma_skey_exact(b);
    let d = a.val() - b.val();
    assert(d >= 1);
    lemma_skey_mono(1, d);
    assert(encode(1, 1) == 1);
}

/// Larger parts make a larger sum.
pub proof fn lemma_sum_mono(a1: Num, b1: Num, a2: Num, b2: Num)
    requires
        nonneg(a1),
        nonneg(a2),
        nonneg(b1),
        nonneg(b2),
        a1.le(b1),
        a2.le(b2),
        (b1 + b2).is_finite(),
    ensures
        (a1 + a2).le(b1 + b2),
        nonneg(a1 + a2),
        nonneg(b1 + b2),
{
    lemma_add_mono(a1, b1, a2);
    lemma_add_mono(a2, b2, b1);
    lemma_add_nonneg(a1, a2);
    lemma_add_nonneg(b1, b2);
}

/// A share of a finite number is finite, whatever its sign.
pub proof fn lemma_mul_share_finite(x: Num, y: Num)
    requires
        unit(x),
        y.is_finite(),
    ensures
        (x * y).is_finite(),
        (y * x).is_finite(),
{
    lemma_mul_share(x, y.abs());
    lemma_mul_mag(x, y);
    lemma_mul_mag(y, x);
    lemma_mul_mag(x, y.abs());
    lemma_mul_mag(y.abs(), x);
}

/// 0.72 and 0.28, and 0.6 and 0.4, add up to one.
pub proof fn lemma_complements()
    ensures
        Num::ratio(72, 100) + Num::ratio(28, 100) == Num::one(),
        Num::ratio(60, 100) + Num::ratio(40, 100) == Num::one(),
        unit(Num::ratio(72, 100)),
        unit(Num::ratio(28, 100)),
        unit(Num::ratio(60, 100)),
        unit(Num::ratio(40, 100)),
        Num::zero().lt(Num::ratio(40, 100)),
{
    lemma2_to64();
    assert(pow2(53) == 0x20_0000_0000_0000) by {
        lemma_pow2_adds(32, 21);
    }
    assert(pow2(54) == 0x40_0000_0000_0000) by {
        lemma_pow2_adds(32, 22);
    }
    lemma_ratio_bits(72, 100, 1021, 6485183463413514);
    lemma_ratio_bits(28, 100, 1020, 5044031582654956);
    lemma_ratio_bits(60, 100, 1021, 5404319552844595);
    lemma_ratio_bits(40, 100, 1020, 7205759403792794);
    lemma_complement(6485183463413514, 5044031582654956, Num::ratio(72, 100), Num::ratio(28, 100));
    lemma_complement(5404319552844595, 7205759403792794, Num::ratio(60, 100), Num::ratio(40, 100));
}

proof fn lemma_complement(m: int, k: int, a: Num, b: Num)
    requires
        0x10_0000_0000_0000 <= m < 0x20_0000_0000_0000,
        0x10_0000_0000_0000 <= k < 0x20_0000_0000_0000,
        2 * m + k == 0x40_0000_0000_0000,
        a.bits == 1021 * 0x10_0000_0000_0000 + m,
        b.bits == 1020 * 0x10_0000_0000_0000 + k,
    ensures
        a + b == Num::one(),
{
    lemma_pow2_unfold(1021);
    lemma2_to64();
    assert(pow2(54) == 0x40_0000_0000_0000) by {
        lemma_pow2_adds(32, 22);
    }
    lemma_pow2_adds(54, 1020);
    let p = pow2(1020) as int;
    assert(sig(a.mag()) == m && expo(a.mag()) == 1021);
    assert(sig(b.mag()) == k && expo(b.mag()) == 1020);
    assert(m * (2 * p) + k * p == 0x40_0000_0000_0000 * p) by (nonlinear_arith)
        requires
            2 * m + k == 0x40_0000_0000_0000,
    ;
    assert(a.val() + b.val() == pow2(1074));
    lemma_one_units();
    lemma_pow2_pos(1074);
    lemma_encode_exact(0x3FF0_0000_0000_0000, 1);
    assert(pow2(1074) * 1 == pow2(1074));
    reveal(Num::spec_add);
}

pub proof fn lemma_div_mag(a: Num, b: Num)
    requires
        a.is_finite(),
        b.is_finite(),
        b.mag() > 0,
    ensures
        (a / b).mag() == encode(units(a.mag()) * pow2(1074), units(b.mag())),
        (a / b).is_neg() == (a.is_neg() != b.is_neg()),
        !(a / b).is_nan(),
        a.mag() == 0 ==> (a / b).mag() == 0,
{
    reveal(Num::spec_div);
    lemma_pow2_pos(1074);
    lemma_units_nonneg(a.mag());
    lemma_units_nonneg(b.mag());
    let n = units(a.mag()) * pow2(1074);
    let d = units(b.mag());
    assert(n >= 0) by (nonlinear_arith)
        requires
            n == units(a.mag()) * pow2(1074),
            units(a.mag()) >= 0,
    ;
    lemma_encode_mono(n, d, n, d);
    if a.mag() == 0 {
        assert(0 * pow2(1074) == 0);
        lemma_encode_exact(0, d);
        assert(0 * d == 0);
    }
}

/// One thousand is a positive number.
pub proof fn lemma_thousand()
    ensures
        Num::uint(1000).is_finite(),
        Num::uint(1000).key() > 0,
{
    crate::num_ops::lemma_uint_is_ratio(1000);
    lemma2_to64();
    assert(pow2(43) == 0x800_0000_0000) by {
        lemma_pow2_adds(32, 11);
    }
    let x = 1000int * 0x800_0000_0000;
    crate::rounding::lemma_rne_exact(x, 1);
    lemma_ratio_bits(1000, 1, 1031, x);
}

/// A whole number that is not negative is the same as an unsigned one.
pub proof fn lemma_whole_is_uint(n: i64)
    requires
        n >= 0,
    ensures
        Num::whole(n) == Num::uint(n as u64),
{
    reveal(Num::spec_whole);
    reveal(Num::spec_uint);
}

/// What is not negative over what is positive is not negative.
pub proof fn lemma_quotient_nonneg(a: Num, b: Num)
    requires
        !a.is_nan(),
        a.key() >= 0,
        !a.is_neg(),
        b.is_finite(),
        b.key() > 0,
    ensures
        (a / b).ge(Num::zero()),
{
    if a.is_finite() {
        lemma_div_mag(a, b);
    } else {
        reveal(Num::spec_div);
    }
}

/// A larger factor makes a larger product.
pub proof fn lemma_mul_mono(c: Num, x: Num, y: Num)
    requires
        nonneg(c),
        nonneg(x),
        nonneg(y),
        x.le(y),
    ensures
        (c * x).le(c * y),
{
    lemma_mul_mag(c, x);
    lemma_mul_mag(c, y);
    lemma_pow2_pos(1074);
    let p = pow2(1074) as int;
    let uc = units(c.mag());
    let ux = units(x.mag());
    let uy = units(y.mag());
    lemma_units_nonneg(c.mag());
    lemma_units_nonneg(x.mag());
    lemma_units_nonneg(y.mag());
    lemma_val_order(x, y);
    assert(0 <= uc * ux <= uc * uy && (uc * ux) * p <= (uc * uy) * p) by (nonlinear_arith)
        requires
            0 <= uc,
            0 <= ux <= uy,
            0 < p,
    ;
    lemma_encode_mono(uc * ux, p, uc * uy, p);
    if c.is_neg() || y.is_neg() {
        assert(uc * uy == 0) by (nonlinear_arith)
            requires
                uc == 0 || uy == 0,
        ;
        lemma_encode_exact(0, p);
        assert(0 * p == 0);
    }
}

/// A larger number over the same makes a larger quotient.
pub proof fn lemma_div_mono(x: Num, y: Num, d: Num)
    requires
        nonneg(x),
        nonneg(y),
        d.is_finite(),
        d.key() > 0,
        x.le(y),
    ensures
        (x / d).le(y / d),
{
    lemma_div_mag(x, d);
    lemma_div_mag(y, d);
    lemma_pow2_pos(1074);
    let p = pow2(1074) as int;
    let ud = units(d.mag());
    let ux = units(x.mag());
    let uy = units(y.mag());
    lemma_units_nonneg(d.mag());
    lemma_units_nonneg(x.mag());
    lemma_units_nonneg(y.mag());
    lemma_val_order(x, y);
    assert(0 <= ux * p <= uy * p && (ux * p) * ud <= (uy * p) * ud) by (nonlinear_arith)
        requires
            0 <= ux <= uy,
            0 < p,
            0 < ud,
    ;
    lemma_encode_mono(ux * p, ud, uy * p, ud);
}

/// A smaller number less a larger one is the smaller difference.
pub proof fn lemma_sub_mono(a: Num, b: Num, x: Num, y: Num)
    requires
        a.is_finite(),
        b.is_finite(),
        x.is_finite(),
        y.is_finite(),
        a.le(b),
        y.le(x),
    ensures
        (a - x).le(b - y),
{
    lemma_negated(x);
    lemma_negated(y);
    let nx = x.negated();
    let ny = y.negated();
    assert(a - x == a.spec_add(nx) && b - y == b.spec_add(ny));
    lemma_add_key(a, nx);
    lemma_add_key(b, ny);
    lemma_val_order(a, b);
    lemma_val_order(y, x);
    lemma_skey_mono(a.val() + nx.val(), b.val() + ny.val());
}

/// Factors can be exchanged.
pub proof fn lemma_mul_comm(a: Num, b: Num)
    ensures
        a * b == b * a,
{
    reveal(Num::spec_mul);
    assert(units(a.mag()) * units(b.mag()) == units(b.mag()) * units(a.mag())) by (nonlinear_arith);
}

/// Over the same positive number the order stays, whatever the signs.
pub proof fn lemma_div_order(x: Num, y: Num, d: Num)
    requires
        !x.is_nan(),
        !y.is_nan(),
        x.le(y),
        d.is_finite(),
        d.key() > 0,
    ensures
        (x / d).le(y / d),
        !(x / d).is_nan(),
        !(y / d).is_nan(),
        x.key() >= 0 ==> (x / d).key() >= 0,
        x.key() <= 0 ==> (x / d).key() <= 0,
        y.key() >= 0 ==> (y / d).key() >= 0,
        y.key() <= 0 ==> (y / d).key() <= 0,
{
    reveal(Num::spec_div);
    if x.is_finite() {
        lemma_div_mag(x, d);
        lemma_div_mag(x.abs(), d);
    }
    if y.is_finite() {
        lemma_div_mag(y, d);
        lemma_div_mag(y.abs(), d);
    }
    if x.is_finite() && y.is_finite() {
        if x.key() >= 0 {
            lemma_div_mono(x, y, d);
        } else if y.key() < 0 {
            lemma_div_mono(y.abs(), x.abs(), d);
        }
    } else if x.is_finite() {
        lemma_encode_mag_limit(x, d);
    } else if y.is_finite() {
        lemma_encode_mag_limit(y, d);
    }
}

proof fn lemma_encode_mag_limit(x: Num, d: Num)
    requires
        x.is_finite(),
        d.is_finite(),
        d.key() > 0,
    ensures
        (x / d).mag() <= INF_BITS,
{
    lemma_div_mag(x, d);
}

/// A factor that is not negative keeps the order, whatever the signs.
pub proof fn lemma_mul_order(c: Num, x: Num, y: Num)
    requires
        nonneg(c),
        x.is_finite(),
        y.is_finite(),
        x.le(y),
    ensures
        (c * x).le(c * y),
        (x * c).le(y * c),
        x.key() >= 0 ==> (c * x).key() >= 0,
        x.key() <= 0 ==> (c * x).key() <= 0,
        y.key() >= 0 ==> (c * y).key() >= 0,
        y.key() <= 0 ==> (c * y).key() <= 0,
{
    lemma_mul_comm(c, x);
    lemma_mul_comm(c, y);
    lemma_mul_mag(c, x);
    lemma_mul_mag(c, y);
    lemma_mul_mag(c, x.abs());
    lemma_mul_mag(c, y.abs());
    if c.mag() == 0 {
        lemma_zero_product(c, x);
        lemma_zero_product(c, y);
    } else if x.key() >= 0 {
        lemma_mul_mono(c, x, y);
        if x.mag() == 0 {
            lemma_zero_product(x, c);
            lemma_mul_comm(x, c);
        }
        if y.mag() == 0 {
            lemma_zero_product(y, c);
            lemma_mul_comm(y, c);
        }
    } else if y.key() < 0 {
        lemma_mul_mono(c, y.abs(), x.abs());
    } else if y.mag() == 0 {
        lemma_zero_product(y, c);
        lemma_mul_comm(y, c);
    }
}

/// A zero times a finite number is a zero.
pub proof fn lemma_zero_product(z: Num, x: Num)
    requires
        z.mag() == 0,
        x.is_finite(),
    ensures
        (z * x).mag() == 0,
        (x * z).mag() == 0,
{
    lemma_mul_mag(z, x);
    lemma_mul_comm(z, x);
    lemma_pow2_pos(1074);
    lemma_units_nonneg(0);
    assert(0 * units(x.mag()) == 0);
    lemma_encode_exact(0, pow2(1074) as int);
    assert(0 * pow2(1074) == 0);
}

/// A zero added changes no number but the sign of a zero.
pub proof fn lemma_zero_sum(x: Num, z: Num)
    requires
        z.mag() == 0,
        !x.is_nan(),
    ensures
        (x + z).key() == x.key(),
        x.mag() > 0 ==> x + z == x,
        !(x + z).is_nan(),
{
    reveal(Num::spec_add);
    lemma_units_nonneg(0);
    if x.is_finite() {
        lemma_units_nonneg(x.mag());
        lemma_encode_exact(x.mag(), 1);
        assert(units(x.mag()) * 1 == units(x.mag()));
    }
}

/// What is not zero over itself is one.
pub proof fn lemma_self_quotient(x: Num)
    requires
        x.is_finite(),
        x.mag() > 0,
    ensures
        x / x == Num::one(),
{
    lemma_div_mag(x, x);
    lemma_one_units();
    lemma_units_nonneg(x.mag());
    lemma_encode_exact(0x3FF0_0000_0000_0000, units(x.mag()));
    assert(units(x.mag()) * pow2(1074) == pow2(1074) * units(x.mag())) by (nonlinear_arith);
    let q = x / x;
    assert(q.mag() == Num::one().mag() && !q.is_neg());
    assert(q.bits == Num::one().bits);
}

/// A number less itself is zero.
pub proof fn lemma_self_difference(x: Num)
    requires
        x.is_finite(),
    ensures
        (x - x).mag() == 0,
{
    reveal(Num::spec_add);
    lemma_negated(x);
    assert(x - x == x.spec_add(x.negated()));
}

/// Summands can be exchanged.
pub proof fn lemma_add_comm(a: Num, b: Num)
    ensures
        a + b == b + a,
{
    reveal(Num::spec_add);
    if a.is_inf() && b.is_inf() && a.is_neg() == b.is_neg() {
        assert(a.bits == b.bits);
    }
}

/// A difference turned round is its opposite.
pub proof fn lemma_sub_turned(a: Num, b: Num)
    ensures
        (a - b).is_nan() == (b - a).is_nan(),
        (a - b).key() == -(b - a).key() || (a - b).is_nan(),
        (a - b).mag() == (b - a).mag(),
{
    reveal(Num::spec_add);
    lemma_negated(a);
    lemma_negated(b);
    assert(a - b == a.spec_add(b.negated()));
    assert(b - a == b.spec_add(a.negated()));
    if a.is_finite() && b.is_finite() {
        let s = a.val() - b.val();
        let m = if s < 0 { -s } else { s };
        lemma_encode_mono(m, 1, m, 1);
    }
}

/// Over a larger number a quotient is not larger.
pub proof fn lemma_div_anti(x: Num, d: Num, e: Num)
    requires
        nonneg(x),
        d.is_finite(),
        e.is_finite(),
        d.key() > 0,
        d.le(e),
    ensures
        (x / e).le(x / d),
        !(x / d).is_nan(),
        !(x / e).is_nan(),
        (x / e).key() >= 0,
{
    lemma_div_mag(x, d);
    lemma_div_mag(x, e);
    lemma_pow2_pos(1074);
    let p = pow2(1074) as int;
    let (ux, ud, ue) = (units(x.mag()), units(d.mag()), units(e.mag()));
    lemma_units_nonneg(x.mag());
    lemma_units_nonneg(d.mag());
    lemma_units_nonneg(e.mag());
    lemma_val_order(d, e);
    assert(0 <= ux * p && (ux * p) * ud <= (ux * p) * ue) by (nonlinear_arith)
        requires
            0 <= ux,
            0 < p,
            0 < ud <= ue,
    ;
    lemma_encode_mono(ux * p, ue, ux * p, ud);
}

} // verus!
