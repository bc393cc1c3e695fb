//! Rounding of exact rationals onto the grid of IEEE 754 double precision.
//!
//! Every finite double is a whole number of units of 2^-1074, and the magnitude
//! bits of the doubles enumerate these values in increasing order. `rnd(n, d)` is
//! the magnitude whose value is nearest to `n / d` units, ties to the even one.
use vstd::arithmetic::div_mod::{lemma_fundamental_div_mod, lemma_fundamental_div_mod_converse};
use vstd::arithmetic::power2::{
    lemma2_to64, lemma_pow2_adds, lemma_pow2_pos, lemma_pow2_strictly_increases, lemma_pow2_unfold,
    pow2,
};
use vstd::prelude::*;

verus! {

/// 2^52: the number of doubles in one binade.
pub const P52: u64 = 0x10_0000_0000_0000;

/// Magnitude bits of infinity.
pub const INF_BITS: u64 = 0x7FF0_0000_0000_0000;

/// `n / d` rounded to a whole number, ties to even.
pub open spec fn rne(n: int, d: int) -> int {
    let m = n / d;
    let r = n % d;
    if 2 * r > d || (2 * r == d && m % 2 == 1) {
        m + 1
    } else {
        m
    }
}

/// Index of the double nearest to `n / d` units, with the exponent unbounded above.
///
/// Below 2^53 units neighbouring doubles are one unit apart; each doubling of the
/// spacing adds one binade of 2^52 doubles.
pub open spec fn rnd(n: int, d: int) -> int
    decreases n - d,
{
    if d <= 0 || n < 0x20_0000_0000_0000 * d {
        rne(n, d)
    } else {
        P52 + rnd(n, 2 * d)
    }
}

/// Magnitude bits of the double nearest to `n / d` units.
pub open spec fn encode(n: int, d: int) -> int {
    if rnd(n, d) >= INF_BITS {
        INF_BITS as int
    } else {
        rnd(n, d)
    }
}

/// Significand of the magnitude `b`.
pub open spec fn sig(b: int) -> int {
    if b < P52 {
        b
    } else {
        P52 + b % (P52 as int)
    }
}

/// Exponent of the magnitude `b` over the unit.
pub open spec fn expo(b: int) -> nat {
    if b < P52 {
        0
    } else {
        (b / (P52 as int) - 1) as nat
    }
}

/// The value of the magnitude `b`, in units of 2^-1074.
pub open spec fn units(b: int) -> int {
    sig(b) * pow2(expo(b))
}

pub proof fn lemma_rne_unique(n: int, d: int, m: int, r: int)
    requires
        d > 0,
        n == m * d + r,
        0 <= r < d,
    ensures
        n / d == m,
        n % d == r,
        rne(n, d) == if 2 * r > d || (2 * r == d && m % 2 == 1) {
            m + 1
        } else {
            m
        },
{
    lemma_fundamental_div_mod_converse(n, d, m, r);
}

pub proof fn lemma_rne_scale(n: int, d: int, c: int)
    requires
        d > 0,
        c > 0,
    ensures
        rne(n * c, d * c) == rne(n, d),
{
    let m = n / d;
    let r = n % d;
    lemma_fundamental_div_mod(n, d);
    assert(n * c == m * (d * c) + r * c) by (nonlinear_arith)
        requires
            n == d * m + r,
    ;
    assert(0 <= r * c < d * c && d * c > 0) by (nonlinear_arith)
        requires
            0 <= r < d,
            c > 0,
    ;
    lemma_rne_unique(n * c, d * c, m, r * c);
    assert((2 * (r * c) > d * c) == (2 * r > d) && (2 * (r * c) == d * c) == (2 * r == d))
        by (nonlinear_arith)
        requires
            c > 0,
    ;
}

pub proof fn lemma_rne_bounds(n: int, d: int, lo: int, hi: int)
    requires
        d > 0,
        lo * d <= n <= hi * d,
    ensures
        lo <= rne(n, d) <= hi,
{
    let m = n / d;
    let r = n % d;
    lemma_fundamental_div_mod(n, d);
    assert(lo <= m) by (nonlinear_arith)
        requires
            lo * d <= n,
            n == d * m + r,
            0 <= r < d,
    ;
    assert(m <= hi && (m == hi ==> r == 0)) by (nonlinear_arith)
        requires
            n <= hi * d,
            n == d * m + r,
            0 <= r < d,
    ;
}

pub proof fn lemma_rne_exact(m: int, d: int)
    requires
        d > 0,
    ensures
        rne(m * d, d) == m,
{
    lemma_rne_unique(m * d, d, m, 0);
}

pub proof fn lemma_rne_mono(n1: int, d1: int, n2: int, d2: int)
    requires
        d1 > 0,
        d2 > 0,
        n1 * d2 <= n2 * d1,
    ensures
        rne(n1, d1) <= rne(n2, d2),
{
    let m1 = n1 / d1;
    let r1 = n1 % d1;
    let m2 = n2 / d2;
    let r2 = n2 % d2;
    lemma_fundamental_div_mod(n1, d1);
    lemma_fundamental_div_mod(n2, d2);
    assert((d1 * m1 + r1) * d2 == (m1 * (d1 * d2)) + r1 * d2) by (nonlinear_arith);
    assert((d2 * m2 + r2) * d1 == (m2 * (d1 * d2)) + r2 * d1) by (nonlinear_arith);
    let dd = d1 * d2;
    assert(0 <= r1 * d2 < dd && 0 <= r2 * d1 < dd) by (nonlinear_arith)
        requires
            dd == d1 * d2,
            0 <= r1 < d1,
            0 <= r2 < d2,
    ;
    assert(m1 <= m2) by (nonlinear_arith)
        requires
            m1 * dd + r1 * d2 <= m2 * dd + r2 * d1,
            0 <= r1 * d2 < dd,
            0 <= r2 * d1 < dd,
    ;
    if m1 == m2 {
        assert(r1 * d2 <= r2 * d1);
        assert((2 * r1 > d1) == (2 * (r1 * d2) > dd) && (2 * r1 == d1) == (2 * (r1 * d2) == dd))
            by (nonlinear_arith)
            requires
                dd == d1 * d2,
                d2 > 0,
        ;
        assert((2 * r2 > d2) == (2 * (r2 * d1) > dd) && (2 * r2 == d2) == (2 * (r2 * d1) == dd))
            by (nonlinear_arith)
            requires
                dd == d1 * d2,
                d1 > 0,
        ;
    }
}

pub proof fn lemma_rnd_steps(n: int, d: int, e: nat)
    requires
        d > 0,
        e == 0 || n >= 0x10_0000_0000_0000 * (d * pow2(e)),
        n < 0x20_0000_0000_0000 * (d * pow2(e)),
    ensures
        rnd(n, d) == e * 0x10_0000_0000_0000 + rne(n, d * pow2(e)),
    decreases e,
{
    lemma_pow2_pos(e);
    if e == 0 {
        lemma2_to64();
    } else {
        lemma_pow2_unfold(e);
        let h = pow2((e - 1) as nat);
        lemma_pow2_pos((e - 1) as nat);
        assert(pow2(e) == 2 * h);
        assert(d * (2 * h) == (2 * d) * h) by (nonlinear_arith);
        assert(0x10_0000_0000_0000 * ((2 * d) * h) >= 0x20_0000_0000_0000 * d) by (nonlinear_arith)
            requires
                h >= 1,
                d > 0,
        ;
        if e - 1 > 0 {
            assert(n >= 0x10_0000_0000_0000 * ((2 * d) * h));
        }
        lemma_rnd_steps(n, 2 * d, (e - 1) as nat);
    }
}

pub proof fn lemma_rnd_lower(n: int, d: int)
    requires
        d > 0,
        n >= 0x10_0000_0000_0000 * d,
    ensures
        rnd(n, d) >= P52,
    decreases n - d,
{
    if n < 0x20_0000_0000_0000 * d {
        lemma_rne_bounds(n, d, P52 as int, 0x20_0000_0000_0000);
    } else {
        lemma_rnd_lower(n, 2 * d);
    }
}

pub proof fn lemma_rnd_nonneg(n: int, d: int)
    requires
        d > 0,
        n >= 0,
    ensures
        rnd(n, d) >= 0,
{
    if n < 0x20_0000_0000_0000 * d {
        lemma_rne_bounds(n, d, 0, 0x20_0000_0000_0000);
    } else {
        lemma_rnd_lower(n, d);
    }
}

/// Rounding never swaps the order of two rationals.
pub proof fn lemma_rnd_mono(n1: int, d1: int, n2: int, d2: int)
    requires
        d1 > 0,
        d2 > 0,
        0 <= n1,
        0 <= n2,
        n1 * d2 <= n2 * d1,
    ensures
        rnd(n1, d1) <= rnd(n2, d2),
    decreases n1 - d1 + n2,
{
    let big1 = n1 >= 0x20_0000_0000_0000 * d1;
    let big2 = n2 >= 0x20_0000_0000_0000 * d2;
    if big1 {
        assert(n2 >= 0x20_0000_0000_0000 * d2) by (nonlinear_arith)
            requires
                n1 * d2 <= n2 * d1,
                n1 >= 0x20_0000_0000_0000 * d1,
                d1 > 0,
                d2 > 0,
        ;
        assert(n1 * (2 * d2) <= n2 * (2 * d1)) by (nonlinear_arith)
            requires
                n1 * d2 <= n2 * d1,
        ;
        lemma_rnd_mono(n1, 2 * d1, n2, 2 * d2);
    } else if big2 {
        lemma_rne_bounds(n1, d1, 0, 0x20_0000_0000_0000);
        lemma_rnd_lower(n2, 2 * d2);
    } else {
        lemma_rne_mono(n1, d1, n2, d2);
    }
}

pub proof fn lemma_encode_mono(n1: int, d1: int, n2: int, d2: int)
    requires
        d1 > 0,
        d2 > 0,
        0 <= n1,
        0 <= n2,
        n1 * d2 <= n2 * d1,
    ensures
        0 <= encode(n1, d1) <= encode(n2, d2) <= INF_BITS,
{
    lemma_rnd_mono(n1, d1, n2, d2);
    lemma_rnd_nonneg(n1, d1);
    lemma_rnd_nonneg(n2, d2);
}

/// A value that is itself a double rounds to itself.
pub proof fn lemma_encode_exact(b: int, c: int)
    requires
        0 <= b <= INF_BITS,
        c > 0,
    ensures
        encode(units(b) * c, c) == b,
{
    let p = P52 as int;
    let e = expo(b);
    let s = sig(b);
    lemma_pow2_pos(e);
    let n = units(b) * c;
    if b < p {
        lemma2_to64();
        assert(s * 1 == s);
        assert(n < 0x20_0000_0000_0000 * c) by (nonlinear_arith)
            requires
                n == b * c,
                b < p,
                p == P52,
                c > 0,
                b >= 0,
        ;
        lemma_rne_exact(b, c);
    } else {
        lemma_fundamental_div_mod(b, p);
        let w = c * pow2(e);
        assert(n == s * w) by (nonlinear_arith)
            requires
                n == (s * pow2(e)) * c,
                w == c * pow2(e),
        ;
        assert(w > 0) by (nonlinear_arith)
            requires
                w == c * pow2(e),
                c > 0,
                pow2(e) > 0,
        ;
        assert(0x10_0000_0000_0000 * w <= s * w < 0x20_0000_0000_0000 * w) by (nonlinear_arith)
            requires
                w > 0,
                P52 <= s < 0x20_0000_0000_0000,
        ;
        lemma_rnd_steps(n, c, e);
        lemma_rne_exact(s, w);
        assert(e * 0x10_0000_0000_0000 + s == b) by (nonlinear_arith)
            requires
                b == p * (b / p) + b % p,
                e == b / p - 1,
                s == p + b % p,
                p == P52,
        ;
    }
}

/// Whether `n / d` lies in `[q, q + 1)` grid steps of 2^t units, `sticky` telling
/// whether it lies strictly inside.
pub open spec fn framed(n: int, d: int, q: int, t: int, sticky: bool) -> bool {
    let step = d * pow2(up(t));
    let top = n * pow2(down(t));
    &&& q * step <= top < (q + 1) * step
    &&& sticky <==> q * step != top
}

pub open spec fn up(t: int) -> nat {
    if t > 0 {
        t as nat
    } else {
        0
    }
}

pub open spec fn down(t: int) -> nat {
    if t < 0 {
        (-t) as nat
    } else {
        0
    }
}

proof fn lemma_frame_upper(n: int, d: int, q: int, t: int, sticky: bool, len: nat, e: nat)
    requires
        d > 0,
        n >= 0,
        0 < q < pow2(len),
        framed(n, d, q, t, sticky),
        e >= len - 53 + t,
    ensures
        n < 0x20_0000_0000_0000 * (d * pow2(e)),
{
    let u = up(t);
    let w = down(t);
    lemma2_to64();
    lemma_pow2_pos(u);
    lemma_pow2_pos(w);
    lemma_pow2_adds(len, u);
    let a = pow2(len);
    let pu = pow2(u);
    let pw = pow2(w);
    let pe = pow2(e);
    lemma_pow2_adds(53, e);
    lemma_pow2_adds(53 + e, w);
    assert(pow2(53) == 0x20_0000_0000_0000) by {
        lemma_pow2_adds(32, 21);
    }
    if len + u < 53 + e + w {
        lemma_pow2_strictly_increases(len + u, 53 + e + w);
    }
    assert(a * pu <= 0x20_0000_0000_0000 * pe * pw);
    assert((q + 1) * (d * pu) <= a * (d * pu)) by (nonlinear_arith)
        requires
            q + 1 <= a,
            d > 0,
            pu > 0,
    ;
    assert(a * (d * pu) == d * (a * pu)) by (nonlinear_arith);
    assert(d * (a * pu) <= d * (0x20_0000_0000_0000 * pe * pw)) by (nonlinear_arith)
        requires
            a * pu <= 0x20_0000_0000_0000 * pe * pw,
            d > 0,
    ;
    assert(d * (0x20_0000_0000_0000 * pe * pw) == (0x20_0000_0000_0000 * (d * pe)) * pw)
        by (nonlinear_arith);
    let x = 0x20_0000_0000_0000 * (d * pe);
    assert(n < x) by (nonlinear_arith)
        requires
            n * pw < x * pw,
            pw > 0,
    ;
}

proof fn lemma_frame_lower(n: int, d: int, q: int, t: int, sticky: bool, len: nat, e: nat)
    requires
        d > 0,
        n >= 0,
        len >= 1,
        pow2((len - 1) as nat) <= q,
        framed(n, d, q, t, sticky),
        e == len - 53 + t,
    ensures
        n >= 0x10_0000_0000_0000 * (d * pow2(e)),
{
    let u = up(t);
    let w = down(t);
    let l1 = (len - 1) as nat;
    lemma2_to64();
    lemma_pow2_pos(u);
    lemma_pow2_pos(w);
    lemma_pow2_adds(l1, u);
    let a = pow2(l1);
    let pu = pow2(u);
    let pw = pow2(w);
    let pe = pow2(e);
    lemma_pow2_adds(52, e);
    lemma_pow2_adds(52 + e, w);
    assert(pow2(52) == 0x10_0000_0000_0000) by {
        lemma_pow2_adds(32, 20);
    }
    assert(a * pu == 0x10_0000_0000_0000 * pe * pw);
    assert(q * (d * pu) >= a * (d * pu)) by (nonlinear_arith)
        requires
            q >= a,
            d > 0,
            pu > 0,
    ;
    assert(a * (d * pu) == d * (a * pu)) by (nonlinear_arith);
    assert(d * (0x10_0000_0000_0000 * pe * pw) == (0x10_0000_0000_0000 * (d * pe)) * pw)
        by (nonlinear_arith);
    let x = 0x10_0000_0000_0000 * (d * pe);
    assert(n >= x) by (nonlinear_arith)
        requires
            n * pw >= x * pw,
            pw > 0,
    ;
}

proof fn lemma_frame_rne(n: int, d: int, q: int, t: int, sticky: bool, e: nat, m: int, rem: int)
    requires
        d > 0,
        e >= t,
        framed(n, d, q, t, sticky),
        q == m * pow2((e - t) as nat) + rem,
        0 <= rem < pow2((e - t) as nat),
        e == t ==> !sticky,
    ensures
        ({
            let w = pow2((e - t) as nat);
            rne(n, d * pow2(e)) == if 2 * rem > w || (2 * rem == w && (sticky || m % 2 == 1)) {
                m + 1
            } else {
                m
            }
        }),
{
    let s = (e - t) as nat;
    let u = up(t);
    let dn = down(t);
    let ps = pow2(s);
    let pu = pow2(u);
    let pd = pow2(dn);
    let pe = pow2(e);
    lemma_pow2_pos(s);
    lemma_pow2_pos(u);
    lemma_pow2_pos(dn);
    lemma_pow2_pos(e);
    lemma_pow2_adds(e, dn);
    lemma_pow2_adds(u, s);
    assert(pe * pd == pu * ps);
    let step = d * pu;
    let top = n * pd;
    let f = top - q * step;
    assert(step > 0) by (nonlinear_arith)
        requires
            step == d * pu,
            d > 0,
            pu > 0,
    ;
    assert((q + 1) * step == q * step + step) by (nonlinear_arith);
    assert(0 <= f < step);
    let big = step * ps;
    assert((d * pe) * pd == big) by (nonlinear_arith)
        requires
            pe * pd == pu * ps,
            big == (d * pu) * ps,
    ;
    assert(d * pe > 0) by (nonlinear_arith)
        requires
            d > 0,
            pe > 0,
    ;
    lemma_rne_scale(n, d * pe, pd as int);
    let r = rem * step + f;
    assert(top == m * big + r) by (nonlinear_arith)
        requires
            top == q * step + f,
            q == m * ps + rem,
            big == step * ps,
            r == rem * step + f,
    ;
    assert(0 <= r < big) by (nonlinear_arith)
        requires
            r == rem * step + f,
            0 <= f < step,
            0 <= rem < ps,
            big == step * ps,
    ;
    lemma_rne_unique(top, big, m, r);
    if s == 0 {
        lemma2_to64();
        assert(r == 0) by (nonlinear_arith)
            requires
                r == rem * step + f,
                rem == 0,
                f == 0,
        ;
        assert(big > 0);
    } else {
        lemma_pow2_unfold(s);
        let h = pow2((s - 1) as nat);
        assert(ps == 2 * h);
        assert(big == 2 * (h * step)) by (nonlinear_arith)
            requires
                big == step * ps,
                ps == 2 * h,
        ;
        if rem > h {
            assert(rem * step >= h * step + step) by (nonlinear_arith)
                requires
                    rem >= h + 1,
                    step > 0,
            ;
        } else if rem < h {
            assert(rem * step + step <= h * step) by (nonlinear_arith)
                requires
                    rem + 1 <= h,
                    step > 0,
            ;
        }
    }
}

/// 2^k.
pub(crate) fn pow2_wide(k: u32) -> (r: u128)
    requires
        k < 128,
    ensures
        r == pow2(k as nat),
        r > 0,
{
    let mut r: u128 = 1;
    let mut i: u32 = 0;
    proof {
        lemma2_to64();
        lemma_pow2_127();
    }
    while i < k
        invariant
            i <= k < 128,
            r == pow2(i as nat),
            pow2(127) == 0x8000_0000_0000_0000_0000_0000_0000_0000,
        decreases k - i,
    {
        proof {
            lemma_pow2_unfold((i + 1) as nat);
            if i < 126 {
                lemma_pow2_strictly_increases((i + 1) as nat, 127);
            }
        }
        r = r * 2;
        i = i + 1;
    }
    proof {
        lemma_pow2_pos(k as nat);
    }
    r
}

pub(crate) proof fn lemma_pow2_127()
    ensures
        pow2(127) == 0x8000_0000_0000_0000_0000_0000_0000_0000,
{
    lemma2_to64();
    lemma_pow2_adds(64, 63);
    assert(pow2(63) == 0x8000_0000_0000_0000) by {
        lemma_pow2_unfold(64);
    }
    lemma_pow2_adds(63, 64);
}

/// The number of binary digits of `q`.
pub(crate) fn bit_length(q: u128) -> (len: u32)
    requires
        0 < q < 0x8000_0000_0000_0000_0000_0000_0000_0000,
    ensures
        1 <= len <= 127,
        pow2((len - 1) as nat) <= q < pow2(len as nat),
{
    let mut len: u32 = 1;
    let mut p: u128 = 2;
    proof {
        lemma2_to64();
        lemma_pow2_127();
    }
    while p <= q
        invariant
            0 < q < 0x8000_0000_0000_0000_0000_0000_0000_0000,
            1 <= len <= 127,
            p == pow2(len as nat),
            pow2((len - 1) as nat) <= q,
            pow2(127) == 0x8000_0000_0000_0000_0000_0000_0000_0000,
        decreases 127 - len,
    {
        proof {
            lemma_pow2_unfold((len + 1) as nat);
        }
        p = p * 2;
        len = len + 1;
    }
    len
}

/// Magnitude bits of the double nearest to `n / d` units, from a frame of `n / d`.
pub(crate) fn encode_framed(
    q: u128,
    t: i32,
    sticky: bool,
    Ghost(n): Ghost<int>,
    Ghost(d): Ghost<int>,
) -> (r: u64)
    requires
        0 < q < 0x8000_0000_0000_0000_0000_0000_0000_0000,
        -4000 <= t <= 4000,
        d > 0,
        n >= 0,
        framed(n, d, q as int, t as int, sticky),
        sticky ==> q >= 0x40_0000_0000_0000,
    ensures
        r == encode(n, d),
        r <= INF_BITS,
{
    let len: u32 = bit_length(q);
    let raw: i32 = len as i32 - 53 + t;
    let e: i32 = if raw > 0 {
        raw
    } else {
        0
    };
    proof {
        lemma_frame_upper(n, d, q as int, t as int, sticky, len as nat, e as nat);
        if e > 0 {
            lemma_frame_lower(n, d, q as int, t as int, sticky, len as nat, e as nat);
        }
        lemma_rnd_steps(n, d, e as nat);
        if sticky {
            assert(len >= 55) by {
                lemma2_to64();
                assert(pow2(54) == 0x40_0000_0000_0000) by {
                    lemma_pow2_adds(32, 22);
                }
                if len < 54 {
                    lemma_pow2_strictly_increases(len as nat, 54);
                }
            }
        }
        lemma_rnd_nonneg(n, d);
    }
    let m: u64;
    if e >= t {
        let s: u32 = (e - t) as u32;
        if s >= 128 {
            proof {
                lemma_pow2_strictly_increases(127, s as nat);
                lemma_pow2_127();
                lemma_pow2_unfold(s as nat);
                if s > 128 {
                    lemma_pow2_strictly_increases(127, (s - 1) as nat);
                }
                assert(0 * pow2(s as nat) == 0);
                lemma_frame_rne(
                    n,
                    d,
                    q as int,
                    t as int,
                    sticky,
                    e as nat,
                    0,
                    q as int,
                );
            }
            m = 0;
        } else {
            let w: u128 = pow2_wide(s);
            let f: u128 = q / w;
            let rem: u128 = q % w;
            proof {
                lemma_fundamental_div_mod(q as int, w as int);
                assert(f * w == w * f) by (nonlinear_arith);
                lemma_frame_rne(
                    n,
                    d,
                    q as int,
                    t as int,
                    sticky,
                    e as nat,
                    f as int,
                    rem as int,
                );
                lemma_frame_floor(q as int, w as int, f as int, len as nat, s as nat);
            }
            let half: u128 = w - rem;
            if rem > half || (rem == half && (sticky || f % 2 == 1)) {
                m = f as u64 + 1;
            } else {
                m = f as u64;
            }
        }
    } else {
        let k: u32 = (t - e) as u32;
        proof {
            lemma_frame_exact(n, d, q as int, t as int, sticky, e as nat, len as nat);
        }
        let w: u128 = pow2_wide(k);
        m = (q * w) as u64;
    }
    if e > 2046 {
        return INF_BITS;
    }
    let r: u64 = e as u64 * 0x10_0000_0000_0000 + m;
    if r >= INF_BITS {
        INF_BITS
    } else {
        r
    }
}

proof fn lemma_frame_floor(q: int, w: int, f: int, len: nat, s: nat)
    requires
        0 < q < pow2(len),
        w == pow2(s),
        f == q / w,
        len <= 53 + s,
    ensures
        0 <= f < 0x20_0000_0000_0000,
{
    lemma2_to64();
    lemma_pow2_pos(s);
    lemma_pow2_adds(53, s);
    assert(pow2(53) == 0x20_0000_0000_0000) by {
        lemma_pow2_adds(32, 21);
    }
    if len < 53 + s {
        lemma_pow2_strictly_increases(len, 53 + s);
    }
    lemma_fundamental_div_mod(q, w);
    assert(0 <= f < 0x20_0000_0000_0000) by (nonlinear_arith)
        requires
            q == w * f + q % w,
            0 <= q % w < w,
            0 < q < 0x20_0000_0000_0000 * w,
    ;
}

proof fn lemma_frame_exact(n: int, d: int, q: int, t: int, sticky: bool, e: nat, len: nat)
    requires
        d > 0,
        0 < q < pow2(len),
        len <= 127,
        e < t,
        !sticky,
        t - e + len <= 53,
        framed(n, d, q, t, sticky),
    ensures
        q * pow2((t - e) as nat) < 0x20_0000_0000_0000,
        rne(n, d * pow2(e)) == q * pow2((t - e) as nat),
{
    let k = (t - e) as nat;
    lemma2_to64();
    lemma_pow2_pos(e);
    lemma_pow2_pos(k);
    lemma_pow2_adds(e, k);
    assert(pow2(53) == 0x20_0000_0000_0000) by {
        lemma_pow2_adds(32, 21);
    }
    lemma_pow2_adds(len, k);
    if len + k < 53 {
        lemma_pow2_strictly_increases(len + k, 53);
    }
    let pk = pow2(k);
    let pe = pow2(e);
    assert(q * pk < pow2(len) * pk) by (nonlinear_arith)
        requires
            q < pow2(len),
            pk > 0,
    ;
    assert(n == (q * pk) * (d * pe)) by (nonlinear_arith)
        requires
            n * 1 == q * (d * (pe * pk)),
    ;
    assert(d * pe > 0) by (nonlinear_arith)
        requires
            d > 0,
            pe > 0,
    ;
    lemma_rne_exact(q * pk, d * pe);
}

} // verus!
