//! Square root of `Num`.
use crate::num::Num;
use crate::num_laws::{
    lemma_one_units, lemma_units_nonneg, lemma_units_order, lemma_val_order, nonneg,
};
use crate::num_ops::split;
use crate::rounding::{
    encode, encode_framed, framed, lemma_encode_exact, lemma_encode_mono, lemma_pow2_127, units,
    INF_BITS,
};
use vstd::arithmetic::power2::{
    lemma2_to64, lemma_pow2_adds, lemma_pow2_pos, lemma_pow2_unfold, pow2,
};
use vstd::prelude::*;

verus! {

pub open spec fn is_root(n: int, s: int) -> bool {
    &&& 0 <= s
    &&& s * s <= n
    &&& n < (s + 1) * (s + 1)
}

/// The whole part of the square root of `n`.
pub open spec fn isqrt(n: int) -> int {
    choose|s: int| is_root(n, s)
}

proof fn lemma_root_unique(n: int, s: int)
    requires
        is_root(n, s),
    ensures
        isqrt(n) == s,
{
    let r = isqrt(n);
    assert(is_root(n, r));
    if r < s {
        assert((r + 1) * (r + 1) <= s * s) by (nonlinear_arith)
            requires
                0 <= r < s,
        ;
    } else if s < r {
        assert((s + 1) * (s + 1) <= r * r) by (nonlinear_arith)
            requires
                0 <= s < r,
        ;
    }
}

proof fn lemma_root_exists(n: int) -> (s: int)
    requires
        n >= 0,
    ensures
        is_root(n, s),
    decreases n,
{
    if n == 0 {
        assert(is_root(0, 0)) by (nonlinear_arith);
        0
    } else {
        let r = lemma_root_exists(n - 1);
        assert((r + 1) * (r + 1) == r * r + 2 * r + 1) by (nonlinear_arith);
        assert((r + 2) * (r + 2) == r * r + 4 * r + 4) by (nonlinear_arith);
        if n < (r + 1) * (r + 1) {
            r
        } else {
            r + 1
        }
    }
}

impl Num {
    /// The double nearest to the square root; half a step stands for what the whole
    /// part of the root leaves over, far below the last digit.
    pub open spec fn spec_sqrt(self) -> Num {
        if self.is_nan() || (self.is_neg() && self.mag() > 0) {
            Num::nan()
        } else if self.is_inf() || self.mag() == 0 {
            self
        } else {
            let n = units(self.mag()) * pow2(1074);
            let s = isqrt(n);
            Num::of(
                false,
                encode(
                    if s * s == n {
                        2 * s
                    } else {
                        2 * s + 1
                    },
                    2,
                ),
            )
        }
    }

    #[verifier::when_used_as_spec(spec_sqrt)]
    pub fn sqrt(self) -> (r: Num)
        ensures
            r == self.spec_sqrt(),
    {
        if self.is_nan() || (self.sign_of() && self.mag_of() > 0) {
            return Num { bits: 0x7FF8_0000_0000_0000 };
        }
        let b: u64 = self.mag_of();
        if b == INF_BITS || b == 0 {
            return self;
        }
        let (m, e): (u64, u32) = split(b);
        let bits: u64 = root_bits(m, e);
        Num::make(false, bits)
    }
}

/// The whole part of the square root of `y`.
fn whole_root(y: u128) -> (w: u64)
    requires
        y < 0x4000_0000_0000_0000_0000_0000_0000_0000,
    ensures
        is_root(y as int, w as int),
        w < 0x8000_0000_0000_0000,
{
    let mut lo: u64 = 0;
    let mut hi: u64 = 0x8000_0000_0000_0000;
    while hi - lo > 1
        invariant
            lo < hi <= 0x8000_0000_0000_0000,
            lo * lo <= y,
            y < hi * hi,
        decreases hi - lo,
    {
        let mid: u64 = lo + (hi - lo) / 2;
        assert(mid * mid < 0x8000_0000_0000_0000 * 0x8000_0000_0000_0000) by (nonlinear_arith)
            requires
                0 <= mid < 0x8000_0000_0000_0000,
        ;
        if mid as u128 * mid as u128 <= y {
            lo = mid;
        } else {
            hi = mid;
        }
    }
    lo
}

proof fn lemma_root_framed(n: int, y: int, w: int, t: nat)
    requires
        y >= 0,
        n == y * pow2(2 * t),
        is_root(y, w),
    ensures
        ({
            let s = isqrt(n);
            let v = if s * s == n {
                2 * s
            } else {
                2 * s + 1
            };
            &&& v >= 0
            &&& framed(v, 2, w, t as int, w * w != y)
        }),
{
    lemma_pow2_pos(t);
    lemma_pow2_adds(t, t);
    lemma2_to64();
    let p = pow2(t) as int;
    assert(n == y * (p * p));
    assert(n >= 0) by (nonlinear_arith)
        requires
            n == y * (p * p),
            y >= 0,
    ;
    let s = lemma_root_exists(n);
    lemma_root_unique(n, s);
    let a = w * p;
    let c = (w + 1) * p;
    assert(a * a == (w * w) * (p * p)) by (nonlinear_arith)
        requires
            a == w * p,
    ;
    assert(c * c == ((w + 1) * (w + 1)) * (p * p)) by (nonlinear_arith)
        requires
            c == (w + 1) * p,
    ;
    assert(p * p > 0) by (nonlinear_arith)
        requires
            p > 0,
    ;
    assert(a * a <= n) by (nonlinear_arith)
        requires
            a * a == (w * w) * (p * p),
            n == y * (p * p),
            w * w <= y,
            p * p > 0,
    ;
    assert(n < c * c) by (nonlinear_arith)
        requires
            c * c == ((w + 1) * (w + 1)) * (p * p),
            n == y * (p * p),
            y < (w + 1) * (w + 1),
            p * p > 0,
    ;
    assert(a >= 0 && c >= 0) by (nonlinear_arith)
        requires
            a == w * p,
            c == (w + 1) * p,
            w >= 0,
            p > 0,
    ;
    assert(a <= s) by (nonlinear_arith)
        requires
            a * a <= n,
            n < (s + 1) * (s + 1),
            a >= 0,
            s >= 0,
    ;
    assert(s < c) by (nonlinear_arith)
        requires
            s * s <= n,
            n < c * c,
            c >= 0,
            s >= 0,
    ;
    let v = if s * s == n {
        2 * s
    } else {
        2 * s + 1
    };
    assert(w * (2 * p) == 2 * a) by (nonlinear_arith)
        requires
            a == w * p,
    ;
    assert((w + 1) * (2 * p) == 2 * c) by (nonlinear_arith)
        requires
            c == (w + 1) * p,
    ;
    if w * w == y {
        assert(a * a == n);
        assert(s == a) by (nonlinear_arith)
            requires
                s * s <= n,
                n == a * a,
                a <= s,
                a >= 0,
        ;
    } else {
        assert(a * a != n) by (nonlinear_arith)
            requires
                a * a == (w * w) * (p * p),
                n == y * (p * p),
                w * w < y,
                p * p > 0,
        ;
        assert(v > 2 * a);
    }
    assert(v * 1 == v);
}

/// Magnitude of the root of `m * 2^e` units.
fn root_bits(m: u64, e: u32) -> (r: u64)
    requires
        0 < m < 0x20_0000_0000_0000,
        e <= 2046,
    ensures
        ({
            let n = (m * pow2(e as nat)) * pow2(1074);
            let s = isqrt(n);
            r == encode(
                if s * s == n {
                    2 * s
                } else {
                    2 * s + 1
                },
                2,
            )
        }),
        r <= INF_BITS,
{
    let mut y: u128 = m as u128;
    let mut z: u32 = 0;
    proof {
        lemma2_to64();
        assert(m * 1 == m);
    }
    while y < 0x1000_0000_0000_0000_0000_0000_0000_0000 || (e + z) % 2 == 1
        invariant
            0 < m,
            e <= 2046,
            y == m * pow2(z as nat),
            y >= pow2(z as nat),
            y < 0x4000_0000_0000_0000_0000_0000_0000_0000,
            y >= 0x2000_0000_0000_0000_0000_0000_0000_0000 ==> (e + z) % 2 == 0,
            z <= 126,
            m < 0x20_0000_0000_0000,
        decreases 127 - z,
    {
        proof {
            lemma_pow2_unfold((z + 1) as nat);
            let p = pow2(z as nat);
            assert(m * (2 * p) == 2 * (m * p)) by (nonlinear_arith);
            lemma_pow2_127();
            lemma_pow2_unfold(127);
            if z >= 126 {
                assert(pow2(126) == 0x4000_0000_0000_0000_0000_0000_0000_0000);
                assert(false);
            }
        }
        y = y * 2;
        z = z + 1;
    }
    let w: u64 = whole_root(y);
    let t: i32 = (e as i32 + 1074 - z as i32) / 2;
    let ghost n = (m * pow2(e as nat)) * pow2(1074);
    let ghost s = isqrt(n);
    let ghost v = if s * s == n {
        2 * s
    } else {
        2 * s + 1
    };
    proof {
        assert(2 * t == e + 1074 - z);
        lemma_pow2_adds(e as nat, 1074);
        lemma_pow2_adds(z as nat, (2 * t) as nat);
        assert(n == y * pow2((2 * t) as nat)) by (nonlinear_arith)
            requires
                n == (m * pow2(e as nat)) * pow2(1074),
                y == m * pow2(z as nat),
                pow2(e as nat) * pow2(1074) == pow2(z as nat) * pow2((2 * t) as nat),
        ;
        lemma_root_framed(n, y as int, w as int, t as nat);
        assert(w >= 0x400_0000_0000_0000) by (nonlinear_arith)
            requires
                y >= 0x1000_0000_0000_0000_0000_0000_0000_0000,
                y < (w + 1) * (w + 1),
                w >= 0,
        ;
        assert(w * w < 0x4000_0000_0000_0000_0000_0000_0000_0000) by (nonlinear_arith)
            requires
                0 <= w < 0x8000_0000_0000_0000,
        ;
    }
    let sticky: bool = w as u128 * w as u128 != y;
    encode_framed(w as u128, t, sticky, Ghost(v), Ghost(2))
}

/// Twice the root of a number, rounded to the odd number between two even ones.
spec fn half_steps(n: int) -> int {
    let s = isqrt(n);
    if s * s == n {
        2 * s
    } else {
        2 * s + 1
    }
}

proof fn lemma_half_steps(n: int, k: int)
    requires
        0 <= n <= k,
    ensures
        0 <= half_steps(n) <= half_steps(k),
        is_root(n, isqrt(n)),
        is_root(k, isqrt(k)),
{
    let a = lemma_root_exists(n);
    let b = lemma_root_exists(k);
    lemma_root_unique(n, a);
    lemma_root_unique(k, b);
    if b < a {
        assert((b + 1) * (b + 1) <= a * a) by (nonlinear_arith)
            requires
                0 <= b < a,
        ;
    }
}

/// The root of a larger number is not smaller; that of a positive one is positive, and none is
/// larger than the number and one.
pub proof fn lemma_sqrt_order(x: Num, y: Num)
    requires
        nonneg(x),
        nonneg(y),
        x.key() > 0,
        x.le(y),
    ensures
        x.sqrt().le(y.sqrt()),
        nonneg(x.sqrt()),
        nonneg(y.sqrt()),
        x.sqrt().key() > 0,
        y.sqrt().le(y.max(Num::one())),
{
    let p = pow2(1074) as int;
    lemma_pow2_pos(1074);
    let (ux, uy) = (units(x.mag()), units(y.mag()));
    lemma_units_nonneg(x.mag());
    lemma_units_nonneg(y.mag());
    lemma_val_order(x, y);
    assert(0 < ux * p <= uy * p) by (nonlinear_arith)
        requires
            0 < ux <= uy,
            0 < p,
    ;
    lemma_half_steps(ux * p, uy * p);
    lemma_encode_mono(half_steps(ux * p), 2, half_steps(uy * p), 2);
    lemma_root_at_most_one(x);
    lemma_root_at_most_one(y);
}

proof fn lemma_root_at_most_one(x: Num)
    requires
        nonneg(x),
        x.key() > 0,
    ensures
        nonneg(x.sqrt()),
        x.sqrt().key() > 0,
        x.sqrt().le(x.max(Num::one())),
{
    let p = pow2(1074) as int;
    lemma_pow2_pos(1074);
    lemma_one_units();
    lemma_units_nonneg(x.mag());
    lemma_units_order(x.mag(), 0x3FF0_0000_0000_0000);
    lemma_units_order(0x3FF0_0000_0000_0000, x.mag());
    let u = units(x.mag());
    let n = u * p;
    let top = if u >= p { u } else { p };
    assert(1 <= n <= top * top) by (nonlinear_arith)
        requires
            n == u * p,
            1 <= u,
            1 <= p,
            u <= top,
            p <= top,
    ;
    lemma_half_steps(n, n);
    let s = isqrt(n);
    assert(1 <= s <= top) by (nonlinear_arith)
        requires
            s * s <= n,
            n < (s + 1) * (s + 1),
            1 <= n <= top * top,
            0 <= s,
            1 <= top,
    ;
    let m = half_steps(n);
    assert(m <= 2 * top) by {
        if s == top {
            assert(s * s == n) by (nonlinear_arith)
                requires
                    s == top,
                    s * s <= n,
                    n <= top * top,
            ;
        }
    }
    let b = if u >= p { x.mag() } else { 0x3FF0_0000_0000_0000int };
    assert(units(b) == top);
    lemma_encode_mono(m, 2, top, 1);
    lemma_encode_exact(b, 1);
    lemma_encode_mono(1, 1, m, 2);
    assert(encode(1, 1) == 1);
    assert(units(b) * 1 == units(b));
}

/// The root of one is one.
pub proof fn lemma_sqrt_one()
    ensures
        Num::one().sqrt() == Num::one(),
{
    let p = pow2(1074) as int;
    lemma_pow2_pos(1074);
    lemma_one_units();
    let b = 0x3FF0_0000_0000_0000int;
    assert(is_root(p * p, p)) by (nonlinear_arith)
        requires
            p > 0,
            is_root(p * p, p) == (0 <= p && p * p <= p * p && p * p < (p + 1) * (p + 1)),
    ;
    lemma_root_unique(p * p, p);
    lemma_encode_mono(2 * p, 2, p, 1);
    lemma_encode_mono(p, 1, 2 * p, 2);
    lemma_encode_exact(b, 1);
    assert(units(b) * 1 == p);
}

} // verus!
