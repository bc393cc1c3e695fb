//! Whole parts of `Num`.
use crate::num::Num;
use crate::num_laws::{lemma_skey_mono, lemma_units_nonneg, lemma_val_order, nonneg};
use crate::num_ops::split;
use crate::rounding::{
    encode, lemma_encode_exact, lemma_encode_mono, lemma_pow2_127, pow2_wide, units, INF_BITS,
};
use vstd::arithmetic::div_mod::{lemma_fundamental_div_mod, lemma_fundamental_div_mod_converse};
use vstd::arithmetic::power2::{
    lemma2_to64, lemma_pow2_adds, lemma_pow2_pos, lemma_pow2_strictly_increases, pow2,
};
use vstd::prelude::*;

verus! {

/// The whole units in a magnitude, and whether anything is left over.
pub open spec fn whole_part(b: int) -> int {
    units(b) / (pow2(1074) as int)
}

/// The magnitude's nearest whole number, halves up.
pub open spec fn whole_nearest(b: int) -> int {
    (2 * units(b) + pow2(1074)) / (2 * pow2(1074) as int)
}

proof fn lemma_whole_parts(m: int, e: nat)
    requires
        0 <= m,
        e < 1074,
    ensures
        ({
            let w = pow2((1074 - e) as nat) as int;
            let u = m * pow2(e);
            &&& u / (pow2(1074) as int) == m / w
            &&& (u % (pow2(1074) as int) == 0 <==> m % w == 0)
            &&& (2 * u + pow2(1074)) / (2 * pow2(1074) as int) == (2 * m + w) / (2 * w)
        }),
{
    let h = (1074 - e) as nat;
    lemma_pow2_adds(h, e);
    lemma_pow2_pos(h);
    lemma_pow2_pos(e);
    let w = pow2(h) as int;
    let p = pow2(e) as int;
    let big = pow2(1074) as int;
    let u = m * p;
    let q = m / w;
    let r = m % w;
    lemma_fundamental_div_mod(m, w);
    assert(u == q * big + r * p) by (nonlinear_arith)
        requires
            u == m * p,
            m == w * q + r,
            big == w * p,
    ;
    assert(0 <= r * p < big && (r * p == 0 <==> r == 0)) by (nonlinear_arith)
        requires
            0 <= r < w,
            p > 0,
            big == w * p,
    ;
    lemma_fundamental_div_mod_converse(u, big, q, r * p);
    let x = 2 * m + w;
    let q2 = x / (2 * w);
    let r2 = x % (2 * w);
    lemma_fundamental_div_mod(x, 2 * w);
    assert(2 * u + big == x * p) by (nonlinear_arith)
        requires
            u == m * p,
            big == w * p,
            x == 2 * m + w,
    ;
    assert(x * p == q2 * (2 * big) + r2 * p) by (nonlinear_arith)
        requires
            x == (2 * w) * q2 + r2,
            big == w * p,
    ;
    assert(0 <= r2 * p < 2 * big) by (nonlinear_arith)
        requires
            0 <= r2 < 2 * w,
            p > 0,
            big == w * p,
    ;
    lemma_fundamental_div_mod_converse(2 * u + big, 2 * big, q2, r2 * p);
}

/// Whole part, whether anything is left over, and nearest whole number of a magnitude
/// below the exponent of one unit.
fn parts_of(m: u64, e: u32) -> (r: (u64, bool, u64))
    requires
        m < 0x20_0000_0000_0000,
        e < 1074,
    ensures
        r.0 == (m * pow2(e as nat)) / (pow2(1074) as int),
        r.1 == ((m * pow2(e as nat)) % (pow2(1074) as int) != 0),
        r.2 == (2 * (m * pow2(e as nat)) + pow2(1074)) / (2 * pow2(1074) as int),
        r.0 < 0x20_0000_0000_0000,
        r.2 <= 0x20_0000_0000_0000,
{
    proof {
        lemma_whole_parts(m as int, e as nat);
    }
    let h: u32 = 1074 - e;
    if h >= 126 {
        proof {
            lemma_pow2_127();
            lemma2_to64();
            lemma_pow2_strictly_increases(64, h as nat);
            let w = pow2(h as nat) as int;
            assert(0 * w == 0 && 0 * (2 * w) == 0);
            lemma_fundamental_div_mod_converse(m as int, w, 0, m as int);
            lemma_fundamental_div_mod_converse(2 * m + w, 2 * w, 0, 2 * m + w);
        }
        return (0, m != 0, 0);
    }
    let w: u128 = pow2_wide(h);
    proof {
        lemma_pow2_127();
        lemma_pow2_adds(1, 126);
        lemma2_to64();
        lemma_pow2_strictly_increases(h as nat, 126);
        lemma_pow2_strictly_increases(0, h as nat);
        let q = m as int / (w as int);
        let q2 = (2 * m + w) / (2 * w as int);
        lemma_fundamental_div_mod(m as int, w as int);
        lemma_fundamental_div_mod(2 * m + w, 2 * w as int);
        assert(0 <= q <= m) by (nonlinear_arith)
            requires
                m == w * q + m as int % (w as int),
                0 <= m as int % (w as int) < w,
                w >= 1,
        ;
        assert(0 <= q2 <= m + 1) by (nonlinear_arith)
            requires
                2 * m + w == (2 * w) * q2 + (2 * m + w) % (2 * w as int),
                0 <= (2 * m + w) % (2 * w as int) < 2 * w,
                w >= 1,
        ;
    }
    let q: u128 = m as u128 / w;
    let left: bool = m as u128 % w != 0;
    let q2: u128 = (2 * m as u128 + w) / (2 * w);
    (q as u64, left, q2 as u64)
}

impl Num {
    /// The largest whole number that is not above the number.
    pub open spec fn spec_floor(self) -> Num {
        if self.is_nan() {
            Num::nan()
        } else if self.is_inf() || self.mag() == 0 {
            self
        } else if !self.is_neg() {
            Num::nearest(whole_part(self.mag()) * pow2(1074), 1)
        } else {
            let up = if units(self.mag()) % (pow2(1074) as int) == 0 {
                whole_part(self.mag())
            } else {
                whole_part(self.mag()) + 1
            };
            Num::of(true, encode(up * pow2(1074), 1))
        }
    }

    #[verifier::when_used_as_spec(spec_floor)]
    pub fn floor(self) -> (r: Num)
        ensures
            r == self.spec_floor(),
    {
        if self.is_nan() {
            return Num { bits: 0x7FF8_0000_0000_0000 };
        }
        let b: u64 = self.mag_of();
        if b == INF_BITS || b == 0 {
            return self;
        }
        let (m, e): (u64, u32) = split(b);
        if e >= 1074 {
            proof {
                lemma_whole_exact(b as int, m as int, e as nat);
            }
            return self;
        }
        let (q, left, _): (u64, bool, u64) = parts_of(m, e);
        proof {
            lemma_pow2_pos(1074);
            assert(whole_part(b as int) == q);
            assert(q * pow2(1074) >= 0) by (nonlinear_arith);
        }
        if !self.sign_of() {
            proof {
                reveal(Num::spec_uint);
            }
            Num::uint(q)
        } else {
            let up: u64 = if left {
                q + 1
            } else {
                q
            };
            proof {
                reveal(Num::spec_uint);
                assert(up * pow2(1074) >= 0) by (nonlinear_arith);
                crate::rounding::lemma_encode_mono(up * pow2(1074), 1, up * pow2(1074), 1);
            }
            Num::uint(up).negated()
        }
    }

    /// The nearest whole number, halves away from zero.
    pub open spec fn spec_round(self) -> Num {
        if self.is_nan() {
            Num::nan()
        } else if self.is_inf() || self.mag() == 0 {
            self
        } else {
            Num::of(self.is_neg(), encode(whole_nearest(self.mag()) * pow2(1074), 1))
        }
    }

    #[verifier::when_used_as_spec(spec_round)]
    pub fn round(self) -> (r: Num)
        ensures
            r == self.spec_round(),
    {
        if self.is_nan() {
            return Num { bits: 0x7FF8_0000_0000_0000 };
        }
        let b: u64 = self.mag_of();
        if b == INF_BITS || b == 0 {
            return self;
        }
        let (m, e): (u64, u32) = split(b);
        if e >= 1074 {
            proof {
                lemma_whole_exact(b as int, m as int, e as nat);
            }
            return self;
        }
        let (_, _, q): (u64, bool, u64) = parts_of(m, e);
        proof {
            lemma_pow2_pos(1074);
            assert(whole_nearest(b as int) == q);
            reveal(Num::spec_uint);
            assert(q * pow2(1074) >= 0) by (nonlinear_arith);
            crate::rounding::lemma_encode_mono(q * pow2(1074), 1, q * pow2(1074), 1);
        }
        if self.sign_of() {
            Num::uint(q).negated()
        } else {
            Num::uint(q)
        }
    }
}

proof fn lemma_whole_exact(b: int, m: int, e: nat)
    requires
        0 < b < INF_BITS,
        m == crate::rounding::sig(b),
        e == crate::rounding::expo(b),
        e >= 1074,
    ensures
        units(b) % (pow2(1074) as int) == 0,
        whole_part(b) * pow2(1074) == units(b),
        whole_nearest(b) == whole_part(b),
        encode(whole_part(b) * pow2(1074), 1) == b,
        whole_part(b) >= 0,
{
    let h = (e - 1074) as nat;
    let p = pow2(1074) as int;
    lemma_pow2_adds(h, 1074);
    lemma_pow2_pos(1074);
    lemma_pow2_pos(h);
    let k = m * pow2(h);
    let u = units(b);
    assert(u == k * p) by (nonlinear_arith)
        requires
            u == m * (pow2(h) * p),
            k == m * pow2(h),
    ;
    lemma_fundamental_div_mod_converse(u, p, k, 0);
    assert(2 * u + p == k * (2 * p) + p) by (nonlinear_arith)
        requires
            u == k * p,
    ;
    lemma_fundamental_div_mod_converse(2 * u + p, 2 * p, k, p);
    crate::rounding::lemma_encode_exact(b, 1);
    assert(u * 1 == u);
    crate::num_laws::lemma_units_nonneg(b);
    assert(k >= 0) by (nonlinear_arith)
        requires
            k == m * pow2(h),
            m >= 0,
    ;
}

/// Rounding down and rounding keep the order of numbers from zero on; rounding down gives no
/// more than the number; and whole numbers stay as they are.
pub proof fn lemma_whole_order(x: Num, y: Num)
    requires
        nonneg(x),
        nonneg(y),
        x.key() > 0,
        x.le(y),
    ensures
        x.floor().le(y.floor()),
        x.round().le(y.round()),
        x.floor().le(x),
        x.floor().key() >= 0,
        x.round().key() >= 0,
        units(x.mag()) % (pow2(1074) as int) == 0 ==> x.floor() == x && x.round() == x,
{
    let p = pow2(1074) as int;
    lemma_pow2_pos(1074);
    let (a, b) = (units(x.mag()), units(y.mag()));
    lemma_units_nonneg(x.mag());
    lemma_units_nonneg(y.mag());
    lemma_val_order(x, y);
    let (m, n) = (whole_part(x.mag()), whole_part(y.mag()));
    let (s, t) = (whole_nearest(x.mag()), whole_nearest(y.mag()));
    assert(m <= n && s <= t && 0 <= m && 0 <= s && m * p <= a && m * p <= n * p && s * p <= t * p
        && 0 <= m * p && 0 <= s * p) by (nonlinear_arith)
        requires
            p > 0,
            0 <= a <= b,
            m == a / p,
            n == b / p,
            s == (2 * a + p) / (2 * p),
            t == (2 * b + p) / (2 * p),
    ;
    lemma_encode_mono(m * p, 1, n * p, 1);
    lemma_encode_mono(s * p, 1, t * p, 1);
    lemma_encode_mono(m * p, 1, a, 1);
    lemma_encode_mono(0, 1, m * p, 1);
    lemma_encode_mono(0, 1, s * p, 1);
    lemma_skey_mono(n * p, n * p);
    lemma_skey_mono(t * p, t * p);
    lemma_encode_exact(x.mag(), 1);
    assert(a * 1 == a);
    if a % p == 0 {
        assert(m * p == a && s == m) by (nonlinear_arith)
            requires
                p > 0,
                a % p == 0,
                m == a / p,
                s == (2 * a + p) / (2 * p),
        {
            assert(a == p * (a / p) + a % p);
            assert((2 * a + p) == 2 * p * m + p);
        }
    }
}

} // verus!
