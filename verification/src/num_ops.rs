//! Executable arithmetic on `Num`.
use crate::num::Num;
use crate::rounding::{
    down, encode, encode_framed, expo, framed, pow2_wide, sig, units, up, INF_BITS, P52,
};
use vstd::arithmetic::div_mod::lemma_fundamental_div_mod;
use vstd::arithmetic::power2::{
    lemma2_to64, lemma_pow2_adds, lemma_pow2_pos, lemma_pow2_strictly_increases, lemma_pow2_unfold,
    pow2,
};
use vstd::prelude::*;

verus! {

/// Significand and exponent of a magnitude.
pub(crate) fn split(b: u64) -> (r: (u64, u32))
    requires
        b <= INF_BITS,
    ensures
        r.0 == sig(b as int),
        r.1 == expo(b as int),
        r.0 < 0x20_0000_0000_0000,
        r.1 <= 2046,
        r.1 > 0 ==> r.0 >= 0x10_0000_0000_0000,
        r.0 == 0 <==> b == 0,
{
    if b < P52 {
        (b, 0)
    } else {
        (P52 + b % P52, (b / P52 - 1) as u32)
    }
}

spec fn signed_sum(ma: int, ea: nat, mb: int, eb: nat, subtract: bool) -> int {
    if subtract {
        ma * pow2(ea) - mb * pow2(eb)
    } else {
        ma * pow2(ea) + mb * pow2(eb)
    }
}

spec fn mag_of_int(s: int) -> int {
    if s < 0 {
        -s
    } else {
        s
    }
}

/// Sign and magnitude of the rounded sum or difference of two scaled integers, the
/// first with the larger exponent.
fn combine(ma: u64, ea: u32, mb: u64, eb: u32, subtract: bool) -> (r: (bool, u64))
    requires
        ma < 0x20_0000_0000_0000,
        mb < 0x20_0000_0000_0000,
        eb <= ea <= 2046,
        ea > eb ==> ma >= 0x10_0000_0000_0000,
    ensures
        ({
            let s = signed_sum(ma as int, ea as nat, mb as int, eb as nat, subtract);
            &&& r.0 == (s < 0)
            &&& r.1 == encode(mag_of_int(s), 1)
            &&& r.1 <= INF_BITS
        }),
{
    let diff: u32 = ea - eb;
    let ghost s = signed_sum(ma as int, ea as nat, mb as int, eb as nat, subtract);
    proof {
        lemma2_to64();
        lemma_pow2_pos(ea as nat);
        lemma_pow2_pos(eb as nat);
        lemma_pow2_adds(diff as nat, eb as nat);
    }
    let ghost pe = pow2(eb as nat) as int;
    if diff <= 70 {
        let w: u128 = pow2_wide(diff);
        proof {
            lemma_pow2_adds(64, 6);
            if diff < 70 {
                lemma_pow2_strictly_increases(diff as nat, 70);
            }
            assert(0 <= ma * w < 0x20_0000_0000_0000 * 0x40_0000_0000_0000_0000) by (nonlinear_arith)
                requires
                    0 <= ma < 0x20_0000_0000_0000,
                    0 <= w <= 0x40_0000_0000_0000_0000,
            ;
        }
        let a: u128 = ma as u128 * w;
        let b: u128 = mb as u128;
        let neg: bool;
        let q: u128;
        if !subtract {
            neg = false;
            q = a + b;
        } else if a >= b {
            neg = false;
            q = a - b;
        } else {
            neg = true;
            q = b - a;
        }
        proof {
            let pa = ma as int * pow2(ea as nat);
            assert(pa == a * pe) by (nonlinear_arith)
                requires
                    pa == ma * (w * pe),
                    a == ma * w,
            ;
            assert((a + b) * pe == a * pe + b * pe) by (nonlinear_arith);
            assert((a - b) * pe == a * pe - b * pe) by (nonlinear_arith);
            assert((b - a) * pe == b * pe - a * pe) by (nonlinear_arith);
            assert(mag_of_int(s) == q * pe) by {
                if subtract && a >= b {
                    assert((a - b) * pe >= 0) by (nonlinear_arith)
                        requires
                            a >= b,
                            pe > 0,
                    ;
                } else if subtract {
                    assert((b - a) * pe > 0) by (nonlinear_arith)
                        requires
                            b > a,
                            pe > 0,
                    ;
                } else {
                    assert((a + b) * pe >= 0) by (nonlinear_arith)
                        requires
                            a >= 0,
                            b >= 0,
                            pe > 0,
                    ;
                }
            }
            if subtract && a < b {
                assert((b - a) * pe > 0) by (nonlinear_arith)
                    requires
                        b > a,
                        pe > 0,
                ;
            } else if subtract {
                assert((a - b) * pe >= 0) by (nonlinear_arith)
                    requires
                        a >= b,
                        pe > 0,
                ;
            }
        }
        if q == 0 {
            assert(encode(0, 1) == 0);
            assert(0 * pe == 0);
            return (neg, 0);
        }
        proof {
            assert((q + 1) * pe == q * pe + pe) by (nonlinear_arith);
            assert(mag_of_int(s) * 1 == mag_of_int(s));
        }
        let m: u64 = encode_framed(q, eb as i32, false, Ghost(mag_of_int(s)), Ghost(1));
        (neg, m)
    } else {
        let k: u32 = diff - 70;
        let low: u64;
        let part: bool;
        let ghost pk = pow2(k as nat) as int;
        proof {
            lemma_pow2_pos(k as nat);
        }
        let ghost lr: int;
        if k < 64 {
            let w: u128 = pow2_wide(k);
            proof {
                lemma_fundamental_div_mod(mb as int, w as int);
                lr = mb as int % (w as int);
                assert(mb as u128 / w <= mb) by (nonlinear_arith)
                    requires
                        w > 0,
                        mb >= 0,
                ;
            }
            low = (mb as u128 / w) as u64;
            part = mb as u128 % w != 0;
        } else {
            proof {
                lr = mb as int;
                if k > 64 {
                    lemma_pow2_strictly_increases(64, k as nat);
                }
            }
            low = 0;
            part = mb != 0;
        }
        assert(mb == pk * low + lr && 0 <= lr < pk && part == (lr != 0));
        let w70: u128 = pow2_wide(70);
        proof {
            lemma_pow2_adds(64, 6);
            assert(0x10_0000_0000_0000 * 0x40_0000_0000_0000_0000 <= ma * w70
                < 0x20_0000_0000_0000 * 0x40_0000_0000_0000_0000) by (nonlinear_arith)
                requires
                    0x10_0000_0000_0000 <= ma < 0x20_0000_0000_0000,
                    w70 == 0x40_0000_0000_0000_0000,
            ;
        }
        let x: u128 = ma as u128 * w70;
        let q: u128;
        if !subtract {
            q = x + low as u128;
        } else if part {
            q = x - low as u128 - 1;
        } else {
            q = x - low as u128;
        }
        let t: i32 = (eb + k) as i32;
        proof {
            lemma_pow2_adds(k as nat, 70);
            lemma_pow2_adds(eb as nat, k as nat);
            lemma_pow2_adds((eb + k) as nat, 70);
            let step = pow2((eb + k) as nat) as int;
            assert(step == pe * pk);
            let pa = ma * pow2(ea as nat);
            assert(pow2(ea as nat) == step * w70);
            assert(pa == x * step) by (nonlinear_arith)
                requires
                    pa == ma * (step * w70),
                    x == ma * w70,
            ;
            let lrp = lr * pe;
            assert(mb * pe == low * step + lrp) by (nonlinear_arith)
                requires
                    mb == pk * low + lr,
                    step == pe * pk,
                    lrp == lr * pe,
            ;
            assert(0 <= lrp < step && (lrp == 0 <==> lr == 0)) by (nonlinear_arith)
                requires
                    0 <= lr < pk,
                    pe > 0,
                    step == pe * pk,
                    lrp == lr * pe,
            ;
            assert((x + low) * step == x * step + low * step) by (nonlinear_arith);
            assert((x + low + 1) * step == x * step + low * step + step) by (nonlinear_arith);
            assert((x - low) * step == x * step - low * step) by (nonlinear_arith);
            assert((x - low + 1) * step == x * step - low * step + step) by (nonlinear_arith);
            assert((x - low - 1) * step == x * step - low * step - step) by (nonlinear_arith);
            assert((q + 1) * step == q * step + step) by (nonlinear_arith);
            assert(q * step >= 0) by (nonlinear_arith)
                requires
                    q >= 0,
                    step >= 0,
            ;
            assert(q * step <= s < (q + 1) * step);
            assert(s >= 0);
            assert(1 * step == step);
            assert(s * 1 == s);
        }
        let m: u64 = encode_framed(q, t, part, Ghost(s), Ghost(1));
        (false, m)
    }
}

impl core::ops::Add for Num {
    type Output = Num;

    fn add(self, o: Num) -> Num {
        proof {
            reveal(Num::spec_add);
        }
        let (na, nb): (bool, bool) = (self.sign_of(), o.sign_of());
        let (ba, bb): (u64, u64) = (self.mag_of(), o.mag_of());
        if ba > INF_BITS || bb > INF_BITS {
            return Num { bits: 0x7FF8_0000_0000_0000 };
        }
        if ba == INF_BITS {
            if bb == INF_BITS && na != nb {
                return Num { bits: 0x7FF8_0000_0000_0000 };
            }
            return self;
        }
        if bb == INF_BITS {
            return o;
        }
        let (ma, ea): (u64, u32) = split(ba);
        let (mb, eb): (u64, u32) = split(bb);
        let (flip, m): (bool, u64) = if ea >= eb {
            combine(ma, ea, mb, eb, na != nb)
        } else {
            combine(mb, eb, ma, ea, na != nb)
        };
        let lead: bool = if ea >= eb {
            na
        } else {
            nb
        };
        let ghost sum = self.val() + o.val();
        if ma == 0 && mb == 0 {
            assert(units(0) == 0);
            return Num::make(na && nb, 0);
        }
        let r: Num = Num::make(lead != flip, m);
        if m == 0 {
            proof {
                lemma_encode_zero(mag_of_int(sum));
                assert(sum == 0);
            }
            return Num::make(na && nb, 0);
        }
        assert(sum != 0) by {
            assert(encode(0, 1) == 0);
        }
        r
    }
}

impl vstd::std_specs::ops::AddSpecImpl for Num {
    open spec fn obeys_add_spec() -> bool {
        true
    }

    open spec fn add_req(self, o: Num) -> bool {
        true
    }

    open spec fn add_spec(self, o: Num) -> Num {
        self.spec_add(o)
    }
}

/// Only zero units round to the magnitude zero.
proof fn lemma_encode_zero(n: int)
    requires
        n >= 0,
    ensures
        encode(n, 1) == 0 <==> n == 0,
{
    if n >= 1 {
        crate::rounding::lemma_encode_mono(1, 1, n, 1);
        assert(encode(1, 1) == 1);
    } else {
        assert(encode(0, 1) == 0);
    }
}

impl core::ops::Sub for Num {
    type Output = Num;

    fn sub(self, o: Num) -> Num {
        self + o.negated()
    }
}

impl vstd::std_specs::ops::SubSpecImpl for Num {
    open spec fn obeys_sub_spec() -> bool {
        true
    }

    open spec fn sub_req(self, o: Num) -> bool {
        true
    }

    open spec fn sub_spec(self, o: Num) -> Num {
        self.spec_sub(o)
    }
}

proof fn lemma_product_framed(q: int, a: int, ea: nat, b: int, eb: nat, t: int)
    requires
        q == a * b,
        t == ea + eb - 1074,
    ensures
        framed((a * pow2(ea)) * (b * pow2(eb)), pow2(1074) as int, q, t, false),
{
    let n = (a * pow2(ea)) * (b * pow2(eb));
    let w = down(t);
    let u = up(t);
    lemma_pow2_adds(ea, eb);
    lemma_pow2_adds(ea + eb, w);
    lemma_pow2_adds(1074, u);
    let pa = pow2(ea);
    let pb = pow2(eb);
    let pw = pow2(w);
    let step = pow2(1074) * pow2(u);
    assert(ea + eb + w == 1074 + u);
    assert((pa * pb) * pw == step);
    assert(n * pw == q * step) by (nonlinear_arith)
        requires
            n == (a * pa) * (b * pb),
            q == a * b,
            (pa * pb) * pw == step,
    ;
    lemma_pow2_pos(1074 + u);
    assert((q + 1) * step == q * step + step) by (nonlinear_arith);
}

impl core::ops::Mul for Num {
    type Output = Num;

    fn mul(self, o: Num) -> Num {
        proof {
            reveal(Num::spec_mul);
        }
        let neg: bool = self.sign_of() != o.sign_of();
        let (ba, bb): (u64, u64) = (self.mag_of(), o.mag_of());
        if ba > INF_BITS || bb > INF_BITS {
            return Num { bits: 0x7FF8_0000_0000_0000 };
        }
        if ba == INF_BITS || bb == INF_BITS {
            if ba == 0 || bb == 0 {
                return Num { bits: 0x7FF8_0000_0000_0000 };
            }
            return Num::make(neg, INF_BITS);
        }
        let (ma, ea): (u64, u32) = split(ba);
        let (mb, eb): (u64, u32) = split(bb);
        let ghost n = units(ba as int) * units(bb as int);
        let ghost d = pow2(1074) as int;
        proof {
            lemma_pow2_pos(1074);
            assert(0 <= ma * mb < 0x20_0000_0000_0000 * 0x20_0000_0000_0000) by (nonlinear_arith)
                requires
                    0 <= ma < 0x20_0000_0000_0000,
                    0 <= mb < 0x20_0000_0000_0000,
            ;
        }
        let q: u128 = ma as u128 * mb as u128;
        if q == 0 {
            proof {
                assert(n == 0) by (nonlinear_arith)
                    requires
                        n == (ma * pow2(ea as nat)) * (mb * pow2(eb as nat)),
                        ma * mb == 0,
                ;
                crate::rounding::lemma_rne_exact(0, d);
                assert(0 * d == 0);
            }
            return Num::make(neg, 0);
        }
        let t: i32 = ea as i32 + eb as i32 - 1074;
        proof {
            lemma_product_framed(
                q as int,
                ma as int,
                ea as nat,
                mb as int,
                eb as nat,
                t as int,
            );
            assert(n >= 0) by (nonlinear_arith)
                requires
                    n == (ma * pow2(ea as nat)) * (mb * pow2(eb as nat)),
                    ma >= 0,
                    mb >= 0,
            ;
        }
        let m: u64 = encode_framed(q, t, false, Ghost(n), Ghost(d));
        Num::make(neg, m)
    }
}

impl vstd::std_specs::ops::MulSpecImpl for Num {
    open spec fn obeys_mul_spec() -> bool {
        true
    }

    open spec fn mul_req(self, o: Num) -> bool {
        true
    }

    open spec fn mul_spec(self, o: Num) -> Num {
        self.spec_mul(o)
    }
}

proof fn lemma_quotient_framed(
    q: int,
    rem: int,
    a: int,
    ea: nat,
    b: int,
    eb: nat,
    z: nat,
    t: int,
)
    requires
        a > 0,
        b > 0,
        a * pow2(z) * pow2(63) == q * b + rem,
        0 <= rem < b,
        t == ea + 1074 - eb - z - 63,
    ensures
        framed((a * pow2(ea)) * pow2(1074), b * pow2(eb), q, t, rem != 0),
{
    let w = down(t);
    let u = up(t);
    lemma_pow2_adds(ea, 1074);
    lemma_pow2_adds(ea + 1074, w);
    lemma_pow2_adds(eb, u);
    lemma_pow2_adds(z, 63);
    lemma_pow2_adds(z + 63, eb + u);
    let pe = pow2(eb + u);
    lemma_pow2_pos(eb + u);
    assert(ea + 1074 + w == z + 63 + eb + u);
    let big = pow2(ea + 1074 + w);
    assert(big == (pow2(z) * pow2(63)) * pe);
    let top = ((a * pow2(ea)) * pow2(1074)) * pow2(w);
    assert(((a * pow2(ea)) * pow2(1074)) * pow2(w) == a * ((pow2(ea) * pow2(1074)) * pow2(w)))
        by (nonlinear_arith);
    assert(top == a * big);
    let step = (b * pow2(eb)) * pow2(u);
    assert((b * pow2(eb)) * pow2(u) == b * (pow2(eb) * pow2(u))) by (nonlinear_arith);
    assert(step == b * pe);
    assert(top == q * step + rem * pe) by (nonlinear_arith)
        requires
            top == a * ((pow2(z) * pow2(63)) * pe),
            a * pow2(z) * pow2(63) == q * b + rem,
            step == b * pe,
    ;
    assert(0 <= rem * pe < step && (rem * pe == 0 <==> rem == 0)) by (nonlinear_arith)
        requires
            0 <= rem < b,
            pe > 0,
            step == b * pe,
    ;
    assert((q + 1) * step == q * step + step) by (nonlinear_arith);
}

/// Magnitude of `a * 2^ea / (b * 2^eb)`.
fn quotient(a: u64, ea: u32, b: u64, eb: u32) -> (r: u64)
    requires
        a > 0,
        b > 0,
        ea <= 2046,
        eb <= 2046,
    ensures
        r == encode((a * pow2(ea as nat)) * pow2(1074), b * pow2(eb as nat)),
        r <= INF_BITS,
{
    let mut x: u64 = a;
    let mut z: u32 = 0;
    proof {
        lemma2_to64();
        lemma_pow2_unfold(64);
    }
    while x < 0x8000_0000_0000_0000
        invariant
            a > 0,
            x > 0,
            z <= 63,
            x == a * pow2(z as nat),
            x >= pow2(z as nat),
            pow2(63) == 0x8000_0000_0000_0000,
        decreases 63 - z,
    {
        proof {
            lemma_pow2_unfold((z + 1) as nat);
            let p = pow2(z as nat);
            assert(a * (2 * p) == 2 * (a * p)) by (nonlinear_arith);
            if z >= 63 {
                assert(false);
            }
        }
        x = x * 2;
        z = z + 1;
    }
    let w: u128 = pow2_wide(63);
    proof {
        assert(0x8000_0000_0000_0000 * 0x8000_0000_0000_0000 <= x * w
            < 0x1_0000_0000_0000_0000 * 0x8000_0000_0000_0000) by (nonlinear_arith)
            requires
                0x8000_0000_0000_0000 <= x < 0x1_0000_0000_0000_0000,
                w == 0x8000_0000_0000_0000,
        ;
    }
    let y: u128 = x as u128 * w;
    let q: u128 = y / (b as u128);
    let rem: u128 = y % (b as u128);
    proof {
        lemma_fundamental_div_mod(y as int, b as int);
        assert(b * q == q * b) by (nonlinear_arith);
        assert(q >= 0x40_0000_0000_0000) by (nonlinear_arith)
            requires
                y == b * q + rem,
                0 <= rem < b,
                b < 0x1_0000_0000_0000_0000,
                y >= 0x4000_0000_0000_0000_0000_0000_0000_0000,
        ;
        assert(q <= y) by (nonlinear_arith)
            requires
                y == b * q + rem,
                0 <= rem,
                b >= 1,
                q >= 0,
        ;
    }
    let t: i32 = ea as i32 + 1074 - eb as i32 - z as i32 - 63;
    let ghost n = (a * pow2(ea as nat)) * pow2(1074);
    let ghost d = b * pow2(eb as nat);
    proof {
        lemma_quotient_framed(
            q as int,
            rem as int,
            a as int,
            ea as nat,
            b as int,
            eb as nat,
            z as nat,
            t as int,
        );
        lemma_pow2_pos(ea as nat);
        lemma_pow2_pos(eb as nat);
        lemma_pow2_pos(1074);
        assert(n >= 0 && d > 0) by (nonlinear_arith)
            requires
                n == (a * pow2(ea as nat)) * pow2(1074),
                d == b * pow2(eb as nat),
                a > 0,
                b > 0,
                pow2(ea as nat) > 0,
                pow2(eb as nat) > 0,
                pow2(1074) > 0,
        ;
    }
    encode_framed(q, t, rem != 0, Ghost(n), Ghost(d))
}

impl core::ops::Div for Num {
    type Output = Num;

    fn div(self, o: Num) -> Num {
        proof {
            reveal(Num::spec_div);
        }
        let neg: bool = self.sign_of() != o.sign_of();
        let (ba, bb): (u64, u64) = (self.mag_of(), o.mag_of());
        if ba > INF_BITS || bb > INF_BITS {
            return Num { bits: 0x7FF8_0000_0000_0000 };
        }
        if ba == INF_BITS {
            if bb == INF_BITS {
                return Num { bits: 0x7FF8_0000_0000_0000 };
            }
            return Num::make(neg, INF_BITS);
        }
        if bb == INF_BITS {
            return Num::make(neg, 0);
        }
        if bb == 0 {
            if ba == 0 {
                return Num { bits: 0x7FF8_0000_0000_0000 };
            }
            return Num::make(neg, INF_BITS);
        }
        let (ma, ea): (u64, u32) = split(ba);
        let (mb, eb): (u64, u32) = split(bb);
        if ba == 0 {
            proof {
                let d = units(bb as int);
                lemma2_to64();
                lemma_pow2_pos(eb as nat);
                assert(d > 0) by (nonlinear_arith)
                    requires
                        d == mb * pow2(eb as nat),
                        mb > 0,
                        pow2(eb as nat) > 0,
                ;
                assert(sig(0) == 0);
                assert(0 * pow2(expo(0)) == 0) by (nonlinear_arith);
                crate::rounding::lemma_rne_exact(0, d);
                assert(0 * pow2(1074) == 0);
                assert(0 * d == 0);
            }
            return Num::make(neg, 0);
        }
        let m: u64 = quotient(ma, ea, mb, eb);
        Num::make(neg, m)
    }
}

impl vstd::std_specs::ops::DivSpecImpl for Num {
    open spec fn obeys_div_spec() -> bool {
        true
    }

    open spec fn div_req(self, o: Num) -> bool {
        true
    }

    open spec fn div_spec(self, o: Num) -> Num {
        self.spec_div(o)
    }
}

impl Num {
    /// The double nearest to the fraction `n / d`.
    #[verifier::opaque]
    pub open spec fn spec_ratio(n: u64, d: u64) -> Num {
        Num::of(false, encode(n * pow2(1074), d as int))
    }

    /// The double nearest to the whole number `n`.
    #[verifier::opaque]
    pub open spec fn spec_whole(n: i64) -> Num {
        Num::nearest(n * pow2(1074), 1)
    }

    /// The double nearest to the whole number `n`.
    #[verifier::opaque]
    pub open spec fn spec_uint(n: u64) -> Num {
        Num::nearest(n * pow2(1074), 1)
    }

    /// The double nearest to the fraction `n / d`.
    #[verifier::when_used_as_spec(spec_ratio)]
    pub fn ratio(n: u64, d: u64) -> (r: Num)
        requires
            d > 0,
        ensures
            r == Num::spec_ratio(n, d),
    {
        proof {
            reveal(Num::spec_ratio);
            lemma2_to64();
        }
        if n == 0 {
            proof {
                crate::rounding::lemma_rne_exact(0, d as int);
                assert(0 * pow2(1074) == 0);
                assert(0 * d == 0);
            }
            return Num { bits: 0 };
        }
        assert(n * pow2(0) == n && d * pow2(0) == d);
        let m: u64 = quotient(n, 0, d, 0);
        Num::make(false, m)
    }

    /// The double nearest to the whole number `n`.
    #[verifier::when_used_as_spec(spec_uint)]
    pub fn uint(n: u64) -> (r: Num)
        ensures
            r == Num::spec_uint(n),
            r == Num::spec_ratio(n, 1),
    {
        proof {
            reveal(Num::spec_ratio);
            reveal(Num::spec_uint);
            lemma_pow2_pos(1074);
            assert(n * pow2(1074) >= 0) by (nonlinear_arith);
        }
        Num::ratio(n, 1)
    }

    /// The double nearest to the whole number `n`.
    #[verifier::when_used_as_spec(spec_whole)]
    pub fn whole(n: i64) -> (r: Num)
        ensures
            r == Num::spec_whole(n),
    {
        proof {
            reveal(Num::spec_ratio);
            reveal(Num::spec_whole);
            lemma_pow2_pos(1074);
            let p = pow2(1074) as int;
            if n < 0 {
                assert(n * p < 0 && -(n * p) == (-n) * p) by (nonlinear_arith)
                    requires
                        n < 0,
                        p > 0,
                ;
                crate::rounding::lemma_encode_mono((-n) * p, 1, (-n) * p, 1);
            } else {
                assert(n * p >= 0) by (nonlinear_arith)
                    requires
                        n >= 0,
                        p > 0,
                ;
            }
        }
        if n < 0 {
            let m: u64 = if n == i64::MIN {
                0x8000_0000_0000_0000
            } else {
                (-n) as u64
            };
            Num::ratio(m, 1).negated()
        } else {
            Num::ratio(n as u64, 1)
        }
    }
}

/// A fraction of whole numbers is a number that is not negative.
pub proof fn lemma_ratio_nonneg(n: u64, d: u64)
    requires
        d > 0,
    ensures
        !Num::spec_ratio(n, d).is_neg(),
        !Num::spec_ratio(n, d).spec_is_nan(),
        Num::spec_ratio(n, d).key() >= 0,
{
    reveal(Num::spec_ratio);
    let x = n * pow2(1074);
    assert(x >= 0) by (nonlinear_arith)
        requires
            x == n * pow2(1074),
    ;
    crate::rounding::lemma_encode_mono(x, d as int, x, d as int);
}

/// Whole numbers are fractions over one.
pub proof fn lemma_uint_is_ratio(n: u64)
    ensures
        Num::spec_uint(n) == Num::spec_ratio(n, 1),
{
    reveal(Num::spec_ratio);
    reveal(Num::spec_uint);
    assert(n * pow2(1074) >= 0) by (nonlinear_arith);
}

/// Fractions keep their order.
pub proof fn lemma_ratio_mono(n1: u64, d1: u64, n2: u64, d2: u64)
    requires
        d1 > 0,
        d2 > 0,
        n1 * d2 <= n2 * d1,
    ensures
        Num::spec_ratio(n1, d1).spec_le(Num::spec_ratio(n2, d2)),
{
    reveal(Num::spec_ratio);
    let p = pow2(1074) as int;
    let x = n1 * p;
    let y = n2 * p;
    assert(x >= 0 && y >= 0 && x * d2 <= y * d1) by (nonlinear_arith)
        requires
            x == n1 * p,
            y == n2 * p,
            p >= 0,
            n1 * d2 <= n2 * d1,
    ;
    crate::rounding::lemma_encode_mono(x, d1 as int, y, d2 as int);
}

} // verus!
