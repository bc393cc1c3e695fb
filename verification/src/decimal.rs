//! Decimal digits: exact conversion of decimal numbers to doubles.
use crate::rounding::{down, encode, encode_framed, framed, up, INF_BITS};
use vstd::arithmetic::div_mod::{lemma_fundamental_div_mod, lemma_fundamental_div_mod_converse};
use vstd::arithmetic::power2::{
    lemma2_to64, lemma_pow2_adds, lemma_pow2_pos, lemma_pow2_strictly_increases, lemma_pow2_unfold,
    pow2,
};
use vstd::prelude::*;

verus! {

/// 10^k.
pub open spec fn ten(k: nat) -> int
    decreases k,
{
    if k == 0 {
        1
    } else {
        10 * ten((k - 1) as nat)
    }
}

pub proof fn lemma_ten_pos(k: nat)
    ensures
        ten(k) > 0,
    decreases k,
{
    if k > 0 {
        lemma_ten_pos((k - 1) as nat);
    }
}

pub proof fn lemma_ten_adds(a: nat, b: nat)
    ensures
        ten(a + b) == ten(a) * ten(b),
    decreases a,
{
    if a > 0 {
        lemma_ten_adds((a - 1) as nat, b);
        let x = ten((a - 1) as nat);
        let y = ten(b);
        assert((10 * x) * y == 10 * (x * y)) by (nonlinear_arith);
    } else {
        assert(1 * ten(b) == ten(b));
    }
}

/// Value of a digit sequence that starts with the lowest digit.
pub open spec fn low_val(s: Seq<u8>) -> int
    decreases s.len(),
{
    if s.len() == 0 {
        0
    } else {
        s[0] + 10 * low_val(s.drop_first())
    }
}

pub open spec fn all_digits(s: Seq<u8>) -> bool {
    forall|i: int| 0 <= i < s.len() ==> #[trigger] s[i] < 10
}

pub proof fn lemma_low_split(s: Seq<u8>, k: int)
    requires
        0 <= k <= s.len(),
        all_digits(s),
    ensures
        low_val(s) == low_val(s.take(k)) + ten(k as nat) * low_val(s.skip(k)),
        0 <= low_val(s.take(k)) < ten(k as nat),
        low_val(s.skip(k)) >= 0,
    decreases k,
{
    if k == 0 {
        assert(s.take(0) == Seq::<u8>::empty());
        assert(s.skip(0) == s);
        assert(1 * low_val(s) == low_val(s));
        lemma_low_nonneg(s);
    } else {
        let d = s.drop_first();
        assert(all_digits(d)) by {
            assert forall|i: int| 0 <= i < d.len() implies #[trigger] d[i] < 10 by {
                assert(d[i] == s[i + 1]);
            }
        }
        lemma_low_split(d, k - 1);
        assert(s.take(k).drop_first() == d.take(k - 1));
        assert(s.skip(k) == d.skip(k - 1));
        assert(s.take(k)[0] == s[0]);
        let t = ten((k - 1) as nat);
        let x = low_val(s.skip(k));
        assert(10 * (t * x) == (10 * t) * x) by (nonlinear_arith);
    }
}

pub proof fn lemma_low_nonneg(s: Seq<u8>)
    ensures
        low_val(s) >= 0,
    decreases s.len(),
{
    if s.len() > 0 {
        lemma_low_nonneg(s.drop_first());
    }
}

pub proof fn lemma_low_push(s: Seq<u8>, d: u8)
    requires
        all_digits(s),
        d < 10,
    ensures
        low_val(s.push(d)) == low_val(s) + ten(s.len()) * d,
{
    let r = s.push(d);
    assert(all_digits(r));
    lemma_low_split(r, s.len() as int);
    assert(r.take(s.len() as int) == s);
    assert(r.skip(s.len() as int) == seq![d]);
    assert(seq![d].drop_first() == Seq::<u8>::empty());
    assert(low_val(seq![d]) == d + 10 * low_val(Seq::<u8>::empty()));
}

/// The digits times a small factor.
pub(crate) fn times_small(v: &Vec<u8>, m: u8) -> (r: Vec<u8>)
    requires
        all_digits(v@),
        1 <= m <= 10,
    ensures
        all_digits(r@),
        low_val(r@) == m * low_val(v@),
        r.len() == v.len() + 1,
{
    let mut out: Vec<u8> = Vec::new();
    let mut carry: u8 = 0;
    let mut i: usize = 0;
    assert(v@.take(0) == Seq::<u8>::empty());
    while i < v.len()
        invariant
            all_digits(v@),
            1 <= m <= 10,
            i <= v.len(),
            out.len() == i,
            all_digits(out@),
            carry < 10,
            low_val(out@) + ten(i as nat) * carry == m * low_val(v@.take(i as int)),
        decreases v.len() - i,
    {
        let d: u8 = v[i];
        assert(d * m <= 90) by (nonlinear_arith)
            requires
                d < 10,
                m <= 10,
        ;
        let x: u8 = d * m + carry;
        let lo: u8 = x % 10;
        let hi: u8 = x / 10;
        proof {
            lemma_low_push(out@, lo);
            let t = ten(i as nat);
            let prev = v@.take(i as int);
            assert(v@.take(i + 1) == prev.push(d));
            assert(all_digits(prev));
            lemma_low_push(prev, d);
            assert((10 * t) * hi + t * lo == t * (d * m) + t * carry) by (nonlinear_arith)
                requires
                    x == 10 * hi + lo,
                    x == d * m + carry,
            ;
            assert(m * (low_val(prev) + t * d) == m * low_val(prev) + t * (d * m))
                by (nonlinear_arith);
        }
        out.push(lo);
        carry = hi;
        i = i + 1;
    }
    assert(v@.take(v.len() as int) == v@);
    proof {
        lemma_low_push(out@, carry);
    }
    out.push(carry);
    out
}

/// The part of the number above its lowest `k` digits, or `None` from 2^64 on.
fn high_part(v: &Vec<u8>, k: u128) -> (r: Option<u64>)
    requires
        all_digits(v@),
    ensures
        match r {
            Some(x) => x == low_val(v@) / ten(k as nat),
            None => low_val(v@) / ten(k as nat) > u64::MAX,
        },
{
    if k >= v.len() as u128 {
        proof {
            lemma_low_split(v@, v.len() as int);
            assert(v@.take(v.len() as int) == v@);
            assert(v@.skip(v.len() as int) == Seq::<u8>::empty());
            lemma_ten_pos((k - v.len()) as nat);
            lemma_ten_adds(v.len() as nat, (k - v.len()) as nat);
            lemma_ten_pos(k as nat);
            let a = ten(v.len() as nat);
            let b = ten((k - v.len()) as nat);
            assert(low_val(v@) < ten(k as nat)) by (nonlinear_arith)
                requires
                    low_val(v@) < a,
                    a > 0,
                    b >= 1,
                    ten(k as nat) == a * b,
            ;
            lemma_fundamental_div_mod_converse(low_val(v@), ten(k as nat), 0, low_val(v@));
        }
        return Some(0);
    }
    let mut acc: u64 = 0;
    let mut i: usize = v.len();
    let ghost hi = low_val(v@.skip(k as int));
    proof {
        lemma_low_split(v@, k as int);
        lemma_ten_pos(k as nat);
        lemma_fundamental_div_mod_converse(
            low_val(v@),
            ten(k as nat),
            hi,
            low_val(v@.take(k as int)),
        );
        assert(hi * ten(k as nat) == ten(k as nat) * hi) by (nonlinear_arith);
        assert(v@.skip(v.len() as int) == Seq::<u8>::empty());
    }
    while i as u128 > k
        invariant
            k <= i <= v.len(),
            all_digits(v@),
            hi == low_val(v@.skip(k as int)),
            hi == low_val(v@) / ten(k as nat),
            acc == low_val(v@.skip(i as int)),
        decreases i,
    {
        let d: u8 = v[i - 1];
        proof {
            assert(v@.skip(i - 1).drop_first() == v@.skip(i as int));
            assert(v@.skip(i - 1)[0] == d);
        }
        if acc > 1844674407370955161 || (acc == 1844674407370955161 && d > 5) {
            proof {
                lemma_low_skip_mono(v@, k as int, i - 1);
            }
            return None;
        }
        acc = acc * 10 + d as u64;
        i = i - 1;
    }
    Some(acc)
}

proof fn lemma_low_skip_mono(s: Seq<u8>, k: int, j: int)
    requires
        0 <= k <= j <= s.len(),
        all_digits(s),
    ensures
        low_val(s.skip(j)) <= low_val(s.skip(k)),
    decreases j - k,
{
    if k < j {
        lemma_low_skip_mono(s, k + 1, j);
        assert(s.skip(k).drop_first() == s.skip(k + 1));
        lemma_low_nonneg(s.skip(k + 1));
    }
}

/// Whether any of the lowest `k` digits is not zero.
fn low_part_nonzero(v: &Vec<u8>, k: u128) -> (r: bool)
    requires
        all_digits(v@),
    ensures
        r == (low_val(v@) % ten(k as nat) != 0),
{
    let n: usize = if k < v.len() as u128 {
        k as usize
    } else {
        v.len()
    };
    proof {
        lemma_low_split(v@, n as int);
        lemma_ten_pos(k as nat);
        let lo = low_val(v@.take(n as int));
        let hi = low_val(v@.skip(n as int));
        if k >= v.len() {
            assert(v@.skip(n as int) == Seq::<u8>::empty());
            assert(ten(n as nat) * 0 == 0);
            lemma_ten_adds(n as nat, (k - n) as nat);
            lemma_ten_pos((k - n) as nat);
            let a = ten(n as nat);
            let b = ten((k - n) as nat);
            assert(lo < ten(k as nat)) by (nonlinear_arith)
                requires
                    lo < a,
                    b >= 1,
                    a > 0,
                    ten(k as nat) == a * b,
            ;
            assert(0 * ten(k as nat) == 0);
            lemma_fundamental_div_mod_converse(low_val(v@), ten(k as nat), 0, lo);
        } else {
            assert(hi * ten(k as nat) == ten(k as nat) * hi) by (nonlinear_arith);
            lemma_fundamental_div_mod_converse(low_val(v@), ten(k as nat), hi, lo);
        }
        assert(low_val(v@) % ten(k as nat) == lo);
        assert(v@.take(0) == Seq::<u8>::empty());
    }
    let mut i: usize = 0;
    while i < n
        invariant
            i <= n <= v.len(),
            all_digits(v@),
            low_val(v@.take(i as int)) == 0,
            low_val(v@) % ten(k as nat) == low_val(v@.take(n as int)),
        decreases n - i,
    {
        let ghost prev = v@.take(i as int);
        let d: u8 = v[i];
        proof {
            assert(v@.take(i + 1) == prev.push(d));
            lemma_low_push(prev, d);
            lemma_ten_pos(i as nat);
        }
        if d != 0 {
            proof {
                let w = v@.take(n as int);
                lemma_low_split(w, i + 1);
                assert(w.take(i + 1) == v@.take(i + 1));
                assert(ten(i as nat) * d > 0) by (nonlinear_arith)
                    requires
                        ten(i as nat) > 0,
                        d > 0,
                ;
                lemma_ten_pos((i + 1) as nat);
                assert(ten((i + 1) as nat) * low_val(w.skip(i + 1)) >= 0) by (nonlinear_arith)
                    requires
                        ten((i + 1) as nat) > 0,
                        low_val(w.skip(i + 1)) >= 0,
                ;
            }
            return true;
        }
        assert(ten(i as nat) * 0 == 0);
        i = i + 1;
    }
    false
}

/// Magnitude of the double nearest to `d0 / 10^k`.
pub open spec fn fraction_bits(d0: int, k: nat) -> int {
    encode(d0 * pow2(1074), ten(k))
}

proof fn lemma_doubled_frame(d0: int, k: nat, z: nat, dd: int, q: int)
    requires
        d0 > 0,
        dd == d0 * pow2(z),
        q == dd / ten(k),
    ensures
        framed(d0 * pow2(1074), ten(k), q, 1074 - z, dd % ten(k) != 0),
{
    let t = 1074 - z;
    let w = down(t);
    let u = up(t);
    lemma_ten_pos(k);
    lemma_fundamental_div_mod(dd, ten(k));
    let r = dd % ten(k);
    lemma_pow2_pos(u);
    lemma_pow2_adds(1074, w);
    lemma_pow2_adds(z, u);
    let p = pow2(u);
    let tk = ten(k);
    let step = tk * p;
    let top = (d0 * pow2(1074)) * pow2(w);
    assert(1074 + w == z + u);
    assert(top == dd * p) by (nonlinear_arith)
        requires
            top == (d0 * pow2(1074)) * pow2(w),
            dd == d0 * pow2(z),
            pow2(1074) * pow2(w) == pow2(z) * p,
    ;
    assert(top == q * step + r * p) by (nonlinear_arith)
        requires
            top == dd * p,
            dd == tk * q + r,
            step == tk * p,
    ;
    assert(0 <= r * p < step && (r * p == 0 <==> r == 0)) by (nonlinear_arith)
        requires
            0 <= r < tk,
            p > 0,
            step == tk * p,
    ;
    assert((q + 1) * step == q * step + step) by (nonlinear_arith);
}

proof fn lemma_halved_frame(d0: int, k0: nat, t: nat, dd: int, k: nat, q: int)
    requires
        d0 > 0,
        d0 * ten(k) == dd * ten(k0) * pow2(t),
        q == dd / ten(k),
    ensures
        framed(d0 * pow2(1074), ten(k0), q, (1074 + t) as int, dd % ten(k) != 0),
{
    lemma_ten_pos(k);
    lemma_ten_pos(k0);
    lemma_fundamental_div_mod(dd, ten(k));
    let r = dd % ten(k);
    lemma_pow2_pos(t);
    lemma_pow2_pos(1074);
    lemma_pow2_adds(1074, t);
    lemma2_to64();
    let pt = pow2(t);
    let pb = pow2(1074);
    let tk = ten(k);
    let t0 = ten(k0);
    let c = t0 * pt;
    assert(dd * ten(k0) * pow2(t) == dd * c) by (nonlinear_arith)
        requires
            c == ten(k0) * pow2(t),
    ;
    assert(c > 0) by (nonlinear_arith)
        requires
            c == t0 * pt,
            t0 > 0,
            pt > 0,
    ;
    // d0 * tk == (tk * q + r) * c
    let e = d0 - q * c;
    assert(e * tk == r * c) by (nonlinear_arith)
        requires
            d0 * tk == dd * c,
            dd == tk * q + r,
            e == d0 - q * c,
    ;
    assert(0 <= e < c && (e == 0 <==> r == 0)) by (nonlinear_arith)
        requires
            e * tk == r * c,
            0 <= r < tk,
            c > 0,
            tk > 0,
    ;
    let step = t0 * pow2(1074 + t);
    assert(step == c * pb) by (nonlinear_arith)
        requires
            step == t0 * (pb * pt),
            c == t0 * pt,
    ;
    let top = (d0 * pb) * 1;
    assert(top == q * step + e * pb) by (nonlinear_arith)
        requires
            top == d0 * pb,
            d0 == q * c + e,
            step == c * pb,
    ;
    assert(0 <= e * pb < step && (e * pb == 0 <==> e == 0)) by (nonlinear_arith)
        requires
            0 <= e < c,
            pb > 0,
            step == c * pb,
    ;
    assert((q + 1) * step == q * step + step) by (nonlinear_arith);
}

fn scale_up(v: Vec<u8>, k: u128, Ghost(d0): Ghost<int>) -> (r: u64)
    requires
        all_digits(v@),
        d0 == low_val(v@),
        d0 > 0,
        d0 * pow2(1700) >= ten(k as nat),
        low_val(v@) / ten(k as nat) <= u64::MAX,
    ensures
        r == fraction_bits(d0, k as nat),
        r <= INF_BITS,
{
    let mut v: Vec<u8> = v;
    let mut z: u32 = 0;
    let ghost tk = ten(k as nat);
    proof {
        lemma2_to64();
        lemma_pow2_unfold(64);
        lemma_ten_pos(k as nat);
        lemma_pow2_pos(1074);
    }
    let mut q: u64 = match high_part(&v, k) {
        Some(x) => x,
        None => 0,
    };
    while q < 0x8000_0000_0000_0000
        invariant
            all_digits(v@),
            d0 > 0,
            tk == ten(k as nat),
            tk > 0,
            low_val(v@) == d0 * pow2(z as nat),
            q == low_val(v@) / tk,
            d0 * pow2(1700) >= tk,
            z <= 1764,
        decreases 1764 - z,
    {
        let ghost dd = low_val(v@);
        proof {
            lemma_pow2_unfold((z + 1) as nat);
            let p = pow2(z as nat);
            assert(d0 * (2 * p) == 2 * (d0 * p)) by (nonlinear_arith);
            lemma_fundamental_div_mod(dd, tk);
            assert(dd < 0x8000_0000_0000_0000 * tk) by (nonlinear_arith)
                requires
                    dd == tk * q + dd % tk,
                    0 <= dd % tk < tk,
                    q < 0x8000_0000_0000_0000,
            ;
            if z >= 1764 {
                lemma_pow2_adds(1700, 64);
                lemma2_to64();
                assert(dd >= 0x1_0000_0000_0000_0000 * tk) by (nonlinear_arith)
                    requires
                        dd == d0 * (pow2(1700) * 0x1_0000_0000_0000_0000),
                        d0 * pow2(1700) >= tk,
                ;
                assert(false);
            }
            lemma_fundamental_div_mod(2 * dd, tk);
            let q2 = (2 * dd) / tk;
            assert(0 <= q2 <= u64::MAX) by (nonlinear_arith)
                requires
                    2 * dd == tk * q2 + (2 * dd) % tk,
                    0 <= (2 * dd) % tk < tk,
                    0 <= dd < 0x8000_0000_0000_0000 * tk,
                    tk > 0,
            ;
        }
        v = times_small(&v, 2);
        z = z + 1;
        q = match high_part(&v, k) {
            Some(x) => x,
            None => 0,
        };
    }
    let sticky: bool = low_part_nonzero(&v, k);
    proof {
        lemma_doubled_frame(d0, k as nat, z as nat, low_val(v@), q as int);
        assert(d0 * pow2(1074) >= 0) by (nonlinear_arith)
            requires
                d0 > 0,
        ;
    }
    encode_framed(q as u128, 1074 - z as i32, sticky, Ghost(d0 * pow2(1074)), Ghost(tk))
}

fn scale_down(v: Vec<u8>, k: u128, Ghost(d0): Ghost<int>) -> (r: u64)
    requires
        all_digits(v@),
        d0 == low_val(v@),
        d0 > 0,
        k < 0xF000_0000_0000_0000_0000_0000,
        d0 <= ten(k as nat) * pow2(1700),
        low_val(v@) / ten(k as nat) > u64::MAX,
    ensures
        r == fraction_bits(d0, k as nat),
        r <= INF_BITS,
{
    let mut v: Vec<u8> = v;
    let mut t: u32 = 0;
    let mut kk: u128 = k;
    let ghost t0 = ten(k as nat);
    proof {
        lemma2_to64();
        lemma_ten_pos(k as nat);
        lemma_pow2_pos(1074);
        lemma_fundamental_div_mod(low_val(v@), t0);
        assert(d0 * t0 == d0 * t0 * pow2(0));
    }
    let mut q: Option<u64> = None;
    assert(low_val(v@) >= 0x1_0000_0000_0000_0000 * t0) by (nonlinear_arith)
        requires
            low_val(v@) == t0 * (low_val(v@) / t0) + low_val(v@) % t0,
            0 <= low_val(v@) % t0,
            low_val(v@) / t0 >= 0x1_0000_0000_0000_0000,
            t0 > 0,
    ;
    while q.is_none()
        invariant
            all_digits(v@),
            d0 > 0,
            t0 == ten(k as nat),
            t0 > 0,
            k < 0xF000_0000_0000_0000_0000_0000,
            kk == k + t,
            t <= 1700,
            d0 * ten(kk as nat) == low_val(v@) * t0 * pow2(t as nat),
            d0 <= t0 * pow2(1700),
            match q {
                Some(x) => x == low_val(v@) / ten(kk as nat) && x >= 0x8000_0000_0000_0000,
                None => low_val(v@) >= 0x1_0000_0000_0000_0000 * ten(kk as nat),
            },
        decreases (if q is None { 1701 - t } else { 0 }),
    {
        let ghost dd = low_val(v@);
        let ghost tk = ten(kk as nat);
        proof {
            lemma_ten_pos(kk as nat);
            lemma_pow2_pos(t as nat);
            lemma_pow2_unfold((t + 1) as nat);
            assert(ten((kk + 1) as nat) == 10 * tk);
            let p = pow2(t as nat);
            assert(d0 * (10 * tk) == (5 * dd) * t0 * (2 * p)) by (nonlinear_arith)
                requires
                    d0 * tk == dd * t0 * p,
            ;
            if t >= 1700 {
                lemma_frame_overrun(d0, dd, tk, t0, p as int);
            }
        }
        v = times_small(&v, 5);
        kk = kk + 1;
        t = t + 1;
        q = high_part(&v, kk);
        proof {
            let n = low_val(v@);
            let tn = ten(kk as nat);
            lemma_ten_pos(kk as nat);
            lemma_fundamental_div_mod(n, tn);
            let x = n / tn;
            assert(x >= 0x8000_0000_0000_0000) by (nonlinear_arith)
                requires
                    n == tn * x + n % tn,
                    n % tn < tn,
                    tn > 0,
                    n == 5 * dd,
                    tn == 10 * tk,
                    dd >= 0x1_0000_0000_0000_0000 * tk,
            ;
            if q is None {
                assert(n >= 0x1_0000_0000_0000_0000 * tn) by (nonlinear_arith)
                    requires
                        n == tn * x + n % tn,
                        n % tn >= 0,
                        tn > 0,
                        x >= 0x1_0000_0000_0000_0000,
                ;
            }
        }
    }
    let qq: u64 = match q {
        Some(x) => x,
        None => 0,
    };
    let sticky: bool = low_part_nonzero(&v, kk);
    proof {
        lemma_halved_frame(d0, k as nat, t as nat, low_val(v@), kk as nat, qq as int);
        assert(d0 * pow2(1074) >= 0) by (nonlinear_arith)
            requires
                d0 > 0,
        ;
    }
    encode_framed(qq as u128, 1074 + t as i32, sticky, Ghost(d0 * pow2(1074)), Ghost(t0))
}

proof fn lemma_frame_overrun(d0: int, dd: int, tk: int, t0: int, p: int)
    requires
        tk > 0,
        t0 > 0,
        p > 0,
        d0 * tk == dd * t0 * p,
        d0 <= t0 * p,
    ensures
        dd <= tk,
{
    let c = t0 * p;
    assert(c > 0) by (nonlinear_arith)
        requires
            c == t0 * p,
            t0 > 0,
            p > 0,
    ;
    assert(dd * t0 * p == dd * c) by (nonlinear_arith)
        requires
            c == t0 * p,
    ;
    assert(dd <= tk) by (nonlinear_arith)
        requires
            d0 * tk == dd * c,
            d0 <= c,
            tk > 0,
            c > 0,
    ;
}

/// Magnitude of the double nearest to `d * 10^e`.
pub open spec fn decimal_bits(d: int, e: int) -> int {
    if e >= 0 {
        fraction_bits(d * ten(e as nat), 0)
    } else {
        fraction_bits(d, (-e) as nat)
    }
}

proof fn lemma_ten_vs_pow2(k: nat)
    ensures
        pow2(3 * k) <= ten(k) <= pow2(4 * k),
    decreases k,
{
    if k == 0 {
        lemma2_to64();
    } else {
        let j = (k - 1) as nat;
        lemma_ten_vs_pow2(j);
        lemma2_to64();
        lemma_pow2_adds(3, 3 * j);
        lemma_pow2_adds(4, 4 * j);
        assert(3 * k == 3 + 3 * j && 4 * k == 4 + 4 * j);
    }
}

proof fn lemma_huge(d: int, k: nat)
    requires
        d >= ten(400) * ten(k),
    ensures
        fraction_bits(d, k) == INF_BITS,
{
    let b = INF_BITS as int;
    let tk = ten(k);
    let p = pow2(1074);
    lemma_ten_pos(k);
    lemma_pow2_pos(1074);
    lemma_ten_vs_pow2(400);
    lemma2_to64();
    assert(pow2(52) == 0x10_0000_0000_0000) by {
        lemma_pow2_adds(32, 20);
    }
    lemma_pow2_adds(52, 2046);
    lemma_pow2_adds(1200, 1074);
    lemma_pow2_strictly_increases(2098, 2274);
    let u = crate::rounding::units(b);
    assert(u == pow2(2098));
    crate::rounding::lemma_encode_exact(b, 1);
    let n = d * p;
    let a = pow2(1200) as int;
    assert(d >= a * tk) by (nonlinear_arith)
        requires
            d >= ten(400) * tk,
            ten(400) >= a,
            tk > 0,
    ;
    assert(n >= (a * tk) * p) by (nonlinear_arith)
        requires
            n == d * p,
            d >= a * tk,
            p > 0,
    ;
    assert((a * tk) * p == (a * p) * tk) by (nonlinear_arith);
    assert((a * p) * tk >= u * tk) by (nonlinear_arith)
        requires
            u <= a * p,
            tk > 0,
    ;
    assert(u * tk >= 0) by (nonlinear_arith)
        requires
            u >= 0,
            tk > 0,
    ;
    crate::rounding::lemma_encode_mono(u * 1, 1, n, tk);
}

proof fn lemma_tiny(d: int, k: nat)
    requires
        d >= 0,
        d * ten(400) <= ten(k),
    ensures
        fraction_bits(d, k) == 0,
{
    let tk = ten(k);
    let p = pow2(1074);
    lemma_ten_pos(k);
    lemma_pow2_pos(1074);
    lemma_ten_vs_pow2(400);
    lemma_pow2_adds(126, 1074);
    lemma2_to64();
    lemma_pow2_strictly_increases(2, 126);
    let n = d * p;
    let h = ten(400);
    assert(4 * n <= d * h) by (nonlinear_arith)
        requires
            n == d * p,
            h >= pow2(126) * p,
            pow2(126) >= 4,
            p > 0,
            d >= 0,
    {
        assert(pow2(126) * p >= 4 * p) by (nonlinear_arith)
            requires
                pow2(126) >= 4,
                p > 0,
        ;
        assert(d * h >= d * (4 * p)) by (nonlinear_arith)
            requires
                h >= 4 * p,
                d >= 0,
        ;
    }
    assert(n >= 0) by (nonlinear_arith)
        requires
            n == d * p,
            d >= 0,
            p > 0,
    ;
    assert(0 * tk == 0);
    crate::rounding::lemma_rne_unique(n, tk, 0, n);
}

/// Drops the zeros above the highest digit.
pub(crate) fn trimmed(v: Vec<u8>) -> (r: Vec<u8>)
    requires
        all_digits(v@),
    ensures
        all_digits(r@),
        low_val(r@) == low_val(v@),
        r.len() <= v.len(),
        r.len() > 0 ==> r@.last() > 0 && ten((r.len() - 1) as nat) <= low_val(r@),
        low_val(r@) < ten(r.len() as nat),
{
    let mut w: Vec<u8> = v;
    while w.len() > 0 && w[w.len() - 1] == 0
        invariant
            all_digits(w@),
            low_val(w@) == low_val(v@),
            w.len() <= v.len(),
        decreases w.len(),
    {
        let ghost x = w@;
        w.pop();
        proof {
            lemma_low_push(w@, 0);
            assert(w@.push(0u8) == x);
            assert(ten(w@.len()) * 0 == 0);
        }
    }
    proof {
        lemma_low_split(w@, w.len() as int);
        assert(w@.take(w.len() as int) == w@);
        assert(w@.skip(w.len() as int) == Seq::<u8>::empty());
        if w.len() > 0 {
            let m = w.len() - 1;
            let d = w@.last();
            let b = w@.take(m);
            assert(b.push(d) == w@);
            lemma_low_push(b, d);
            lemma_low_nonneg(b);
            lemma_ten_pos(m as nat);
            assert(ten(m as nat) * d >= ten(m as nat)) by (nonlinear_arith)
                requires
                    d >= 1,
                    ten(m as nat) > 0,
            ;
        }
    }
    w
}

/// `e` zeros below the digits.
pub(crate) fn shifted(v: Vec<u8>, e: usize) -> (r: Vec<u8>)
    requires
        all_digits(v@),
    ensures
        all_digits(r@),
        low_val(r@) == low_val(v@) * ten(e as nat),
{
    let mut w: Vec<u8> = v;
    let mut i: usize = 0;
    assert(low_val(v@) * 1 == low_val(v@));
    while i < e
        invariant
            i <= e,
            all_digits(w@),
            low_val(w@) == low_val(v@) * ten(i as nat),
        decreases e - i,
    {
        let ghost x = w@;
        w.insert(0, 0u8);
        proof {
            assert(w@.drop_first() == x);
            assert(all_digits(w@)) by {
                assert forall|j: int| 0 <= j < w@.len() implies #[trigger] w@[j] < 10 by {
                    if j > 0 {
                        assert(w@[j] == x[j - 1]);
                    }
                }
            }
            let t = ten(i as nat);
            assert(10 * (low_val(v@) * t) == low_val(v@) * (10 * t)) by (nonlinear_arith);
        }
        i = i + 1;
    }
    w
}

/// Magnitude of the double nearest to the digits times `10^e`.
pub(crate) fn digits_to_bits(v: Vec<u8>, e: i128) -> (r: u64)
    requires
        all_digits(v@),
        -0x1000_0000_0000_0000_0000_0000 < e < 0x1000_0000_0000_0000_0000_0000,
    ensures
        r == decimal_bits(low_val(v@), e as int),
        r <= INF_BITS,
{
    let w: Vec<u8> = trimmed(v);
    let ghost d = low_val(v@);
    let m: i128 = w.len() as i128;
    proof {
        lemma_ten_pos(400);
    }
    if w.len() == 0 {
        proof {
            let k = if e >= 0 { 0nat } else { (-e) as nat };
            assert(d == 0);
            lemma_ten_pos(k);
            lemma_tiny(0, k);
            assert(e >= 0 ==> 0 * ten(e as nat) == 0);
        }
        return 0;
    }
    if m - 1 + e >= 400 {
        proof {
            let m1 = (m - 1) as nat;
            if e >= 0 {
                lemma_ten_adds(m1, e as nat);
                lemma_ten_pos(e as nat);
                lemma_ten_pos(m1);
                assert(d * ten(e as nat) >= ten(m1) * ten(e as nat)) by (nonlinear_arith)
                    requires
                        d >= ten(m1),
                        ten(e as nat) > 0,
                ;
                lemma_ten_mono(400, m1 + e as nat);
                lemma_huge(d * ten(e as nat), 0);
            } else {
                let k = (-e) as nat;
                lemma_ten_mono(400 + k, m1);
                lemma_ten_adds(400, k);
                lemma_huge(d, k);
            }
        }
        return INF_BITS;
    }
    if m + e <= -400 {
        proof {
            let k = (-e) as nat;
            let mm = m as nat;
            lemma_ten_adds(mm, 400);
            lemma_ten_mono(mm + 400, k);
            assert(d * ten(400) <= ten(mm) * ten(400)) by (nonlinear_arith)
                requires
                    d <= ten(mm),
                    ten(400) > 0,
            ;
            lemma_tiny(d, k);
        }
        return 0;
    }
    let (x, k): (Vec<u8>, u128) = if e >= 0 {
        (shifted(w, e as usize), 0)
    } else {
        (w, (-e) as u128)
    };
    let ghost dx = low_val(x@);
    proof {
        lemma_ten_vs_pow2(400);
        lemma_ten_pos(k as nat);
        lemma_pow2_strictly_increases(1600, 1700);
        let tk = ten(k as nat);
        if e >= 0 {
            lemma_ten_pos(e as nat);
            assert(dx > 0) by (nonlinear_arith)
                requires
                    dx == d * ten(e as nat),
                    d > 0,
                    ten(e as nat) > 0,
            ;
            lemma_ten_adds(m as nat, e as nat);
            lemma_ten_mono(m as nat + e as nat, 400);
            assert(dx <= ten(m as nat) * ten(e as nat)) by (nonlinear_arith)
                requires
                    dx == d * ten(e as nat),
                    d <= ten(m as nat),
                    ten(e as nat) > 0,
            ;
            assert(dx * pow2(1700) >= tk) by (nonlinear_arith)
                requires
                    dx >= 1,
                    pow2(1700) >= 1,
                    tk == 1,
            ;
            assert(1 * pow2(1700) == pow2(1700));
        } else {
            let m1 = (m - 1) as nat;
            let kk = k as nat;
            lemma_ten_adds(m1, 400);
            lemma_ten_mono(kk, m1 + 400);
            lemma_ten_pos(m1);
            assert(dx * pow2(1700) >= ten(m1) * ten(400)) by (nonlinear_arith)
                requires
                    dx >= ten(m1),
                    pow2(1700) >= ten(400),
                    ten(400) > 0,
                    ten(m1) > 0,
            ;
            lemma_ten_adds(400, kk);
            lemma_ten_mono(m as nat, 400 + kk);
            assert(tk * pow2(1700) >= ten(400) * tk) by (nonlinear_arith)
                requires
                    pow2(1700) >= ten(400),
                    tk > 0,
            ;
        }
    }
    match high_part(&x, k) {
        Some(_) => scale_up(x, k, Ghost(dx)),
        None => scale_down(x, k, Ghost(dx)),
    }
}

proof fn lemma_ten_mono(a: nat, b: nat)
    requires
        a <= b,
    ensures
        ten(a) <= ten(b),
{
    let c = (b - a) as nat;
    lemma_ten_adds(a, c);
    lemma_ten_pos(a);
    lemma_ten_pos(c);
    assert(ten(a) * ten(c) >= ten(a)) by (nonlinear_arith)
        requires
            ten(a) > 0,
            ten(c) >= 1,
    ;
}

/// Zero, or a number too large or too small for a double, whatever the exact power.
pub proof fn lemma_decimal_extreme(d: int, m: nat, e: int)
    requires
        0 <= d < ten(m),
    ensures
        d == 0 ==> decimal_bits(d, e) == 0,
        d > 0 && e >= 400 ==> decimal_bits(d, e) == INF_BITS,
        m + e <= -400 ==> decimal_bits(d, e) == 0,
{
    lemma_ten_pos(400);
    if d == 0 {
        let k = if e >= 0 { 0nat } else { (-e) as nat };
        lemma_ten_pos(k);
        lemma_tiny(0, k);
        assert(e >= 0 ==> 0 * ten(e as nat) == 0);
    } else if e >= 400 {
        lemma_ten_mono(400, e as nat);
        lemma_ten_pos(e as nat);
        assert(d * ten(e as nat) >= ten(e as nat)) by (nonlinear_arith)
            requires
                d >= 1,
                ten(e as nat) > 0,
        ;
        lemma_huge(d * ten(e as nat), 0);
    } else if m + e <= -400 {
        let k = (-e) as nat;
        lemma_ten_adds(m, 400);
        lemma_ten_mono(m + 400, k);
        assert(d * ten(400) <= ten(m) * ten(400)) by (nonlinear_arith)
            requires
                d <= ten(m),
                ten(400) > 0,
        ;
        lemma_tiny(d, k);
    }
}

} // verus!
