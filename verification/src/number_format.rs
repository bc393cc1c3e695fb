//! Writing whole numbers and doubles as decimal text.
use crate::decimal::{
    all_digits, lemma_low_nonneg, lemma_low_push, lemma_low_split, lemma_ten_adds, lemma_ten_pos,
    low_val, shifted, ten, times_small, trimmed,
};
use crate::num::Num;
use crate::num_ops::split;
use crate::rounding::{
    lemma_rne_exact, lemma_rne_scale, lemma_rne_unique, pow2_wide, rne, units, INF_BITS,
};
use vstd::arithmetic::div_mod::{lemma_fundamental_div_mod, lemma_fundamental_div_mod_converse};
use vstd::arithmetic::power2::{
    lemma2_to64, lemma_pow2_adds, lemma_pow2_pos, lemma_pow2_strictly_increases, lemma_pow2_unfold,
    pow2,
};
use vstd::prelude::*;
use vstd::string::*;

verus! {

pub open spec fn digit_char(d: int) -> char {
    (d + '0' as int) as char
}

/// The decimal text of a whole number.
pub open spec fn dec_text(n: int) -> Seq<char>
    decreases n,
{
    if n < 10 {
        seq![digit_char(n)]
    } else {
        dec_text(n / 10).push(digit_char(n % 10))
    }
}

/// The last `places` decimal digits of a whole number.
pub open spec fn frac_text(n: int, places: nat) -> Seq<char>
    decreases places,
{
    if places == 0 {
        Seq::<char>::empty()
    } else {
        frac_text(n / 10, (places - 1) as nat).push(digit_char(n % 10))
    }
}

/// The whole number `n` read as a count of the last of `places` decimals.
pub open spec fn point_text(n: int, places: nat) -> Seq<char> {
    if places == 0 {
        dec_text(n)
    } else {
        dec_text(n / ten(places)) + seq!['.'] + frac_text(n % ten(places), places)
    }
}

/// The magnitude of a finite number in units of the last of `places` decimals,
/// rounded to nearest, ties to even.
pub open spec fn scaled(x: Num, places: nat) -> int {
    rne(units(x.mag()) * ten(places), pow2(1074) as int)
}

/// A number with a fixed count of decimals.
pub open spec fn fixed_of(x: Num, places: nat) -> Seq<char> {
    if x.is_nan() {
        "NaN"@
    } else {
        (if x.is_neg() {
            seq!['-']
        } else {
            Seq::<char>::empty()
        }) + (if x.is_inf() {
            "inf"@
        } else {
            point_text(scaled(x, places), places)
        })
    }
}

/// The same with a plus sign in front of what is not negative.
pub open spec fn signed_fixed_of(x: Num, places: nat) -> Seq<char> {
    if x.is_nan() || x.is_neg() {
        fixed_of(x, places)
    } else {
        seq!['+'] + fixed_of(x, places)
    }
}

spec fn rev_text(v: Seq<u8>) -> Seq<char>
    decreases v.len(),
{
    if v.len() == 0 {
        Seq::<char>::empty()
    } else {
        rev_text(v.drop_first()).push(digit_char(v[0] as int))
    }
}

proof fn lemma_rev_dec(v: Seq<u8>)
    requires
        all_digits(v),
        v.len() >= 1,
        v.len() > 1 ==> v.last() > 0,
    ensures
        rev_text(v) == dec_text(low_val(v)),
        v.len() > 1 ==> low_val(v) >= 10,
    decreases v.len(),
{
    let d = v.drop_first();
    if v.len() == 1 {
        assert(d == Seq::<u8>::empty());
        assert(low_val(d) == 0);
        assert(rev_text(d) == Seq::<char>::empty());
        assert(rev_text(v) == seq![digit_char(v[0] as int)]);
    } else {
        assert(all_digits(d)) by {
            assert forall|i: int| 0 <= i < d.len() implies #[trigger] d[i] < 10 by {
                assert(d[i] == v[i + 1]);
            }
        }
        assert(d.last() == v.last());
        lemma_rev_dec(d);
        if d.len() == 1 {
            assert(d.drop_first() == Seq::<u8>::empty());
            assert(low_val(d.drop_first()) == 0);
            assert(low_val(d) >= 1);
        }
        let n = low_val(v);
        assert(n / 10 == low_val(d) && n % 10 == v[0]);
    }
}

proof fn lemma_rev_frac(v: Seq<u8>)
    requires
        all_digits(v),
    ensures
        rev_text(v) == frac_text(low_val(v), v.len()),
    decreases v.len(),
{
    if v.len() > 0 {
        let d = v.drop_first();
        assert(all_digits(d)) by {
            assert forall|i: int| 0 <= i < d.len() implies #[trigger] d[i] < 10 by {
                assert(d[i] == v[i + 1]);
            }
        }
        lemma_rev_frac(d);
        lemma_low_nonneg(d);
        let n = low_val(v);
        assert(n / 10 == low_val(d) && n % 10 == v[0]);
    }
}

/// The digits of a whole number, lowest first; none for zero.
fn digits_of(n: u128) -> (v: Vec<u8>)
    ensures
        all_digits(v@),
        low_val(v@) == n,
        v.len() > 0 ==> v@.last() > 0,
{
    let mut v: Vec<u8> = Vec::new();
    let mut m: u128 = n;
    assert(m * ten(0) == m);
    while m > 0
        invariant
            all_digits(v@),
            low_val(v@) + m * ten(v.len() as nat) == n,
            m == 0 && v.len() > 0 ==> v@.last() > 0,
        decreases m,
    {
        let d: u8 = (m % 10) as u8;
        let h: u128 = m / 10;
        proof {
            lemma_low_push(v@, d);
            let t = ten(v.len() as nat);
            assert(m * t == h * (10 * t) + t * d) by (nonlinear_arith)
                requires
                    m == 10 * h + d,
            ;
        }
        v.push(d);
        m = h;
    }
    proof {
        assert(0 * ten(v.len() as nat) == 0);
    }
    v
}

fn push_digits(out: &mut String, v: &Vec<u8>, from: usize, to: usize)
    requires
        from <= to <= v.len(),
        all_digits(v@),
    ensures
        final(out)@ == old(out)@ + rev_text(v@.subrange(from as int, to as int)),
{
    let mut i: usize = to;
    let ghost base = out@;
    proof {
        assert(v@.subrange(to as int, to as int) == Seq::<u8>::empty());
        assert(base + Seq::<char>::empty() == base);
    }
    while i > from
        invariant
            from <= i <= to <= v.len(),
            all_digits(v@),
            out@ == base + rev_text(v@.subrange(i as int, to as int)),
        decreases i,
    {
        let d: u8 = v[i - 1];
        proof {
            let w = v@.subrange(i - 1, to as int);
            assert(w.drop_first() == v@.subrange(i as int, to as int));
            assert(w[0] == d);
        }
        out.push((d + 48) as char);
        i = i - 1;
    }
}

/// Appends digits, lowest first in `v`, with `places` of them behind the point.
fn push_point(out: &mut String, v: Vec<u8>, places: usize)
    requires
        all_digits(v@),
        places <= 20,
    ensures
        final(out)@ == old(out)@ + point_text(low_val(v@), places as nat),
{
    let mut w: Vec<u8> = trimmed(v);
    while w.len() < places + 1
        invariant
            all_digits(w@),
            places <= 20,
            low_val(w@) == low_val(v@),
            w.len() > places + 1 ==> w@.last() > 0,
        decreases places + 1 - w.len(),
    {
        proof {
            lemma_low_push(w@, 0);
            assert(ten(w@.len()) * 0 == 0);
        }
        w.push(0);
    }
    let n: usize = w.len();
    proof {
        lemma_low_split(w@, places as int);
        lemma_ten_pos(places as nat);
        let lo = w@.take(places as int);
        let hi = w@.skip(places as int);
        assert(low_val(hi) * ten(places as nat) == ten(places as nat) * low_val(hi))
            by (nonlinear_arith);
        lemma_fundamental_div_mod_converse(
            low_val(w@),
            ten(places as nat),
            low_val(hi),
            low_val(lo),
        );
        assert(hi == w@.subrange(places as int, n as int));
        assert(lo == w@.subrange(0, places as int));
        assert(all_digits(hi)) by {
            assert forall|i: int| 0 <= i < hi.len() implies #[trigger] hi[i] < 10 by {
                assert(hi[i] == w@[i + places]);
            }
        }
        lemma_rev_dec(hi);
        lemma_rev_frac(lo);
        if places == 0 {
            assert(hi == w@);
        }
    }
    let ghost base = out@;
    push_digits(out, &w, places, n);
    if places > 0 {
        out.push('.');
        push_digits(out, &w, 0, places);
        assert(out@ =~= base + point_text(low_val(v@), places as nat));
    }
}

/// The decimal text of a whole number.
pub fn uint_text(n: u64) -> (r: String)
    ensures
        r@ == dec_text(n as int),
{
    let mut out: String = String::new();
    let v: Vec<u8> = digits_of(n as u128);
    push_point(&mut out, v, 0);
    proof {
        assert(Seq::<char>::empty() + dec_text(n as int) == dec_text(n as int));
    }
    out
}

/// The decimal text of a signed whole number.
pub open spec fn int_text_of(n: int) -> Seq<char> {
    if n < 0 {
        seq!['-'] + dec_text(-n)
    } else {
        dec_text(n)
    }
}

pub fn int_text(n: i64) -> (r: String)
    ensures
        r@ == int_text_of(n as int),
{
    let mut out: String = String::new();
    let m: u128 = if n < 0 {
        out.push('-');
        (-(n as i128)) as u128
    } else {
        n as u128
    };
    let v: Vec<u8> = digits_of(m);
    let ghost base = out@;
    push_point(&mut out, v, 0);
    assert(out@ =~= int_text_of(n as int));
    out
}

proof fn lemma_scaled_whole(s: int, e: nat, places: nat)
    requires
        e >= 1074,
    ensures
        rne((s * pow2(e)) * ten(places), pow2(1074) as int) == (s * pow2((e - 1074) as nat)) * ten(
            places,
        ),
{
    let h = (e - 1074) as nat;
    lemma_pow2_adds(h, 1074);
    lemma_pow2_pos(1074);
    let p = pow2(1074) as int;
    let m = (s * pow2(h)) * ten(places);
    assert((s * (pow2(h) * p)) * ten(places) == m * p) by (nonlinear_arith)
        requires
            m == (s * pow2(h)) * ten(places),
    ;
    lemma_rne_exact(m, p);
}

proof fn lemma_scaled_small(s: int, e: nat, places: nat)
    requires
        e < 1074,
    ensures
        rne((s * pow2(e)) * ten(places), pow2(1074) as int) == rne(
            s * ten(places),
            pow2((1074 - e) as nat) as int,
        ),
{
    let h = (1074 - e) as nat;
    lemma_pow2_adds(h, e);
    lemma_pow2_pos(h);
    lemma_pow2_pos(e);
    let p = pow2(e) as int;
    assert((s * p) * ten(places) == (s * ten(places)) * p) by (nonlinear_arith);
    lemma_rne_scale(s * ten(places), pow2(h) as int, p);
}

/// The digits of a finite magnitude in units of the last of `places` decimals.
fn scaled_digits(s: u64, e: u32, places: usize) -> (v: Vec<u8>)
    requires
        s < 0x20_0000_0000_0000,
        e <= 2046,
        places <= 20,
    ensures
        all_digits(v@),
        low_val(v@) == rne((s * pow2(e as nat)) * ten(places as nat), pow2(1074) as int),
{
    if e >= 1074 {
        let mut v: Vec<u8> = digits_of(s as u128);
        let mut i: u32 = 0;
        let h: u32 = e - 1074;
        proof {
            lemma2_to64();
            assert(s * 1 == s);
        }
        while i < h
            invariant
                i <= h,
                all_digits(v@),
                low_val(v@) == s * pow2(i as nat),
            decreases h - i,
        {
            proof {
                lemma_pow2_unfold((i + 1) as nat);
                let p = pow2(i as nat);
                assert(s * (2 * p) == 2 * (s * p)) by (nonlinear_arith);
            }
            v = times_small(&v, 2);
            i = i + 1;
        }
        proof {
            lemma_scaled_whole(s as int, e as nat, places as nat);
        }
        return shifted(v, places);
    }
    proof {
        lemma_scaled_small(s as int, e as nat, places as nat);
    }
    let mut t: u128 = 1;
    let mut i: usize = 0;
    assert(ten(20) == 100_000_000_000_000_000_000) by {
        reveal_with_fuel(ten, 21);
    }
    while i < places
        invariant
            i <= places <= 20,
            t == ten(i as nat),
            t <= ten(20),
            ten(20) == 100_000_000_000_000_000_000,
        decreases places - i,
    {
        proof {
            lemma_ten_adds((i + 1) as nat, (19 - i) as nat);
            lemma_ten_pos((19 - i) as nat);
            lemma_ten_pos((i + 1) as nat);
            let a = ten((i + 1) as nat);
            let b = ten((19 - i) as nat);
            assert(a <= ten(20)) by (nonlinear_arith)
                requires
                    ten(20) == a * b,
                    b >= 1,
                    a > 0,
            ;
        }
        t = t * 10;
        i = i + 1;
    }
    assert(0 <= s * t < 0x20_0000_0000_0000 * 100_000_000_000_000_000_001) by (nonlinear_arith)
        requires
            0 <= s < 0x20_0000_0000_0000,
            0 <= t <= 100_000_000_000_000_000_000,
    ;
    let q: u128 = s as u128 * t;
    let h: u32 = 1074 - e;
    if h >= 127 {
        proof {
            crate::rounding::lemma_pow2_127();
            if h > 127 {
                lemma_pow2_strictly_increases(127, h as nat);
            }
            assert(0 * pow2(h as nat) == 0);
            lemma_rne_unique(q as int, pow2(h as nat) as int, 0, q as int);
        }
        let v: Vec<u8> = Vec::new();
        return v;
    }
    let w: u128 = pow2_wide(h);
    let f: u128 = q / w;
    let r: u128 = q % w;
    proof {
        lemma_fundamental_div_mod(q as int, w as int);
        assert(f * w == w * f) by (nonlinear_arith);
        lemma_rne_unique(q as int, w as int, f as int, r as int);
        assert(f <= q) by (nonlinear_arith)
            requires
                q == w * f + r,
                w >= 1,
                r >= 0,
                f >= 0,
        ;
    }
    let n: u128 = if r > w - r || (r == w - r && f % 2 == 1) {
        f + 1
    } else {
        f
    };
    digits_of(n)
}

/// Appends a number with a fixed count of decimals.
pub fn push_fixed(out: &mut String, x: Num, places: usize)
    requires
        places <= 20,
    ensures
        final(out)@ == old(out)@ + fixed_of(x, places as nat),
{
    let ghost base = out@;
    if x.is_nan() {
        out.append("NaN");
        return;
    }
    if x.sign_of() {
        out.push('-');
    }
    let b: u64 = x.mag_of();
    if b == INF_BITS {
        out.append("inf");
        assert(out@ =~= base + fixed_of(x, places as nat));
        return;
    }
    let (s, e): (u64, u32) = split(b);
    let v: Vec<u8> = scaled_digits(s, e, places);
    push_point(out, v, places);
    assert(out@ =~= base + fixed_of(x, places as nat));
}

/// A number with a fixed count of decimals.
pub fn fixed(x: Num, places: usize) -> (r: String)
    requires
        places <= 20,
    ensures
        r@ == fixed_of(x, places as nat),
{
    let mut out: String = String::new();
    push_fixed(&mut out, x, places);
    assert(out@ =~= fixed_of(x, places as nat));
    out
}

/// A number with a fixed count of decimals and always a sign.
pub fn signed_fixed(x: Num, places: usize) -> (r: String)
    requires
        places <= 20,
    ensures
        r@ == signed_fixed_of(x, places as nat),
{
    let mut out: String = String::new();
    if !x.is_nan() && !x.sign_of() {
        out.push('+');
    }
    push_fixed(&mut out, x, places);
    assert(out@ =~= signed_fixed_of(x, places as nat));
    out
}

} // verus!
