//! Reading numbers from text, and writing them with a fixed number of decimals.
use crate::decimal::{
    all_digits, decimal_bits, digits_to_bits, lemma_decimal_extreme, lemma_low_push,
    lemma_low_split, low_val, ten,
};
use crate::num::Num;
use crate::rounding::INF_BITS;
use crate::text::chars_of;
use vstd::prelude::*;

verus! {

pub open spec fn is_digit(c: char) -> bool {
    '0' <= c <= '9'
}

pub open spec fn digit_val(c: char) -> int {
    c as int - '0' as int
}

/// Whether every character is a decimal digit.
pub open spec fn only_digits(s: Seq<char>) -> bool {
    forall|i: int| 0 <= i < s.len() ==> is_digit(#[trigger] s[i])
}

/// The end of the run of digits that starts at `i`.
pub open spec fn run_end(s: Seq<char>, i: int) -> int
    decreases s.len() - i,
{
    if 0 <= i < s.len() && is_digit(s[i]) {
        run_end(s, i + 1)
    } else {
        i
    }
}

/// The whole number that digits denote.
pub open spec fn digits_val(s: Seq<char>) -> int
    decreases s.len(),
{
    if s.len() == 0 {
        0
    } else {
        10 * digits_val(s.drop_last()) + digit_val(s.last())
    }
}

/// Whether the text starts with a minus sign.
pub open spec fn signed_neg(s: Seq<char>) -> bool {
    s.len() > 0 && s[0] == '-'
}

/// The text behind one optional sign.
pub open spec fn unsigned(s: Seq<char>) -> Seq<char> {
    if s.len() > 0 && (s[0] == '-' || s[0] == '+') {
        s.skip(1)
    } else {
        s
    }
}

/// The power of ten that an exponent part denotes; the empty part denotes zero.
pub open spec fn exponent_of(s: Seq<char>) -> Option<int> {
    if s.len() == 0 {
        Some(0)
    } else if s[0] == 'e' || s[0] == 'E' {
        let t = s.skip(1);
        let d = unsigned(t);
        if d.len() > 0 && only_digits(d) {
            Some(
                if signed_neg(t) {
                    -digits_val(d)
                } else {
                    digits_val(d)
                },
            )
        } else {
            None
        }
    } else {
        None
    }
}

/// Digits and power of ten of an unsigned decimal number: digits with an optional
/// point, at least one digit in all, and an optional exponent.
pub open spec fn decimal_of(s: Seq<char>) -> Option<(Seq<char>, int)> {
    let i = run_end(s, 0);
    let dot = i < s.len() && s[i] == '.';
    let j = if dot {
        run_end(s, i + 1)
    } else {
        i
    };
    let frac = if dot {
        s.subrange(i + 1, j)
    } else {
        Seq::<char>::empty()
    };
    let digits = s.take(i) + frac;
    if digits.len() == 0 {
        None
    } else {
        match exponent_of(s.skip(j)) {
            Some(e) => Some((digits, e - frac.len())),
            None => None,
        }
    }
}

pub open spec fn ascii_lower(c: char) -> char {
    if 'A' <= c <= 'Z' {
        (c as u32 + 32) as char
    } else {
        c
    }
}

/// The number that a text denotes: an optional sign before a decimal number,
/// `inf`, `infinity` or `nan`, these in any case.
pub open spec fn num_of_text(s: Seq<char>) -> Option<Num> {
    let neg = signed_neg(s);
    let body = unsigned(s);
    let low = body.map_values(|c: char| ascii_lower(c));
    if low == seq!['i', 'n', 'f'] || low == seq!['i', 'n', 'f', 'i', 'n', 'i', 't', 'y'] {
        Some(Num::of(neg, INF_BITS as int))
    } else if low == seq!['n', 'a', 'n'] {
        Some(Num::nan())
    } else {
        match decimal_of(body) {
            Some((digits, e)) => Some(Num::of(neg, decimal_bits(digits_val(digits), e))),
            None => None,
        }
    }
}

proof fn lemma_run_end(s: Seq<char>, i: int)
    requires
        0 <= i <= s.len(),
    ensures
        i <= run_end(s, i) <= s.len(),
        only_digits(s.subrange(i, run_end(s, i))),
    decreases s.len() - i,
{
    if i < s.len() && is_digit(s[i]) {
        lemma_run_end(s, i + 1);
        let r = run_end(s, i);
        let t = s.subrange(i, r);
        assert forall|j: int| 0 <= j < t.len() implies is_digit(#[trigger] t[j]) by {
            if j > 0 {
                assert(s.subrange(i + 1, r)[j - 1] == t[j]);
            }
        }
    }
}

pub fn is_ascii_digit(c: char) -> (r: bool)
    ensures
        r == is_digit(c),
{
    '0' <= c && c <= '9'
}

fn run_end_of(v: &Vec<char>, i: usize) -> (r: usize)
    requires
        i <= v.len(),
    ensures
        r == run_end(v@, i as int),
        i <= r <= v.len(),
        only_digits(v@.subrange(i as int, r as int)),
{
    let mut j: usize = i;
    proof {
        lemma_run_end(v@, i as int);
    }
    while j < v.len() && is_ascii_digit(v[j])
        invariant
            i <= j <= v.len(),
            run_end(v@, j as int) == run_end(v@, i as int),
        decreases v.len() - j,
    {
        j = j + 1;
    }
    j
}

proof fn lemma_digits_cons(c: char, s: Seq<char>)
    ensures
        digits_val(seq![c] + s) == digit_val(c) * ten(s.len()) + digits_val(s),
    decreases s.len(),
{
    let w = seq![c] + s;
    if s.len() == 0 {
        assert(w.drop_last() == Seq::<char>::empty());
        assert(w.last() == c);
        assert(digits_val(s) == 0);
        assert(digits_val(Seq::<char>::empty()) == 0);
        assert(ten(0) == 1);
        assert(digit_val(c) * 1 == digit_val(c));
    } else {
        assert(w.drop_last() == seq![c] + s.drop_last());
        assert(w.last() == s.last());
        lemma_digits_cons(c, s.drop_last());
        let t = ten((s.len() - 1) as nat);
        let d = digit_val(c);
        assert(10 * (d * t) == d * (10 * t)) by (nonlinear_arith);
    }
}

/// The digits in front of `v[from]`, and those of `v[from..to]`, lowest first.
fn low_digits(
    v: &Vec<char>,
    from: usize,
    to: usize,
    low: Vec<u8>,
    Ghost(tail): Ghost<Seq<char>>,
) -> (r: Vec<u8>)
    requires
        from <= to <= v.len(),
        only_digits(v@.subrange(from as int, to as int)),
        only_digits(tail),
        all_digits(low@),
        low.len() == tail.len(),
        low_val(low@) == digits_val(tail),
    ensures
        all_digits(r@),
        r.len() == low.len() + (to - from),
        low_val(r@) == digits_val(v@.subrange(from as int, to as int) + tail),
{
    let mut out: Vec<u8> = low;
    let mut i: usize = to;
    assert(v@.subrange(to as int, to as int) + tail == tail);
    while i > from
        invariant
            from <= i <= to <= v.len(),
            only_digits(v@.subrange(from as int, to as int)),
            all_digits(out@),
            out.len() == tail.len() + (to - i),
            low_val(out@) == digits_val(v@.subrange(i as int, to as int) + tail),
        decreases i,
    {
        let c: char = v[i - 1];
        let ghost rest = v@.subrange(i as int, to as int) + tail;
        proof {
            assert(is_digit(v@.subrange(from as int, to as int)[i - 1 - from]));
        }
        let d: u8 = (c as u32 - '0' as u32) as u8;
        proof {
            lemma_digits_cons(c, rest);
            assert(seq![c] + rest == v@.subrange(i - 1, to as int) + tail);
            lemma_low_push(out@, d);
            assert(digit_val(c) * ten(rest.len()) == ten(rest.len()) * d) by (nonlinear_arith)
                requires
                    digit_val(c) == d,
            ;
        }
        out.push(d);
        i = i - 1;
    }
    out
}

/// The whole number of a run of digits, held below 10^27.
fn capped_val(v: &Vec<char>, from: usize) -> (r: i128)
    requires
        from <= v.len(),
        only_digits(v@.subrange(from as int, v.len() as int)),
    ensures
        ({
            let x = digits_val(v@.subrange(from as int, v.len() as int));
            &&& 0 <= r <= 1_000_000_000_000_000_000_000_000_000
            &&& x >= 0
            &&& r < 1_000_000_000_000_000_000_000_000_000 ==> r == x
            &&& r == 1_000_000_000_000_000_000_000_000_000 ==> x >= r
        }),
{
    let mut acc: i128 = 0;
    let mut i: usize = from;
    let ghost all = v@.subrange(from as int, v.len() as int);
    assert(all.take(0) == Seq::<char>::empty());
    while i < v.len()
        invariant
            from <= i <= v.len(),
            all == v@.subrange(from as int, v.len() as int),
            only_digits(all),
            0 <= acc <= 1_000_000_000_000_000_000_000_000_000,
            ({
                let x = digits_val(all.take(i - from));
                &&& x >= 0
                &&& acc < 1_000_000_000_000_000_000_000_000_000 ==> acc == x
                &&& acc == 1_000_000_000_000_000_000_000_000_000 ==> x >= acc
            }),
        decreases v.len() - i,
    {
        let c: char = v[i];
        proof {
            assert(all[i - from] == c);
            assert(is_digit(all[i - from]));
            assert(all.take(i + 1 - from).drop_last() == all.take(i - from));
            assert(all.take(i + 1 - from).last() == c);
        }
        let d: i128 = (c as u32 - '0' as u32) as i128;
        acc = acc * 10 + d;
        if acc > 1_000_000_000_000_000_000_000_000_000 {
            acc = 1_000_000_000_000_000_000_000_000_000;
        }
        i = i + 1;
    }
    assert(all.take(all.len() as int) == all);
    acc
}

/// The power of ten of an exponent part, held within 10^27 either way.
fn exponent_at(v: &Vec<char>, j: usize) -> (r: Option<i128>)
    requires
        j <= v.len(),
    ensures
        match (r, exponent_of(v@.skip(j as int))) {
            (None, None) => true,
            (Some(x), Some(e)) => {
                &&& -1_000_000_000_000_000_000_000_000_000 <= x
                    <= 1_000_000_000_000_000_000_000_000_000
                &&& x == e || (x == 1_000_000_000_000_000_000_000_000_000 && e >= x) || (x
                    == -1_000_000_000_000_000_000_000_000_000 && e <= x)
            },
            _ => false,
        },
{
    let ghost s = v@.skip(j as int);
    if j == v.len() {
        return Some(0);
    }
    if v[j] != 'e' && v[j] != 'E' {
        return None;
    }
    let ghost t = s.skip(1);
    assert(s[0] == v@[j as int]);
    let mut k: usize = j + 1;
    let mut neg: bool = false;
    if k < v.len() && (v[k] == '-' || v[k] == '+') {
        neg = v[k] == '-';
        k = k + 1;
    }
    let ghost d = unsigned(t);
    assert(d == v@.subrange(k as int, v.len() as int));
    if k == v.len() {
        return None;
    }
    let end: usize = run_end_of(v, k);
    if end != v.len() {
        proof {
            lemma_run_stop(v@, k as int);
            assert(!is_digit(d[end - k]));
        }
        return None;
    }
    let x: i128 = capped_val(v, k);
    if neg {
        Some(-x)
    } else {
        Some(x)
    }
}

proof fn lemma_run_stop(s: Seq<char>, i: int)
    requires
        0 <= i <= s.len(),
    ensures
        run_end(s, i) < s.len() ==> !is_digit(s[run_end(s, i)]),
    decreases s.len() - i,
{
    if i < s.len() && is_digit(s[i]) {
        lemma_run_stop(s, i + 1);
    }
}

pub(crate) fn lower_char(c: char) -> (r: char)
    ensures
        r == ascii_lower(c),
{
    if 'A' <= c && c <= 'Z' {
        ((c as u8) + 32) as char
    } else {
        c
    }
}

/// Whether the characters from `from` on spell `word`, letters in any case.
pub(crate) fn spells(v: &Vec<char>, from: usize, word: &[char]) -> (r: bool)
    requires
        from <= v.len(),
    ensures
        r == (v@.skip(from as int).map_values(|c: char| ascii_lower(c)) == word@),
{
    let ghost low = v@.skip(from as int).map_values(|c: char| ascii_lower(c));
    if v.len() - from != word.len() {
        assert(low.len() != word@.len());
        return false;
    }
    let mut i: usize = 0;
    while i < word.len()
        invariant
            from <= v.len(),
            v.len() - from == word.len(),
            i <= word.len(),
            low == v@.skip(from as int).map_values(|c: char| ascii_lower(c)),
            forall|j: int| 0 <= j < i ==> low[j] == #[trigger] word@[j],
        decreases word.len() - i,
    {
        assert(low[i as int] == ascii_lower(v@[from + i]));
        if lower_char(v[from + i]) != word[i] {
            return false;
        }
        i = i + 1;
    }
    assert(low =~= word@);
    true
}

/// The number that a text denotes, or `None` where it denotes none.
pub fn parse_num(s: &str) -> (r: Option<Num>)
    ensures
        r == num_of_text(s@),
{
    let all: Vec<char> = chars_of(s);
    let neg: bool = all.len() > 0 && all[0] == '-';
    let from: usize = if all.len() > 0 && (all[0] == '-' || all[0] == '+') {
        1
    } else {
        0
    };
    let ghost body = unsigned(s@);
    assert(all@.skip(0) == all@);
    assert(body == all@.skip(from as int));
    if spells(&all, from, &['i', 'n', 'f']) || spells(
        &all,
        from,
        &['i', 'n', 'f', 'i', 'n', 'i', 't', 'y'],
    ) {
        return Some(Num::make(neg, INF_BITS));
    }
    if spells(&all, from, &['n', 'a', 'n']) {
        return Some(Num { bits: 0x7FF8_0000_0000_0000 });
    }
    decimal_at(&all, from, neg)
}

/// The value of the decimal number in `v[from..]`.
#[verifier::spinoff_prover]
#[verifier::rlimit(60)]
fn decimal_at(v: &Vec<char>, from: usize, neg: bool) -> (r: Option<Num>)
    requires
        from <= v.len(),
    ensures
        r == match decimal_of(v@.skip(from as int)) {
            Some((digits, e)) => Some(Num::of(neg, decimal_bits(digits_val(digits), e))),
            None => None,
        },
{
    let ghost s = v@.skip(from as int);
    let i: usize = run_end_of(v, from);
    proof {
        lemma_run_shift(v@, from as int, from as int);
    }
    let dot: bool = i < v.len() && v[i] == '.';
    let j: usize = if dot {
        run_end_of(v, i + 1)
    } else {
        i
    };
    let start: usize = if dot {
        i + 1
    } else {
        i
    };
    let ghost frac = v@.subrange(start as int, j as int);
    let ghost head = v@.subrange(from as int, i as int);
    let ghost digits = head + frac;
    proof {
        if dot {
            lemma_run_shift(v@, from as int, i + 1);
        }
        assert(s.take(i - from) == head);
        assert(dot ==> s.subrange(i + 1 - from, j - from) == frac);
        assert(!dot ==> frac == Seq::<char>::empty());
        assert(s.skip(j - from) == v@.skip(j as int));
        assert(s.len() == v.len() - from);
        assert(i < v.len() ==> s[i - from] == v@[i as int]);
    }
    if i == from && j == start {
        return None;
    }
    let x: i128 = match exponent_at(v, j) {
        Some(x) => x,
        None => {
            return None;
        },
    };
    let empty: Vec<u8> = Vec::new();
    let tail: Vec<u8> = low_digits(v, start, j, empty, Ghost(Seq::<char>::empty()));
    assert(frac + Seq::<char>::empty() == frac);
    let low: Vec<u8> = low_digits(v, from, i, tail, Ghost(frac));
    let places: i128 = (j - start) as i128;
    let ghost e = exponent_of(v@.skip(j as int))->0 - places;
    let ghost d = digits_val(digits);
    let bits: u64 = digits_to_bits(low, x - places);
    proof {
        lemma_low_split(low@, low.len() as int);
        assert(low@.take(low.len() as int) == low@);
        assert(0 <= d < ten(low.len() as nat));
        lemma_decimal_extreme(d, low.len() as nat, e);
        lemma_decimal_extreme(d, low.len() as nat, x - places);
    }
    Some(Num::make(neg, bits))
}

proof fn lemma_run_shift(v: Seq<char>, from: int, i: int)
    requires
        0 <= from <= i <= v.len(),
    ensures
        run_end(v, i) == from + run_end(v.skip(from), i - from),
    decreases v.len() - i,
{
    let s = v.skip(from);
    if i < v.len() {
        assert(s[i - from] == v[i]);
        if is_digit(v[i]) {
            lemma_run_shift(v, from, i + 1);
        }
    }
}

/// The machine integer that a text denotes: an optional sign and digits, in range.
pub open spec fn int_of_text(s: Seq<char>) -> Option<i64> {
    let d = unsigned(s);
    let x = if signed_neg(s) {
        -digits_val(d)
    } else {
        digits_val(d)
    };
    if d.len() > 0 && only_digits(d) && i64::MIN <= x <= i64::MAX {
        Some(x as i64)
    } else {
        None
    }
}

pub fn parse_int(s: &str) -> (r: Option<i64>)
    ensures
        r == int_of_text(s@),
{
    let all: Vec<char> = chars_of(s);
    let neg: bool = all.len() > 0 && all[0] == '-';
    let from: usize = if all.len() > 0 && (all[0] == '-' || all[0] == '+') {
        1
    } else {
        0
    };
    let ghost d = unsigned(s@);
    assert(d == all@.subrange(from as int, all.len() as int));
    if from == all.len() {
        return None;
    }
    let end: usize = run_end_of(&all, from);
    if end != all.len() {
        proof {
            lemma_run_stop(all@, from as int);
            assert(!is_digit(d[end - from]));
        }
        return None;
    }
    let x: i128 = capped_val(&all, from);
    let y: i128 = if neg {
        -x
    } else {
        x
    };
    if y < i64::MIN as i128 || y > i64::MAX as i128 {
        return None;
    }
    Some(y as i64)
}

} // verus!
