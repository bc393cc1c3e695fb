//! Text helpers over sequences of characters.
use crate::number_text::{ascii_lower, lower_char, spells};
use vstd::prelude::*;

verus! {

/// Whether two texts are the same.
pub fn same_text(a: &str, b: &str) -> (r: bool)
    ensures
        r == (a@ == b@),
{
    a.to_owned() == b.to_owned()
}

/// The Unicode upper case of a text.
pub uninterp spec fn uppercase(s: Seq<char>) -> Seq<char>;

pub open spec fn ascii_upper(c: char) -> char {
    if 'a' <= c <= 'z' {
        (c as u32 - 32) as char
    } else {
        c
    }
}

/// Calls `str::to_uppercase`: the upper case of `s` by the Unicode mapping, which on
/// ASCII text turns each letter a-z into A-Z and keeps every other character.
#[verifier::external_body]
pub(crate) fn to_uppercase(s: &str) -> (r: String)
    ensures
        r@ == uppercase(s@),
        (forall|i: int| 0 <= i < s@.len() ==> (#[trigger] s@[i] as u32) < 128) ==> r@
            == s@.map_values(|c: char| ascii_upper(c)),
{
    s.to_uppercase()
}

/// Appends one character, as `String::push` does.
pub assume_specification[ String::push ](s: &mut String, c: char)
    ensures
        final(s)@ == old(s)@.push(c),
;

/// The characters of a text.
pub fn chars_of(s: &str) -> (r: Vec<char>)
    ensures
        r@ == s@,
{
    let mut v: Vec<char> = Vec::new();
    for c in it: s.chars()
        invariant
            it.seq() == s@,
            v@ == s@.take(it.index() as int),
    {
        v.push(c);
    }
    v
}

/// The text of characters.
pub fn string_of(v: &Vec<char>) -> (r: String)
    ensures
        r@ == v@,
{
    let mut s: String = String::new();
    let mut i: usize = 0;
    while i < v.len()
        invariant
            i <= v.len(),
            s@ == v@.take(i as int),
        decreases v.len() - i,
    {
        s.push(v[i]);
        i = i + 1;
    }
    s
}

/// Whether a text starts with another.
pub open spec fn has_prefix(s: Seq<char>, p: Seq<char>) -> bool {
    p.len() <= s.len() && s.take(p.len() as int) == p
}

pub fn starts_with(s: &str, p: &str) -> (r: bool)
    ensures
        r == has_prefix(s@, p@),
{
    let a: Vec<char> = chars_of(s);
    let b: Vec<char> = chars_of(p);
    if b.len() > a.len() {
        return false;
    }
    let mut i: usize = 0;
    while i < b.len()
        invariant
            i <= b.len() <= a.len(),
            a@ == s@,
            b@ == p@,
            forall|j: int| 0 <= j < i ==> a@[j] == b@[j],
        decreases b.len() - i,
    {
        if a[i] != b[i] {
            assert(s@.take(p@.len() as int)[i as int] != p@[i as int]);
            return false;
        }
        i = i + 1;
    }
    assert(s@.take(p@.len() as int) =~= p@);
    true
}

/// The first `n` characters of a text, or all of a shorter one.
pub open spec fn cut(s: Seq<char>, n: int) -> Seq<char> {
    if s.len() <= n {
        s
    } else {
        s.take(n)
    }
}

pub fn cut_text(s: &str, n: usize) -> (r: String)
    ensures
        r@ == cut(s@, n as int),
{
    let a: Vec<char> = chars_of(s);
    let mut out: String = String::new();
    let mut i: usize = 0;
    while i < a.len() && i < n
        invariant
            i <= a.len(),
            i <= n,
            a@ == s@,
            out@ == s@.take(i as int),
        decreases a.len() - i,
    {
        out.push(a[i]);
        i = i + 1;
    }
    assert(out@ =~= cut(s@, n as int));
    out
}

/// `true` or `false`.
pub open spec fn bool_text(b: bool) -> Seq<char> {
    if b {
        "true"@
    } else {
        "false"@
    }
}

pub fn bool_str(b: bool) -> (r: &'static str)
    ensures
        r@ == bool_text(b),
{
    if b {
        "true"
    } else {
        "false"
    }
}

/// Whether a text spells a lower-case word, letters in any case.
pub fn lower_same(s: &str, word: &[char]) -> (r: bool)
    ensures
        r == (s@.map_values(|c: char| ascii_lower(c)) == word@),
{
    let v: Vec<char> = chars_of(s);
    assert(v@.skip(0) == v@);
    spells(&v, 0, word)
}

/// The Unicode lower case of a text.
pub uninterp spec fn lowercase(s: Seq<char>) -> Seq<char>;

/// Calls `str::to_lowercase`: the lower case of `s` by the Unicode mapping, which on
/// ASCII text turns each letter A-Z into a-z and keeps every other character.
#[verifier::external_body]
pub(crate) fn to_lowercase(s: &str) -> (r: String)
    ensures
        r@ == lowercase(s@),
        (forall|i: int| 0 <= i < s@.len() ==> (#[trigger] s@[i] as u32) < 128) ==> r@
            == s@.map_values(|c: char| ascii_lower(c)),
{
    s.to_lowercase()
}

/// Whether `a` comes before `b` by the codes of their characters.
pub open spec fn text_before(a: Seq<char>, b: Seq<char>) -> bool
    decreases a.len(),
{
    if b.len() == 0 {
        false
    } else if a.len() == 0 {
        true
    } else if a[0] != b[0] {
        a[0] < b[0]
    } else {
        text_before(a.drop_first(), b.drop_first())
    }
}

/// Texts are ordered in full: of two that differ one comes before the other, and what
/// comes before what comes before a third comes before it.
pub proof fn lemma_text_order(a: Seq<char>, b: Seq<char>, c: Seq<char>)
    ensures
        !text_before(a, a),
        a == b || text_before(a, b) || text_before(b, a),
        !(text_before(a, b) && text_before(b, a)),
        text_before(a, b) && text_before(b, c) ==> text_before(a, c),
    decreases a.len() + b.len() + c.len(),
{
    let (x, y, z) = (a.drop_first(), b.drop_first(), c.drop_first());
    if a.len() > 0 && b.len() > 0 && c.len() > 0 {
        lemma_text_order(x, y, z);
    } else if a.len() > 0 && b.len() > 0 {
        lemma_text_order(x, y, c);
    } else if a.len() > 0 {
        lemma_text_order(x, b, c);
    }
    if a.len() > 0 && b.len() > 0 && a[0] == b[0] && x == y {
        assert(a == seq![a[0]] + x && b == seq![b[0]] + y);
    }
    if a.len() == 0 && b.len() == 0 {
        assert(a == b);
    }
}

pub fn comes_before(a: &str, b: &str) -> (r: bool)
    ensures
        r == text_before(a@, b@),
{
    let x: Vec<char> = chars_of(a);
    let y: Vec<char> = chars_of(b);
    let mut i: usize = 0;
    assert(x@.skip(0) == x@ && y@.skip(0) == y@);
    while i < x.len() && i < y.len() && x[i] == y[i]
        invariant
            i <= x.len(),
            i <= y.len(),
            x@ == a@,
            y@ == b@,
            text_before(a@, b@) == text_before(x@.skip(i as int), y@.skip(i as int)),
        decreases x.len() - i,
    {
        assert(x@.skip(i as int).drop_first() == x@.skip(i + 1));
        assert(y@.skip(i as int).drop_first() == y@.skip(i + 1));
        i = i + 1;
    }
    if i >= y.len() {
        false
    } else if i >= x.len() {
        true
    } else {
        x[i] < y[i]
    }
}

/// The text behind the last `mark`, or all of it without one.
pub open spec fn after_last(s: Seq<char>, mark: char) -> Seq<char>
    decreases s.len(),
{
    if s.len() == 0 {
        s
    } else if s.last() == mark {
        Seq::<char>::empty()
    } else {
        after_last(s.drop_last(), mark).push(s.last())
    }
}

pub fn tail_after(s: &str, mark: char) -> (r: String)
    ensures
        r@ == after_last(s@, mark),
{
    let v: Vec<char> = chars_of(s);
    let mut i: usize = v.len();
    assert(v@.skip(v.len() as int) == Seq::<char>::empty());
    assert(v@.take(v.len() as int) == v@);
    while i > 0 && v[i - 1] != mark
        invariant
            i <= v.len(),
            forall|j: int| i <= j < v.len() ==> v@[j] != mark,
        decreases i,
    {
        i = i - 1;
    }
    proof {
        lemma_after_last(v@, mark, i as int);
    }
    assert(v@.subrange(i as int, v.len() as int) =~= v@.skip(i as int));
    text_of_range(&v, i, v.len())
}

proof fn lemma_after_last(s: Seq<char>, mark: char, i: int)
    requires
        0 <= i <= s.len(),
        i > 0 ==> s[i - 1] == mark,
        forall|j: int| i <= j < s.len() ==> s[j] != mark,
    ensures
        after_last(s, mark) == s.skip(i),
    decreases s.len(),
{
    if s.len() == 0 {
        assert(s.skip(i) == s);
    } else if i == s.len() {
        assert(s.skip(i) == Seq::<char>::empty());
    } else {
        assert(s[s.len() - 1] != mark);
        lemma_after_last(s.drop_last(), mark, i);
        assert(s.drop_last().skip(i).push(s.last()) == s.skip(i));
    }
}

/// The text without the given character at its two ends.
pub open spec fn stripped(s: Seq<char>, c: char) -> Seq<char>
    decreases s.len(),
{
    if s.len() > 0 && s[0] == c {
        stripped(s.drop_first(), c)
    } else if s.len() > 0 && s.last() == c {
        stripped(s.drop_last(), c)
    } else {
        s
    }
}

pub fn strip_char(s: &str, c: char) -> (r: String)
    ensures
        r@ == stripped(s@, c),
{
    let v: Vec<char> = chars_of(s);
    let mut i: usize = 0;
    let mut j: usize = v.len();
    assert(v@.subrange(0, v.len() as int) == v@);
    while i < j && v[i] == c
        invariant
            i <= j <= v.len(),
            j == v.len(),
            stripped(s@, c) == stripped(v@.subrange(i as int, j as int), c),
        decreases j - i,
    {
        assert(v@.subrange(i as int, j as int).drop_first() == v@.subrange(i + 1, j as int));
        i = i + 1;
    }
    while i < j && v[j - 1] == c
        invariant
            i <= j <= v.len(),
            i < j ==> v@[i as int] != c,
            stripped(s@, c) == stripped(v@.subrange(i as int, j as int), c),
        decreases j - i,
    {
        assert(v@.subrange(i as int, j as int).drop_last() == v@.subrange(i as int, j - 1));
        j = j - 1;
    }
    let mut out: String = String::new();
    let mut k: usize = i;
    while k < j
        invariant
            i <= k <= j <= v.len(),
            out@ == v@.subrange(i as int, k as int),
        decreases j - k,
    {
        out.push(v[k]);
        k = k + 1;
    }
    out
}

/// Unicode white space.
pub open spec fn is_space(c: char) -> bool {
    let u = c as u32;
    ||| 0x9 <= u <= 0xD
    ||| u == 0x20
    ||| u == 0x85
    ||| u == 0xA0
    ||| u == 0x1680
    ||| 0x2000 <= u <= 0x200A
    ||| u == 0x2028
    ||| u == 0x2029
    ||| u == 0x202F
    ||| u == 0x205F
    ||| u == 0x3000
}

pub fn is_white_space(c: char) -> (r: bool)
    ensures
        r == is_space(c),
{
    let u: u32 = c as u32;
    (0x9 <= u && u <= 0xD) || u == 0x20 || u == 0x85 || u == 0xA0 || u == 0x1680 || (0x2000 <= u
        && u <= 0x200A) || u == 0x2028 || u == 0x2029 || u == 0x202F || u == 0x205F || u == 0x3000
}

/// The text without white space at its two ends.
pub open spec fn trimmed(s: Seq<char>) -> Seq<char>
    decreases s.len(),
{
    if s.len() > 0 && is_space(s[0]) {
        trimmed(s.drop_first())
    } else if s.len() > 0 && is_space(s.last()) {
        trimmed(s.drop_last())
    } else {
        s
    }
}

pub fn trim_text(s: &str) -> (r: String)
    ensures
        r@ == trimmed(s@),
{
    let v: Vec<char> = chars_of(s);
    let mut i: usize = 0;
    let mut j: usize = v.len();
    assert(v@.subrange(0, v.len() as int) == v@);
    while i < j && is_white_space(v[i])
        invariant
            i <= j <= v.len(),
            j == v.len(),
            trimmed(s@) == trimmed(v@.subrange(i as int, j as int)),
        decreases j - i,
    {
        assert(v@.subrange(i as int, j as int).drop_first() == v@.subrange(i + 1, j as int));
        i = i + 1;
    }
    while i < j && is_white_space(v[j - 1])
        invariant
            i <= j <= v.len(),
            i < j ==> !is_space(v@[i as int]),
            trimmed(s@) == trimmed(v@.subrange(i as int, j as int)),
        decreases j - i,
    {
        assert(v@.subrange(i as int, j as int).drop_last() == v@.subrange(i as int, j - 1));
        j = j - 1;
    }
    text_of_range(&v, i, j)
}

/// The text of characters `i..j`.
pub fn text_of_range(v: &Vec<char>, i: usize, j: usize) -> (r: String)
    requires
        i <= j <= v.len(),
    ensures
        r@ == v@.subrange(i as int, j as int),
{
    let mut out: String = String::new();
    let mut k: usize = i;
    while k < j
        invariant
            i <= k <= j <= v.len(),
            out@ == v@.subrange(i as int, k as int),
        decreases j - k,
    {
        out.push(v[k]);
        k = k + 1;
    }
    out
}

/// The texts of owned strings.
pub open spec fn texts(v: Seq<String>) -> Seq<Seq<char>> {
    v.map_values(|s: String| s@)
}

/// Adds a line.
pub fn push_line(v: &mut Vec<String>, line: String)
    ensures
        texts(final(v)@) == texts(old(v)@).push(line@),
        final(v)@ == old(v)@.push(line),
{
    let ghost before = v@;
    v.push(line);
    assert(texts(v@) =~= texts(before).push(line@));
}

/// No lines.
pub fn no_lines() -> (r: Vec<String>)
    ensures
        texts(r@) == Seq::<Seq<char>>::empty(),
        r@.len() == 0,
{
    let v: Vec<String> = Vec::new();
    assert(texts(v@) =~= Seq::<Seq<char>>::empty());
    v
}

/// Two texts, one behind the other.
pub fn joined(a: &str, b: &str) -> (r: String)
    ensures
        r@ == a@ + b@,
{
    let mut s: String = String::from_str(a);
    s.append(b);
    s
}

/// Whether `n` stands in `s` at place `i`.
pub open spec fn stands_at(s: Seq<char>, n: Seq<char>, i: int) -> bool {
    0 <= i && i + n.len() <= s.len() && s.subrange(i, i + n.len()) == n
}

/// Whether `n` is part of `s`.
pub open spec fn has_part(s: Seq<char>, n: Seq<char>) -> bool {
    exists|i: int| stands_at(s, n, i)
}

fn matches_at(v: &Vec<char>, n: &Vec<char>, i: usize) -> (r: bool)
    requires
        i + n.len() <= v.len(),
    ensures
        r == stands_at(v@, n@, i as int),
{
    let mut j: usize = 0;
    while j < n.len()
        invariant
            j <= n.len(),
            i + n.len() <= v.len(),
            forall|k: int| 0 <= k < j ==> v@[i + k] == n@[k],
        decreases n.len() - j,
    {
        if v[i + j] != n[j] {
            assert(v@.subrange(i as int, i + n@.len())[j as int] != n@[j as int]);
            return false;
        }
        j = j + 1;
    }
    assert(v@.subrange(i as int, i + n@.len()) =~= n@);
    true
}

/// Whether a text is part of another.
pub fn contains(s: &str, part: &str) -> (r: bool)
    ensures
        r == has_part(s@, part@),
{
    let v: Vec<char> = chars_of(s);
    let n: Vec<char> = chars_of(part);
    if n.len() > v.len() {
        return false;
    }
    let last: usize = v.len() - n.len();
    let mut i: usize = 0;
    while i <= last
        invariant
            n.len() <= v.len(),
            last == v.len() - n.len(),
            i <= last + 1,
            v@ == s@,
            n@ == part@,
            forall|k: int| 0 <= k < i ==> !stands_at(s@, part@, k),
        decreases last + 1 - i,
    {
        if matches_at(&v, &n, i) {
            return true;
        }
        if i == last {
            assert forall|k: int| !stands_at(s@, part@, k) by {
                if 0 <= k && k + part@.len() <= s@.len() {
                    assert(k <= last);
                }
            }
            return false;
        }
        i = i + 1;
    }
    false
}

/// The text with ASCII letters in lower case.
pub open spec fn ascii_lower_text(s: Seq<char>) -> Seq<char> {
    s.map_values(|c: char| ascii_lower(c))
}

pub fn to_ascii_lower(s: &str) -> (r: String)
    ensures
        r@ == ascii_lower_text(s@),
{
    let v: Vec<char> = chars_of(s);
    let mut out: String = String::new();
    let mut i: usize = 0;
    while i < v.len()
        invariant
            i <= v.len(),
            v@ == s@,
            out@ == ascii_lower_text(s@).take(i as int),
        decreases v.len() - i,
    {
        out.push(lower_char(v[i]));
        assert(ascii_lower_text(s@).take(i + 1) =~= ascii_lower_text(s@).take(i as int).push(
            ascii_lower(s@[i as int]),
        ));
        i = i + 1;
    }
    assert(ascii_lower_text(s@).take(s@.len() as int) =~= ascii_lower_text(s@));
    out
}

/// Whether two texts agree but for the case of ASCII letters.
pub fn same_but_case(a: &str, b: &str) -> (r: bool)
    ensures
        r == (ascii_lower_text(a@) == ascii_lower_text(b@)),
{
    same_text(to_ascii_lower(a).as_str(), to_ascii_lower(b).as_str())
}

/// The text with one character in place of another.
pub open spec fn replaced(s: Seq<char>, from: char, to: char) -> Seq<char> {
    s.map_values(
        |c: char|
            if c == from {
                to
            } else {
                c
            },
    )
}

pub fn replace_char(s: &str, from: char, to: char) -> (r: String)
    ensures
        r@ == replaced(s@, from, to),
{
    let v: Vec<char> = chars_of(s);
    let mut out: String = String::new();
    let mut i: usize = 0;
    let ghost want = replaced(s@, from, to);
    while i < v.len()
        invariant
            i <= v.len(),
            v@ == s@,
            want == replaced(s@, from, to),
            out@ == want.take(i as int),
        decreases v.len() - i,
    {
        let c: char = if v[i] == from {
            to
        } else {
            v[i]
        };
        out.push(c);
        assert(want.take(i + 1) =~= want.take(i as int).push(c));
        i = i + 1;
    }
    assert(want.take(s@.len() as int) =~= want);
    out
}

/// Bytes of a character in UTF-8.
pub open spec fn char_bytes(c: char) -> nat {
    let u = c as u32;
    if u < 0x80 {
        1
    } else if u < 0x800 {
        2
    } else if u < 0x10000 {
        3
    } else {
        4
    }
}

/// Bytes of a text in UTF-8.
pub open spec fn text_bytes(s: Seq<char>) -> nat
    decreases s.len(),
{
    if s.len() == 0 {
        0
    } else {
        text_bytes(s.drop_last()) + char_bytes(s.last())
    }
}

/// The longest start of a text with at most `n` bytes.
pub open spec fn byte_prefix(s: Seq<char>, n: int) -> Seq<char>
    decreases s.len(),
{
    if s.len() == 0 || text_bytes(s) <= n {
        s
    } else {
        byte_prefix(s.drop_last(), n)
    }
}

/// The longest end of a text with at most `n` bytes.
pub open spec fn byte_suffix(s: Seq<char>, n: int) -> Seq<char>
    decreases s.len(),
{
    if s.len() == 0 || n < char_bytes(s.last()) {
        Seq::<char>::empty()
    } else {
        byte_suffix(s.drop_last(), n - char_bytes(s.last())).push(s.last())
    }
}

fn bytes_of_char(c: char) -> (r: u64)
    ensures
        r == char_bytes(c),
        1 <= r <= 4,
{
    let u: u32 = c as u32;
    if u < 0x80 {
        1
    } else if u < 0x800 {
        2
    } else if u < 0x10000 {
        3
    } else {
        4
    }
}

proof fn lemma_prefix_stop(s: Seq<char>, n: int, i: int)
    requires
        0 <= i < s.len(),
        text_bytes(s.take(i)) <= n,
        text_bytes(s.take(i + 1)) > n,
    ensures
        byte_prefix(s, n) == s.take(i),
        text_bytes(s) > n,
    decreases s.len(),
{
    if i + 1 == s.len() {
        assert(s.take(i + 1) == s);
        assert(s.drop_last() == s.take(i));
        assert(byte_prefix(s.take(i), n) == s.take(i));
    } else {
        let d = s.drop_last();
        assert(d.take(i) == s.take(i));
        assert(d.take(i + 1) == s.take(i + 1));
        lemma_prefix_stop(d, n, i);
    }
}

/// The longest start of a text with at most `n` bytes, and whether that is all of it.
pub fn cut_bytes(s: &str, n: u64) -> (r: (String, bool))
    ensures
        r.0@ == byte_prefix(s@, n as int),
        r.1 == (text_bytes(s@) <= n),
{
    let v: Vec<char> = chars_of(s);
    let mut out: String = String::new();
    let mut used: u64 = 0;
    let mut i: usize = 0;
    assert(s@.take(0) == Seq::<char>::empty());
    while i < v.len()
        invariant
            i <= v.len(),
            v@ == s@,
            out@ == s@.take(i as int),
            used == text_bytes(s@.take(i as int)),
            used <= n,
        decreases v.len() - i,
    {
        let w: u64 = bytes_of_char(v[i]);
        proof {
            assert(s@.take(i + 1).drop_last() == s@.take(i as int));
            assert(s@.take(i + 1).last() == s@[i as int]);
        }
        if w > n - used {
            proof {
                lemma_prefix_stop(s@, n as int, i as int);
            }
            return (out, false);
        }
        used = used + w;
        out.push(v[i]);
        i = i + 1;
    }
    assert(s@.take(s@.len() as int) == s@);
    (out, true)
}

proof fn lemma_suffix_step(s: Seq<char>, n: int, i: int, left: int)
    requires
        0 <= i <= s.len(),
        byte_suffix(s, n) == byte_suffix(s.take(i), left) + s.skip(i),
    ensures
        i == 0 || left < char_bytes(s[i - 1]) ==> byte_suffix(s, n) == s.skip(i),
        i > 0 && left >= char_bytes(s[i - 1]) ==> byte_suffix(s, n) == byte_suffix(
            s.take(i - 1),
            left - char_bytes(s[i - 1]),
        ) + s.skip(i - 1),
{
    let t = s.take(i);
    assert(Seq::<char>::empty() + s.skip(i) == s.skip(i));
    if i > 0 {
        assert(t.last() == s[i - 1]);
        assert(t.drop_last() == s.take(i - 1));
        if left >= char_bytes(s[i - 1]) {
            let b = byte_suffix(s.take(i - 1), left - char_bytes(s[i - 1]));
            assert(b.push(s[i - 1]) + s.skip(i) == b + s.skip(i - 1));
        }
    }
}

/// The longest end of a text with at most `n` bytes.
pub fn tail_bytes(s: &str, n: u64) -> (r: String)
    ensures
        r@ == byte_suffix(s@, n as int),
{
    let v: Vec<char> = chars_of(s);
    let mut left: u64 = n;
    let mut i: usize = v.len();
    proof {
        assert(s@.take(s@.len() as int) == s@);
        assert(byte_suffix(s@, n as int) + s@.skip(s@.len() as int) == byte_suffix(s@, n as int));
    }
    while i > 0
        invariant
            i <= v.len(),
            v@ == s@,
            byte_suffix(s@, n as int) == byte_suffix(s@.take(i as int), left as int) + s@.skip(
                i as int,
            ),
        decreases i,
    {
        let w: u64 = bytes_of_char(v[i - 1]);
        proof {
            lemma_suffix_step(s@, n as int, i as int, left as int);
        }
        if left < w {
            assert(v@.subrange(i as int, v.len() as int) =~= s@.skip(i as int));
            return text_of_range(&v, i, v.len());
        }
        left = left - w;
        i = i - 1;
    }
    proof {
        lemma_suffix_step(s@, n as int, 0, left as int);
        assert(v@.subrange(0, v.len() as int) =~= s@.skip(0));
    }
    text_of_range(&v, 0, v.len())
}

/// The place of the first `mark`; the length where there is none.
pub open spec fn first_place(s: Seq<char>, mark: char) -> nat
    decreases s.len(),
{
    if s.len() == 0 || s[0] == mark {
        0
    } else {
        1 + first_place(s.drop_first(), mark)
    }
}

pub proof fn lemma_first_place(s: Seq<char>, mark: char, i: int)
    requires
        0 <= i <= s.len(),
        forall|j: int| 0 <= j < i ==> s[j] != mark,
        i < s.len() ==> s[i] == mark,
    ensures
        first_place(s, mark) == i,
    decreases s.len(),
{
    if i > 0 {
        assert(s[0] != mark);
        let d = s.drop_first();
        assert forall|j: int| 0 <= j < i - 1 implies d[j] != mark by {
            assert(d[j] == s[j + 1]);
        }
        lemma_first_place(d, mark, i - 1);
    }
}

/// The pieces of a text between marks.
pub open spec fn pieces(s: Seq<char>, mark: char) -> Seq<Seq<char>>
    decreases s.len(),
{
    let i = first_place(s, mark) as int;
    if i >= s.len() {
        seq![s]
    } else {
        seq![s.take(i)] + pieces(s.skip(i + 1), mark)
    }
}

proof fn lemma_first_place_bound(s: Seq<char>, mark: char)
    ensures
        0 <= first_place(s, mark) <= s.len(),
        first_place(s, mark) < s.len() ==> s[first_place(s, mark) as int] == mark,
    decreases s.len(),
{
    if s.len() > 0 && s[0] != mark {
        lemma_first_place_bound(s.drop_first(), mark);
    }
}

/// The place of the first `mark` from `from` on; the end where there is none.
pub fn find_from(v: &Vec<char>, from: usize, mark: char) -> (r: usize)
    requires
        from <= v.len(),
    ensures
        from <= r <= v.len(),
        r - from == first_place(v@.skip(from as int), mark),
        r < v.len() ==> v@[r as int] == mark,
{
    let mut i: usize = from;
    while i < v.len() && v[i] != mark
        invariant
            from <= i <= v.len(),
            forall|j: int| from <= j < i ==> v@[j] != mark,
        decreases v.len() - i,
    {
        i = i + 1;
    }
    proof {
        let s = v@.skip(from as int);
        assert forall|j: int| 0 <= j < i - from implies s[j] != mark by {
            assert(s[j] == v@[j + from]);
        }
        lemma_first_place(s, mark, i - from);
    }
    i
}

/// The pieces of a text between marks.
pub fn split_text(s: &str, mark: char) -> (r: Vec<String>)
    ensures
        texts(r@) == pieces(s@, mark),
{
    let v: Vec<char> = chars_of(s);
    let mut out: Vec<String> = no_lines();
    let mut from: usize = 0;
    assert(v@.skip(0) == v@);
    assert(Seq::<Seq<char>>::empty() + pieces(s@, mark) == pieces(s@, mark));
    loop
        invariant
            from <= v.len(),
            v@ == s@,
            texts(out@) + pieces(v@.skip(from as int), mark) == pieces(s@, mark),
        decreases v.len() - from,
    {
        let i: usize = find_from(&v, from, mark);
        let ghost rest = v@.skip(from as int);
        let ghost before = texts(out@);
        proof {
            lemma_first_place_bound(rest, mark);
            assert(v@.subrange(from as int, i as int) == rest.take(i - from));
        }
        let piece: String = text_of_range(&v, from, i);
        push_line(&mut out, piece);
        if i == v.len() {
            proof {
                assert(rest.take(i - from) == rest);
                assert(texts(out@) =~= before + pieces(rest, mark));
            }
            return out;
        }
        proof {
            assert(rest.skip(i - from + 1) == v@.skip(i + 1));
            assert(before.push(rest.take(i - from)) + pieces(v@.skip(i + 1), mark) =~= before + (
            seq![rest.take(i - from)] + pieces(rest.skip(i - from + 1), mark)));
        }
        from = i + 1;
    }
}

/// A template with each `{}` replaced by the next value.
pub open spec fn filled(template: Seq<char>, values: Seq<Seq<char>>) -> Seq<char>
    decreases template.len(),
{
    if template.len() == 0 {
        Seq::<char>::empty()
    } else if template.len() >= 2 && template[0] == '{' && template[1] == '}' && values.len() > 0 {
        values[0] + filled(template.skip(2), values.skip(1))
    } else {
        seq![template[0]] + filled(template.skip(1), values)
    }
}

/// A template with each `{}` replaced by the next value.
pub fn fill(template: &str, values: &[&str]) -> (r: String)
    ensures
        r@ == filled(template@, views(values@)),
{
    let t: Vec<char> = chars_of(template);
    let mut out: String = String::new();
    let mut i: usize = 0;
    let mut k: usize = 0;
    let ghost all = views(values@);
    proof {
        assert(t@.skip(0) == t@);
        assert(all.skip(0) == all);
        assert(out@ + filled(t@, all) == filled(t@, all));
    }
    while i < t.len()
        invariant
            i <= t.len(),
            k <= values.len(),
            all == views(values@),
            out@ + filled(t@.skip(i as int), all.skip(k as int)) == filled(t@, all),
        decreases t.len() - i,
    {
        let ghost rest = t@.skip(i as int);
        let ghost left = all.skip(k as int);
        let ghost before = out@;
        if i + 1 < t.len() && t[i] == '{' && t[i + 1] == '}' && k < values.len() {
            out.append(values[k]);
            proof {
                assert(rest.skip(2) == t@.skip(i + 2));
                assert(left.skip(1) == all.skip(k + 1));
                assert(left[0] == values@[k as int]@);
                assert(out@ + filled(rest.skip(2), left.skip(1)) =~= before + filled(rest, left));
            }
            i = i + 2;
            k = k + 1;
        } else {
            out.push(t[i]);
            proof {
                assert(rest.skip(1) == t@.skip(i + 1));
                assert(rest[0] == t@[i as int]);
                assert(out@ + filled(rest.skip(1), left) =~= before + filled(rest, left));
            }
            i = i + 1;
        }
    }
    proof {
        assert(t@.skip(i as int).len() == 0);
        assert(out@ + Seq::<char>::empty() == out@);
    }
    out
}

/// The texts of borrowed strings.
pub open spec fn views(v: Seq<&str>) -> Seq<Seq<char>> {
    v.map_values(|s: &str| s@)
}

/// A template with one place.
pub fn fill1(template: &str, a: &str) -> (r: String)
    ensures
        r@ == filled(template@, seq![a@]),
{
    let v: [&str; 1] = [a];
    assert(views(v@) =~= seq![a@]);
    fill(template, &v)
}

/// A template with two places.
pub fn fill2(template: &str, a: &str, b: &str) -> (r: String)
    ensures
        r@ == filled(template@, seq![a@, b@]),
{
    let v: [&str; 2] = [a, b];
    assert(views(v@) =~= seq![a@, b@]);
    fill(template, &v)
}

/// A template with three places.
pub fn fill3(template: &str, a: &str, b: &str, c: &str) -> (r: String)
    ensures
        r@ == filled(template@, seq![a@, b@, c@]),
{
    let v: [&str; 3] = [a, b, c];
    assert(views(v@) =~= seq![a@, b@, c@]);
    fill(template, &v)
}

/// A template with four places.
pub fn fill4(template: &str, a: &str, b: &str, c: &str, d: &str) -> (r: String)
    ensures
        r@ == filled(template@, seq![a@, b@, c@, d@]),
{
    let v: [&str; 4] = [a, b, c, d];
    assert(views(v@) =~= seq![a@, b@, c@, d@]);
    fill(template, &v)
}

/// A template with five places.
pub fn fill5(template: &str, a: &str, b: &str, c: &str, d: &str, e: &str) -> (r: String)
    ensures
        r@ == filled(template@, seq![a@, b@, c@, d@, e@]),
{
    let v: [&str; 5] = [a, b, c, d, e];
    assert(views(v@) =~= seq![a@, b@, c@, d@, e@]);
    fill(template, &v)
}

/// A template with six places.
pub fn fill6(template: &str, a: &str, b: &str, c: &str, d: &str, e: &str, f: &str) -> (r: String)
    ensures
        r@ == filled(template@, seq![a@, b@, c@, d@, e@, f@]),
{
    let v: [&str; 6] = [a, b, c, d, e, f];
    assert(views(v@) =~= seq![a@, b@, c@, d@, e@, f@]);
    fill(template, &v)
}

/// Texts with a separator between them.
pub open spec fn strung(parts: Seq<Seq<char>>, sep: Seq<char>) -> Seq<char>
    decreases parts.len(),
{
    if parts.len() == 0 {
        Seq::<char>::empty()
    } else if parts.len() == 1 {
        parts[0]
    } else {
        strung(parts.drop_last(), sep) + sep + parts.last()
    }
}

/// Texts with a separator between them.
pub fn join_texts(parts: &[String], sep: &str) -> (r: String)
    ensures
        r@ == strung(texts(parts@), sep@),
{
    let mut out: String = String::new();
    let mut i: usize = 0;
    assert(texts(parts@).take(0) == Seq::<Seq<char>>::empty());
    while i < parts.len()
        invariant
            i <= parts.len(),
            out@ == strung(texts(parts@).take(i as int), sep@),
        decreases parts.len() - i,
    {
        let ghost now = texts(parts@).take(i + 1);
        assert(now.drop_last() == texts(parts@).take(i as int));
        assert(now.last() == parts@[i as int]@);
        if i > 0 {
            out.append(sep);
        }
        out.append(parts[i].as_str());
        assert(out@ =~= strung(now, sep@));
        i = i + 1;
    }
    assert(texts(parts@).take(i as int) == texts(parts@));
    out
}

/// The place behind the last `mark`; zero where there is none.
pub open spec fn last_place(s: Seq<char>, mark: char) -> nat
    decreases s.len(),
{
    if s.len() == 0 || s.last() == mark {
        s.len()
    } else {
        last_place(s.drop_last(), mark)
    }
}

/// The place behind the last `mark`; zero where there is none.
pub fn find_last(v: &Vec<char>, mark: char) -> (r: usize)
    ensures
        r == last_place(v@, mark),
        r <= v.len(),
        r > 0 ==> v@[r - 1] == mark,
{
    let mut i: usize = v.len();
    assert(v@.take(i as int) == v@);
    while i > 0 && v[i - 1] != mark
        invariant
            i <= v.len(),
            last_place(v@, mark) == last_place(v@.take(i as int), mark),
        decreases i,
    {
        assert(v@.take(i as int).drop_last() == v@.take(i - 1));
        assert(v@.take(i as int).last() == v@[i - 1]);
        i = i - 1;
    }
    i
}

/// The first place from `i` on where `n` stands in `s`; none where it does not.
pub open spec fn part_place(s: Seq<char>, n: Seq<char>, i: int) -> Option<int>
    decreases s.len() + 1 - i,
{
    if i + n.len() > s.len() {
        None
    } else if stands_at(s, n, i) {
        Some(i)
    } else {
        part_place(s, n, i + 1)
    }
}

/// The first place from `from` on where `n` stands in `v`.
pub fn find_part(v: &Vec<char>, n: &Vec<char>, from: usize) -> (r: Option<usize>)
    requires
        from <= v.len(),
    ensures
        match (r, part_place(v@, n@, from as int)) {
            (Some(a), Some(b)) => a == b && from <= a && a + n@.len() <= v@.len(),
            (None, None) => true,
            _ => false,
        },
{
    let mut i: usize = from;
    while i <= v.len() && n.len() <= v.len() - i
        invariant
            from <= i <= v.len(),
            part_place(v@, n@, from as int) == part_place(v@, n@, i as int),
        decreases v.len() - i,
    {
        if matches_at(v, n, i) {
            return Some(i);
        }
        if i == v.len() {
            assert(part_place(v@, n@, i + 1) is None);
            return None;
        }
        i = i + 1;
    }
    None
}

} // verus!
