//! Colours, padding and clock texts of the terminal dashboard.
use crate::number_format::{int_text, int_text_of};
use crate::text::{
    chars_of, cut, cut_text, fill3, filled, joined, replace_char, replaced, same_text,
    text_of_range,
};
use crate::time::{div_toward_zero, rem_toward_zero, rfc3339_of, rfc3339_text, trunc_div, trunc_rem};
use vstd::prelude::*;

verus! {

/// Characters that take a place on the screen: those outside escape sequences, each of
/// which runs from an escape character to the next `m`.
pub open spec fn shown(s: Seq<char>, in_esc: bool) -> nat
    decreases s.len(),
{
    if s.len() == 0 {
        0
    } else if s[0] == '\x1b' {
        shown(s.skip(1), true)
    } else if in_esc {
        shown(s.skip(1), s[0] != 'm')
    } else {
        1 + shown(s.skip(1), false)
    }
}

/// Whether a text ends within an escape sequence.
pub open spec fn open_escape(s: Seq<char>, in_esc: bool) -> bool
    decreases s.len(),
{
    if s.len() == 0 {
        in_esc
    } else if s[0] == '\x1b' {
        open_escape(s.skip(1), true)
    } else if in_esc {
        open_escape(s.skip(1), s[0] != 'm')
    } else {
        open_escape(s.skip(1), false)
    }
}

pub fn visible_len(s: &str) -> (r: usize)
    ensures
        r == shown(s@, false),
{
    let v: Vec<char> = chars_of(s);
    let mut len: usize = 0;
    let mut in_esc: bool = false;
    let mut i: usize = 0;
    assert(v@.skip(0) == v@);
    while i < v.len()
        invariant
            i <= v.len(),
            len <= i,
            len + shown(v@.skip(i as int), in_esc) == shown(v@, false),
        decreases v.len() - i,
    {
        let c: char = v[i];
        assert(v@.skip(i as int)[0] == c);
        assert(v@.skip(i as int).skip(1) == v@.skip(i + 1));
        if c == '\x1b' {
            in_esc = true;
        } else if in_esc {
            if c == 'm' {
                in_esc = false;
            }
        } else {
            len = len + 1;
        }
        i = i + 1;
    }
    len
}

/// So many spaces.
pub open spec fn spaces(n: nat) -> Seq<char> {
    Seq::new(n, |i: int| ' ')
}

/// A text with spaces behind it up to a visible width.
pub open spec fn padded(s: Seq<char>, width: int) -> Seq<char> {
    if shown(s, false) >= width {
        s
    } else {
        s + spaces((width - shown(s, false)) as nat)
    }
}

pub fn pad_right(s: &str, width: usize) -> (r: String)
    ensures
        r@ == padded(s@, width as int),
{
    let vis: usize = visible_len(s);
    let mut out: String = s.to_owned();
    if vis < width {
        let mut n: usize = 0;
        while n < width - vis
            invariant
                vis < width,
                n <= width - vis,
                out@ == s@ + spaces(n as nat),
            decreases width - vis - n,
        {
            out.push(' ');
            n = n + 1;
            assert(out@ =~= s@ + spaces(n as nat));
        }
    }
    out
}

/// The escape sequence of a tone.
pub open spec fn tone_code(tone: Seq<char>) -> Seq<char> {
    if tone == "bold"@ {
        "\x1b[1;38;5;252m"@
    } else if tone == "dim"@ {
        "\x1b[38;5;245m"@
    } else if tone == "green"@ {
        "\x1b[38;5;114m"@
    } else if tone == "red"@ {
        "\x1b[38;5;174m"@
    } else if tone == "yellow"@ {
        "\x1b[38;5;179m"@
    } else if tone == "cyan"@ {
        "\x1b[38;5;81m"@
    } else if tone == "magenta"@ {
        "\x1b[38;5;198m"@
    } else {
        Seq::<char>::empty()
    }
}

/// A text in a tone, with the reset behind it.
pub open spec fn painted(value: Seq<char>, tone: Seq<char>) -> Seq<char> {
    tone_code(tone) + value + "\x1b[0m"@
}

pub fn paint(value: &str, tone: &str) -> (r: String)
    ensures
        r@ == painted(value@, tone@),
{
    let mut out: String = if same_text(tone, "bold") {
        String::from_str("\x1b[1;38;5;252m")
    } else if same_text(tone, "dim") {
        String::from_str("\x1b[38;5;245m")
    } else if same_text(tone, "green") {
        String::from_str("\x1b[38;5;114m")
    } else if same_text(tone, "red") {
        String::from_str("\x1b[38;5;174m")
    } else if same_text(tone, "yellow") {
        String::from_str("\x1b[38;5;179m")
    } else if same_text(tone, "cyan") {
        String::from_str("\x1b[38;5;81m")
    } else if same_text(tone, "magenta") {
        String::from_str("\x1b[38;5;198m")
    } else {
        String::new()
    };
    out.append(value);
    out.append("\x1b[0m");
    out
}

/// A number in at least two places, zeros in front.
pub open spec fn two_places(n: int) -> Seq<char> {
    if 0 <= n < 10 {
        "0"@ + int_text_of(n)
    } else {
        int_text_of(n)
    }
}

fn two_digits(n: i64) -> (r: String)
    ensures
        r@ == two_places(n as int),
{
    let t: String = int_text(n);
    if 0 <= n && n < 10 {
        joined("0", t.as_str())
    } else {
        t
    }
}

/// Hours, minutes and seconds of a span in milliseconds.
pub open spec fn runtime_text(ms: int) -> Seq<char> {
    let total = trunc_div(ms, 1000);
    filled(
        "{}:{}:{}"@,
        seq![
            two_places(trunc_div(total, 3600)),
            two_places(trunc_div(trunc_rem(total, 3600), 60)),
            two_places(trunc_rem(total, 60)),
        ],
    )
}

pub fn format_runtime(ms: i64) -> (r: String)
    ensures
        r@ == runtime_text(ms as int),
{
    let total_sec: i64 = div_toward_zero(ms, 1000);
    let h: String = two_digits(div_toward_zero(total_sec, 3600));
    let m: String = two_digits(div_toward_zero(rem_toward_zero(total_sec, 3600), 60));
    let s: String = two_digits(rem_toward_zero(total_sec, 60));
    fill3("{}:{}:{}", h.as_str(), m.as_str(), s.as_str())
}

/// Minutes and seconds left; zero for what is over.
pub open spec fn countdown_text(secs: int) -> Seq<char> {
    if secs < 0 {
        "00:00"@
    } else {
        two_places(secs / 60) + ":"@ + two_places(secs % 60)
    }
}

pub fn format_countdown(secs: i64) -> (r: String)
    ensures
        r@ == countdown_text(secs as int),
{
    if secs < 0 {
        return "00:00".to_owned();
    }
    let mut out: String = two_digits(secs / 60);
    out.append(":");
    let s: String = two_digits(secs % 60);
    out.append(s.as_str());
    out
}

/// The RFC 3339 text of a moment in milliseconds. A moment before the epoch that is no
/// whole second has none.
pub open spec fn moment_text(ms: int) -> Option<Seq<char>> {
    rfc3339_of(trunc_div(ms, 1000) as i64, (trunc_rem(ms, 1000) * 1_000_000) as u32)
}

fn moment(ms: i64) -> (r: Option<String>)
    ensures
        match (r, moment_text(ms as int)) {
            (Some(t), Some(s)) => t@ == s,
            (None, None) => true,
            _ => false,
        },
{
    let s: i64 = div_toward_zero(ms, 1000);
    let ns: i64 = rem_toward_zero(ms, 1000) * 1_000_000;
    rfc3339_text(s, ns as u32)
}

/// Date and time of an RFC 3339 text, with a space between them.
pub open spec fn date_and_time(t: Seq<char>) -> Seq<char> {
    replaced(cut(t, 19), 'T', ' ')
}

pub fn date_time(t: &str) -> (r: String)
    ensures
        r@ == date_and_time(t@),
{
    let head: String = cut_text(t, 19);
    replace_char(head.as_str(), 'T', ' ')
}

/// Date and time of a moment, or that there is none.
pub open spec fn utc_of(text: Option<Seq<char>>) -> Seq<char> {
    match text {
        Some(t) => date_and_time(t),
        None => "N/A"@,
    }
}

pub fn format_utc(ms: i64) -> (r: String)
    ensures
        r@ == utc_of(moment_text(ms as int)),
{
    match moment(ms) {
        Some(t) => date_time(t.as_str()),
        None => "N/A".to_owned(),
    }
}

/// The time of day of an RFC 3339 text.
pub open spec fn time_of_day(t: Seq<char>) -> Seq<char> {
    if t.len() <= 11 {
        Seq::<char>::empty()
    } else {
        cut(t.skip(11), 8)
    }
}

pub fn day_time(t: &str) -> (r: String)
    ensures
        r@ == time_of_day(t@),
{
    let v: Vec<char> = chars_of(t);
    if v.len() <= 11 {
        return String::new();
    }
    let end: usize = if v.len() - 11 <= 8 {
        v.len()
    } else {
        19
    };
    assert(v@.subrange(11, end as int) =~= time_of_day(t@));
    text_of_range(&v, 11, end)
}

/// The time of day of a moment, or that there is none.
pub open spec fn clock_of(text: Option<Seq<char>>) -> Seq<char> {
    match text {
        Some(t) => time_of_day(t),
        None => "N/A"@,
    }
}

pub fn format_timestamp(ms: i64) -> (r: String)
    ensures
        r@ == clock_of(moment_text(ms as int)),
{
    match moment(ms) {
        Some(t) => day_time(t.as_str()),
        None => "N/A".to_owned(),
    }
}

proof fn lemma_shown_concat(a: Seq<char>, b: Seq<char>, in_esc: bool)
    ensures
        shown(a + b, in_esc) == shown(a, in_esc) + shown(b, open_escape(a, in_esc)),
        open_escape(a + b, in_esc) == open_escape(b, open_escape(a, in_esc)),
    decreases a.len(),
{
    if a.len() == 0 {
        assert(a + b == b);
    } else {
        assert((a + b).skip(1) == a.skip(1) + b);
        assert((a + b)[0] == a[0]);
        if a[0] == '\x1b' {
            lemma_shown_concat(a.skip(1), b, true);
        } else if in_esc {
            lemma_shown_concat(a.skip(1), b, a[0] != 'm');
        } else {
            lemma_shown_concat(a.skip(1), b, false);
        }
    }
}

proof fn lemma_spaces(n: nat)
    ensures
        shown(spaces(n), false) == n,
        !open_escape(spaces(n), false),
    decreases n,
{
    if n > 0 {
        assert(spaces(n).skip(1) == spaces((n - 1) as nat));
        lemma_spaces((n - 1) as nat);
    }
}

/// Padding brings a text that ends outside an escape sequence to the width, and leaves a
/// wider one as it is.
pub proof fn law_padding_reaches_width(s: Seq<char>, width: nat)
    requires
        !open_escape(s, false),
    ensures
        shown(padded(s, width as int), false) == if shown(s, false) >= width {
            shown(s, false)
        } else {
            width
        },
{
    if shown(s, false) < width {
        let n = (width - shown(s, false)) as nat;
        lemma_shown_concat(s, spaces(n), false);
        lemma_spaces(n);
    }
}

/// Paint takes no place on the screen.
pub proof fn law_paint_is_invisible(value: Seq<char>, tone: Seq<char>)
    requires
        !open_escape(value, false),
    ensures
        shown(painted(value, tone), false) == shown(value, false),
        !open_escape(painted(value, tone), false),
{
    reveal_strlit("\x1b[1;38;5;252m");
    reveal_strlit("\x1b[38;5;245m");
    reveal_strlit("\x1b[38;5;114m");
    reveal_strlit("\x1b[38;5;174m");
    reveal_strlit("\x1b[38;5;179m");
    reveal_strlit("\x1b[38;5;81m");
    reveal_strlit("\x1b[38;5;198m");
    reveal_strlit("\x1b[0m");
    reveal_with_fuel(shown, 16);
    reveal_with_fuel(open_escape, 16);
    let code = tone_code(tone);
    let reset = "\x1b[0m"@;
    assert(shown(code, false) == 0 && !open_escape(code, false));
    assert(shown(reset, false) == 0 && !open_escape(reset, false));
    lemma_shown_concat(code, value, false);
    lemma_shown_concat(code + value, reset, false);
}

} // verus!
