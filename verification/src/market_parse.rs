//! Reading markets from the listing service's documents.
use crate::asset_price::{strike_ceiling, strike_floor, strike_max, strike_min};
use crate::client::{text_at, MarketWindow, TokenInfo, TokensMap};
use crate::json::{
    contents_of, document_of, hold_items, json_text_of, read_value, take_contents, value_entry,
    value_items, value_text, Json,
};
use crate::num::Num;
use crate::number_format::{int_text, int_text_of};
use crate::number_text::{int_of_text, is_ascii_digit, is_digit, num_of_text, parse_int, parse_num};
use crate::text::{
    after_last, chars_of, comes_before, lemma_text_order, lowercase, same_text, string_of,
    strip_char, stripped, tail_after, text_before, texts, to_lowercase, to_uppercase, uppercase,
};
use crate::time::{
    div_toward_zero, four_digit_year, rfc3339_millis, rfc3339_millis_of, rfc3339_of, rfc3339_text,
    trunc_div,
};
use vstd::prelude::*;
use vstd::string::*;

verus! {

/// A scan for strikes in a question: the digits at hand, whether a dollar sign came
/// before them, whether they have a point, and the numbers found so far with their
/// dollar signs.
pub struct Scan {
    pub current: Seq<char>,
    pub dollar: bool,
    pub decimal: bool,
    pub found: Seq<(Num, bool)>,
}

/// The scan after the digits at hand are taken as a number.
pub open spec fn flushed(s: Scan) -> Scan {
    Scan {
        current: Seq::<char>::empty(),
        dollar: false,
        decimal: false,
        found: match num_of_text(s.current) {
            Some(x) => s.found.push((x, s.dollar)),
            None => s.found,
        },
    }
}

/// The scan after one character. A dollar sign counts only directly before a digit. Commas
/// inside a number are skipped; a point belongs to it where a digit follows and no point
/// came before.
pub open spec fn scan_char(s: Scan, c: char, digit_next: bool) -> Scan {
    if c == '$' {
        Scan { current: Seq::<char>::empty(), dollar: true, ..s }
    } else if is_digit(c) {
        Scan { current: s.current.push(c), ..s }
    } else if s.current.len() == 0 {
        Scan { dollar: false, ..s }
    } else if c == ',' {
        s
    } else if c == '.' && !s.decimal && digit_next {
        Scan { current: s.current.push('.'), decimal: true, ..s }
    } else {
        flushed(s)
    }
}

pub open spec fn scan_from(text: Seq<char>, i: int, s: Scan) -> Scan
    decreases text.len() - i,
{
    if 0 <= i < text.len() {
        scan_from(
            text,
            i + 1,
            scan_char(s, text[i], i + 1 < text.len() && is_digit(text[i + 1])),
        )
    } else if s.current.len() > 0 {
        flushed(s)
    } else {
        s
    }
}

pub open spec fn scan_start() -> Scan {
    Scan {
        current: Seq::<char>::empty(),
        dollar: false,
        decimal: false,
        found: Seq::<(Num, bool)>::empty(),
    }
}

/// The first number with a dollar sign between the bounds.
pub open spec fn first_strike(found: Seq<(Num, bool)>, lo: Num, hi: Num) -> Option<Num>
    decreases found.len(),
{
    if found.len() == 0 {
        None
    } else if found[0].1 && found[0].0.ge(lo) && found[0].0.le(hi) {
        Some(found[0].0)
    } else {
        first_strike(found.drop_first(), lo, hi)
    }
}

/// The strike that a question names: only numbers with a dollar sign count, and only in
/// the asset's range.
pub open spec fn strike_in(text: Seq<char>, asset: Seq<char>) -> Option<Num> {
    let a = uppercase(uppercase(asset));
    first_strike(scan_from(text, 0, scan_start()).found, strike_floor(a), strike_ceiling(a))
}

fn flush_number(current: &mut Vec<char>, dollar: bool, found: &mut Vec<(Num, bool)>)
    ensures
        final(current)@ == Seq::<char>::empty(),
        final(found)@ == match num_of_text(old(current)@) {
            Some(x) => old(found)@.push((x, dollar)),
            None => old(found)@,
        },
{
    let text: String = string_of(current);
    match parse_num(text.as_str()) {
        Some(x) => {
            found.push((x, dollar));
        },
        None => {},
    }
    current.clear();
}

fn scan_text(text: &str) -> (r: Vec<(Num, bool)>)
    ensures
        r@ == scan_from(text@, 0, scan_start()).found,
{
    let chars: Vec<char> = chars_of(text);
    let mut found: Vec<(Num, bool)> = Vec::new();
    let mut current: Vec<char> = Vec::new();
    let mut dollar: bool = false;
    let mut decimal: bool = false;
    let mut i: usize = 0;
    let ghost end = scan_from(text@, 0, scan_start());
    while i < chars.len()
        invariant
            i <= chars.len(),
            chars@ == text@,
            end == scan_from(
                text@,
                i as int,
                Scan { current: current@, dollar, decimal, found: found@ },
            ),
        decreases chars.len() - i,
    {
        let c: char = chars[i];
        let digit_next: bool = i + 1 < chars.len() && is_ascii_digit(chars[i + 1]);
        if c == '$' {
            dollar = true;
            current.clear();
        } else if is_ascii_digit(c) {
            current.push(c);
        } else if current.len() == 0 {
            dollar = false;
        } else if c == ',' {
        } else if c == '.' && !decimal && digit_next {
            current.push('.');
            decimal = true;
        } else {
            flush_number(&mut current, dollar, &mut found);
            dollar = false;
            decimal = false;
        }
        i = i + 1;
    }
    if current.len() > 0 {
        flush_number(&mut current, dollar, &mut found);
    }
    found
}

pub fn parse_strike_from_text(text: &str, asset: &str) -> (r: Option<Num>)
    ensures
        r == strike_in(text@, asset@),
{
    let found: Vec<(Num, bool)> = scan_text(text);
    let asset_upper: String = to_uppercase(asset);
    let lo: Num = strike_min(asset_upper.as_str());
    let hi: Num = strike_max(asset_upper.as_str());
    let mut i: usize = 0;
    assert(found@.skip(0) == found@);
    while i < found.len()
        invariant
            i <= found.len(),
            strike_in(text@, asset@) == first_strike(found@, lo, hi),
            first_strike(found@, lo, hi) == first_strike(found@.skip(i as int), lo, hi),
        decreases found.len() - i,
    {
        assert(found@.skip(i as int)[0] == found@[i as int]);
        if found[i].1 && found[i].0.ge(lo) && found[i].0.le(hi) {
            return Some(found[i].0);
        }
        assert(found@.skip(i as int).drop_first() == found@.skip(i + 1));
        i = i + 1;
    }
    None
}

/// Seconds of one window of an interval.
pub open spec fn bucket_of(interval: Seq<char>) -> int {
    if interval == "15m"@ {
        900
    } else {
        300
    }
}

pub fn bucket_secs(interval: &str) -> (r: i64)
    ensures
        r == bucket_of(interval@),
        r == 300 || r == 900,
{
    if same_text(interval, "15m") {
        900
    } else {
        300
    }
}

/// The time stamp at the end of a slug, in seconds; zero where there is none.
pub open spec fn slug_stamp(slug: Seq<char>) -> i64 {
    match int_of_text(after_last(slug, '-')) {
        Some(t) => t,
        None => 0,
    }
}

/// Start and end of a window in milliseconds: from the slug's time stamp, else from the
/// listing's dates. A stamp too large to count in milliseconds gives none.
pub open spec fn window_times(m: Json, slug: Seq<char>, bucket: int) -> Option<(int, int)> {
    let stamp = slug_stamp(slug);
    if stamp > 1_000_000_000 {
        if stamp <= 9_000_000_000_000_000 {
            Some((stamp * 1000, stamp * 1000 + bucket * 1000))
        } else {
            None
        }
    } else {
        match m.str_at("startDate"@) {
            Some(d) => match rfc3339_millis_of(d) {
                Some(s) => Some((s as int, end_time(m, s, bucket))),
                None => None,
            },
            None => None,
        }
    }
}

pub open spec fn end_time(m: Json, start: i64, bucket: int) -> int {
    match m.str_at("endDate"@) {
        Some(d) => match rfc3339_millis_of(d) {
            Some(e) => e as int,
            None => start + bucket * 1000,
        },
        None => start + bucket * 1000,
    }
}

fn times_of(m: &Json, slug: &str, bucket: i64) -> (r: Option<(i64, i64)>)
    requires
        bucket == 300 || bucket == 900,
    ensures
        match (r, window_times(*m, slug@, bucket as int)) {
            (Some(a), Some(b)) => a.0 == b.0 && a.1 == b.1,
            (None, None) => true,
            _ => false,
        },
{
    let stamp: i64 = match parse_int(tail_after(slug, '-').as_str()) {
        Some(t) => t,
        None => 0,
    };
    if stamp > 1_000_000_000 {
        if stamp <= 9_000_000_000_000_000 {
            let s: i64 = stamp * 1000;
            return Some((s, s + bucket * 1000));
        }
        return None;
    }
    let start: i64 = match m.get_str("startDate") {
        Some(d) => match rfc3339_millis(d) {
            Some(s) => s,
            None => {
                return None;
            },
        },
        None => {
            return None;
        },
    };
    let end: i64 = match m.get_str("endDate") {
        Some(d) => match rfc3339_millis(d) {
            Some(e) => e,
            None => start + bucket * 1000,
        },
        None => start + bucket * 1000,
    };
    Some((start, end))
}

/// The strings that a JSON text lists; none where it is no list of strings.
pub uninterp spec fn string_list_of(s: Seq<char>) -> Option<Seq<Seq<char>>>;

/// Calls `serde_json::from_str` for a list of strings. The list is a function of the
/// text.
#[verifier::external_body]
pub(crate) fn parse_string_list(s: &str) -> (r: Option<Vec<String>>)
    ensures
        match (r, string_list_of(s@)) {
            (Some(v), Some(w)) => texts(v@) == w,
            (None, None) => true,
            _ => false,
        },
{
    serde_json::from_str::<Vec<String>>(s).ok()
}

/// The texts among the items.
pub open spec fn texts_among(items: Seq<Json>) -> Seq<Seq<char>>
    decreases items.len(),
{
    if items.len() == 0 {
        Seq::<Seq<char>>::empty()
    } else {
        match items.last() {
            Json::Str(s) => texts_among(items.drop_last()).push(s@),
            _ => texts_among(items.drop_last()),
        }
    }
}

/// A list of texts: an array, or a text that holds one.
pub open spec fn list_at(m: Json, key: Seq<char>) -> Option<Seq<Seq<char>>> {
    match m.spec_get(key) {
        Some(Json::Array(items)) => Some(texts_among(items@)),
        Some(Json::Str(s)) => string_list_of(s@),
        _ => None,
    }
}

fn list_of(m: &Json, key: &str) -> (r: Option<Vec<String>>)
    ensures
        match (r, list_at(*m, key@)) {
            (Some(v), Some(w)) => texts(v@) == w,
            (None, None) => true,
            _ => false,
        },
{
    match m.get(key) {
        Some(Json::Array(items)) => {
            let mut out: Vec<String> = Vec::new();
            let mut i: usize = 0;
            proof {
                assert(items@.take(0) == Seq::<Json>::empty());
                assert(texts(out@) =~= Seq::<Seq<char>>::empty());
            }
            while i < items.len()
                invariant
                    i <= items.len(),
                    texts(out@) == texts_among(items@.take(i as int)),
                decreases items.len() - i,
            {
                proof {
                    assert(items@.take(i + 1).drop_last() == items@.take(i as int));
                    assert(items@.take(i + 1).last() == items@[i as int]);
                }
                match &items[i] {
                    Json::Str(s) => {
                        let ghost before = out@;
                        let t: String = s.as_str().to_owned();
                        out.push(t);
                        assert(texts(out@) =~= texts(before).push(s@));
                    },
                    _ => {},
                }
                i = i + 1;
            }
            assert(items@.take(items.len() as int) == items@);
            Some(out)
        },
        Some(Json::Str(s)) => parse_string_list(s.as_str()),
        _ => None,
    }
}

/// The place of the first label that is one of two words in lower case.
pub open spec fn label_place(labels: Seq<Seq<char>>, a: Seq<char>, b: Seq<char>) -> Option<int>
    decreases labels.len(),
{
    if labels.len() == 0 {
        None
    } else if lowercase(labels[0]) == a || lowercase(labels[0]) == b {
        Some(0)
    } else {
        match label_place(labels.drop_first(), a, b) {
            Some(i) => Some(i + 1),
            None => None,
        }
    }
}

fn find_label(labels: &Vec<String>, a: &str, b: &str) -> (r: Option<usize>)
    ensures
        match (r, label_place(texts(labels@), a@, b@)) {
            (Some(i), Some(j)) => i == j && i < labels.len(),
            (None, None) => true,
            _ => false,
        },
{
    let ghost all = texts(labels@);
    let mut i: usize = 0;
    assert(all.skip(0) == all);
    while i < labels.len()
        invariant
            i <= labels.len(),
            all == texts(labels@),
            label_place(all, a@, b@) == match label_place(all.skip(i as int), a@, b@) {
                Some(j) => Some(j + i),
                None => None,
            },
        decreases labels.len() - i,
    {
        let l: String = to_lowercase(labels[i].as_str());
        assert(all.skip(i as int)[0] == labels@[i as int]@);
        if same_text(l.as_str(), a) || same_text(l.as_str(), b) {
            return Some(i);
        }
        assert(all.skip(i as int).drop_first() == all.skip(i + 1));
        i = i + 1;
    }
    None
}

/// The price to beat in the listing's event data.
pub open spec fn listed_ptb(m: Json) -> Option<Num> {
    match m.items_at("events"@) {
        Some(events) => if events.len() > 0 {
            match events[0].spec_get("eventMetadata"@) {
                Some(meta) => match meta.spec_get("priceToBeat"@) {
                    Some(Json::Number(x, _, _)) => x,
                    Some(Json::Str(s)) => num_of_text(s@),
                    _ => None,
                },
                None => None,
            }
        } else {
            None
        },
        None => None,
    }
}

fn ptb_from_events(m: &Json) -> (r: Option<Num>)
    ensures
        r == listed_ptb(*m),
{
    match m.get_items("events") {
        Some(events) => if events.len() > 0 {
            match events[0].get("eventMetadata") {
                Some(meta) => match meta.get("priceToBeat") {
                    Some(Json::Number(x, _, _)) => *x,
                    Some(Json::Str(s)) => parse_num(s.as_str()),
                    _ => None,
                },
                None => None,
            }
        } else {
            None
        },
        None => None,
    }
}

/// A market as plain values.
pub struct MarketView {
    pub id: Seq<char>,
    pub slug: Seq<char>,
    pub question: Seq<char>,
    pub asset: Seq<char>,
    pub interval: Seq<char>,
    pub start_time: Seq<char>,
    pub end_time: Seq<char>,
    pub price_to_beat: Option<Num>,
    pub up_id: Seq<char>,
    pub up_name: Seq<char>,
    pub down_id: Seq<char>,
    pub down_name: Seq<char>,
}

impl View for MarketWindow {
    type V = MarketView;

    open spec fn view(&self) -> MarketView {
        MarketView {
            id: self.id@,
            slug: self.slug@,
            question: self.question@,
            asset: self.asset@,
            interval: self.interval@,
            start_time: self.start_time@,
            end_time: self.end_time@,
            price_to_beat: self.price_to_beat,
            up_id: self.tokens.up.token_id@,
            up_name: self.tokens.up.outcome_name@,
            down_id: self.tokens.down.token_id@,
            down_name: self.tokens.down.outcome_name@,
        }
    }
}

/// The two token ids of a listing, UP and DOWN, by its outcome labels.
pub open spec fn token_pair(ids: Seq<Seq<char>>, labels: Seq<Seq<char>>) -> Option<
    (Seq<char>, Seq<char>),
> {
    let up = match label_place(labels, "up"@, "yes"@) {
        Some(i) => i,
        None => 0,
    };
    let down = match label_place(labels, "down"@, "no"@) {
        Some(i) => i,
        None => if up == 0 {
            1
        } else {
            0
        },
    };
    if ids.len() >= 2 && up < ids.len() && down < ids.len() {
        Some((ids[up], ids[down]))
    } else {
        None
    }
}

/// The market that a listing describes. `id_text` is its `id` entry as JSON text.
pub open spec fn market_with_id(
    m: Json,
    id_text: Option<Seq<char>>,
    asset: Seq<char>,
    interval: Seq<char>,
) -> Option<MarketView> {
    let slug = text_at(m, "slug"@);
    let question = text_at(m, "question"@);
    let times = window_times(m, slug, bucket_of(interval));
    let ids = list_at(m, "clobTokenIds"@);
    let labels = list_at(m, "outcomes"@);
    if m.str_at("slug"@) is None || id_text is None || times is None || ids is None || labels is None
        || token_pair(ids->0, labels->0) is None {
        None
    } else {
        let (start_ms, end_ms) = times->0;
        let (up_id, down_id) = token_pair(ids->0, labels->0)->0;
        let start = rfc3339_of(trunc_div(start_ms, 1000) as i64, 0);
        let end = rfc3339_of(trunc_div(end_ms, 1000) as i64, 0);
        if start is None || end is None {
            None
        } else {
            Some(
                MarketView {
                    id: stripped(id_text->0, '"'),
                    slug,
                    question,
                    asset,
                    interval,
                    start_time: start->0,
                    end_time: end->0,
                    price_to_beat: match listed_ptb(m) {
                        Some(p) => Some(p),
                        None => strike_in(question, asset),
                    },
                    up_id,
                    up_name: "Up"@,
                    down_id,
                    down_name: "Down"@,
                },
            )
        }
    }
}

/// The market that a listing describes.
pub open spec fn market_of(m: Json, asset: Seq<char>, interval: Seq<char>) -> Option<MarketView> {
    market_with_id(
        m,
        match m.spec_get("id"@) {
            Some(id) => Some(json_text_of(id)),
            None => None,
        },
        asset,
        interval,
    )
}

/// Whether `r` is the market `v`, or neither is there.
pub open spec fn is_market(r: Option<MarketWindow>, v: Option<MarketView>) -> bool {
    match (r, v) {
        (Some(a), Some(b)) => a@ == b,
        (None, None) => true,
        _ => false,
    }
}

/// Whether a written time reads back as the moment it was written for, to the second.
/// Years beyond 9999 are not written in RFC 3339.
pub open spec fn reads_back(text: Seq<char>, ms: int) -> bool {
    four_digit_year(trunc_div(ms, 1000)) ==> rfc3339_millis_of(text) == Some(
        (trunc_div(ms, 1000) * 1000) as i64,
    )
}

/// The market that a listing shows under an id. Its times read back as the window's start
/// and end.
pub fn market_from(m: &Json, id_text: Option<&str>, asset: &str, interval: &str) -> (r: Option<
    MarketWindow,
>)
    ensures
        is_market(
            r,
            market_with_id(
                *m,
                match id_text {
                    Some(t) => Some(t@),
                    None => None,
                },
                asset@,
                interval@,
            ),
        ),
        r matches Some(w) ==> {
            let times = window_times(*m, w.slug@, bucket_of(interval@))->0;
            reads_back(w.start_time@, times.0) && reads_back(w.end_time@, times.1)
        },
{
    let slug: &str = match m.get_str("slug") {
        Some(s) => s,
        None => {
            return None;
        },
    };
    let bucket: i64 = bucket_secs(interval);
    let (start_ms, end_ms): (i64, i64) = match times_of(m, slug, bucket) {
        Some(t) => t,
        None => {
            return None;
        },
    };
    let ids: Vec<String> = match list_of(m, "clobTokenIds") {
        Some(v) => v,
        None => {
            return None;
        },
    };
    let labels: Vec<String> = match list_of(m, "outcomes") {
        Some(v) => v,
        None => {
            return None;
        },
    };
    let id: &str = match id_text {
        Some(t) => t,
        None => {
            return None;
        },
    };
    proof {
        assert(texts(ids@).len() == ids@.len());
        assert(texts(labels@).len() == labels@.len());
    }
    if ids.len() < 2 {
        return None;
    }
    let up_index: usize = match find_label(&labels, "up", "yes") {
        Some(i) => i,
        None => 0,
    };
    let dn_index: usize = match find_label(&labels, "down", "no") {
        Some(i) => i,
        None => if up_index == 0 {
            1
        } else {
            0
        },
    };
    if up_index >= ids.len() || dn_index >= ids.len() {
        return None;
    }
    assert(texts(ids@)[up_index as int] == ids@[up_index as int]@);
    assert(texts(ids@)[dn_index as int] == ids@[dn_index as int]@);
    let question: &str = match m.get_str("question") {
        Some(q) => q,
        None => "",
    };
    proof {
        reveal_strlit("");
        assert(""@ =~= Seq::<char>::empty());
    }
    let price_to_beat: Option<Num> = match ptb_from_events(m) {
        Some(p) => Some(p),
        None => parse_strike_from_text(question, asset),
    };
    let start_time: String = match rfc3339_text(div_toward_zero(start_ms, 1000), 0) {
        Some(t) => t,
        None => {
            return None;
        },
    };
    let end_time: String = match rfc3339_text(div_toward_zero(end_ms, 1000), 0) {
        Some(t) => t,
        None => {
            return None;
        },
    };
    Some(
        MarketWindow {
            id: strip_char(id, '"'),
            slug: slug.to_owned(),
            question: question.to_owned(),
            asset: asset.to_owned(),
            interval: interval.to_owned(),
            start_time,
            end_time,
            price_to_beat,
            tokens: TokensMap {
                up: TokenInfo {
                    token_id: ids[up_index].as_str().to_owned(),
                    outcome_name: "Up".to_owned(),
                },
                down: TokenInfo {
                    token_id: ids[dn_index].as_str().to_owned(),
                    outcome_name: "Down".to_owned(),
                },
            },
        },
    )
}

/// Slug prefix of an asset's windows.
pub open spec fn slug_prefix_of(asset: Seq<char>, interval: Seq<char>) -> Seq<char> {
    lowercase(asset) + "-updown-"@ + interval
}

pub fn slug_prefix(asset: &str, interval: &str) -> (r: String)
    ensures
        r@ == slug_prefix_of(asset@, interval@),
{
    to_lowercase(asset).concat("-updown-").concat(interval)
}

/// The slug of the window `k` buckets from the one that holds `now_ms`.
pub open spec fn slug_at(asset: Seq<char>, interval: Seq<char>, now_ms: i64, k: int) -> Seq<char> {
    let bucket = bucket_of(interval);
    let now_sec = trunc_div(now_ms as int, 1000);
    slug_prefix_of(asset, interval) + "-"@ + int_text_of(
        trunc_div(now_sec, bucket) * bucket + k * bucket,
    )
}

/// The slugs to ask for: the window before the current one, the current one and the six
/// after it.
pub fn candidate_slugs(asset: &str, interval: &str, now_ms: i64) -> (r: Vec<String>)
    ensures
        r@.len() == 8,
        forall|i: int| 0 <= i < 8 ==> (#[trigger] r@[i])@ == slug_at(asset@, interval@, now_ms, i - 1),
{
    let prefix: String = slug_prefix(asset, interval);
    let bucket: i64 = bucket_secs(interval);
    let now_sec: i64 = div_toward_zero(now_ms, 1000);
    let q: i64 = div_toward_zero(now_sec, bucket);
    proof {
        let m = if now_sec >= 0 { now_sec as int } else { -now_sec };
        assert(0 <= m / (bucket as int) && (m / (bucket as int)) * bucket <= m) by (nonlinear_arith)
            requires
                m >= 0,
                bucket > 0,
        ;
        assert((-(m / (bucket as int))) * bucket == -((m / (bucket as int)) * bucket))
            by (nonlinear_arith);
        assert(-9_223_372_036_854_776 <= now_sec <= 9_223_372_036_854_776) by {
            lemma_thousandth(now_ms as int);
        }
    }
    let current: i64 = q * bucket;
    let mut out: Vec<String> = Vec::new();
    let mut i: i64 = 0;
    while i < 8
        invariant
            0 <= i <= 8,
            out@.len() == i,
            bucket == bucket_of(interval@),
            bucket == 300 || bucket == 900,
            -9_223_372_036_854_776 <= current <= 9_223_372_036_854_776,
            current == trunc_div(trunc_div(now_ms as int, 1000), bucket as int) * bucket,
            prefix@ == slug_prefix_of(asset@, interval@),
            forall|j: int| 0 <= j < i ==> (#[trigger] out@[j])@ == slug_at(
                asset@,
                interval@,
                now_ms,
                j - 1,
            ),
        decreases 8 - i,
    {
        assert((i - 1) * bucket == if bucket == 300 { 300 * (i - 1) } else { 900 * (i - 1) });
        let target: i64 = current + (i - 1) * bucket;
        let mut slug: String = prefix.as_str().to_owned();
        slug.append("-");
        slug.append(int_text(target).as_str());
        out.push(slug);
        i = i + 1;
    }
    out
}

proof fn lemma_thousandth(a: int)
    requires
        i64::MIN <= a <= i64::MAX,
    ensures
        -9_223_372_036_854_776 <= trunc_div(a, 1000) <= 9_223_372_036_854_776,
{
}

/// The market that a listing shows.
fn parse_market(m: serde_json::Value, asset: &str, interval: &str) -> (r: Option<MarketWindow>)
    ensures
        is_market(r, market_of(contents_of(m), asset@, interval@)),
{
    match value_entry(&m, "id") {
        Some(id) => {
            let id_text: String = value_text(id);
            market_from(&take_contents(m), Some(id_text.as_str()), asset, interval)
        },
        None => market_from(&take_contents(m), None, asset, interval),
    }
}

/// The listing in a slug's answer: the first item of an array, or the document.
pub open spec fn shown_listing(answer: Json) -> Option<Json> {
    match answer {
        Json::Array(items) => if items@.len() > 0 {
            Some(items@[0])
        } else {
            None
        },
        _ => Some(answer),
    }
}

/// The market that the answer for a slug shows, alone or first in a list.
pub fn listed_market(text: &str, asset: &str, interval: &str) -> (r: Option<MarketWindow>)
    ensures
        is_market(
            r,
            match document_of(text@) {
                Some(answer) => match shown_listing(answer) {
                    Some(m) => market_of(m, asset@, interval@),
                    None => None,
                },
                None => None,
            },
        ),
{
    let answer: serde_json::Value = match read_value(text) {
        Ok(v) => v,
        Err(_) => {
            return None;
        },
    };
    match value_items(answer) {
        Ok(values) => {
            let mut values: Vec<serde_json::Value> = values;
            if values.len() == 0 {
                return None;
            }
            let first: serde_json::Value = values.remove(0);
            parse_market(first, asset, interval)
        },
        Err(m) => parse_market(m, asset, interval),
    }
}

/// The markets that listings describe, in their order; a listing that describes none is
/// left out.
pub open spec fn markets_of(items: Seq<Json>, asset: Seq<char>, interval: Seq<char>) -> Seq<
    MarketView,
>
    decreases items.len(),
{
    if items.len() == 0 {
        Seq::<MarketView>::empty()
    } else {
        let rest = markets_of(items.drop_last(), asset, interval);
        match market_of(items.last(), asset, interval) {
            Some(m) => rest.push(m),
            None => rest,
        }
    }
}

/// The markets as plain values.
pub open spec fn market_views(v: Seq<MarketWindow>) -> Seq<MarketView> {
    Seq::new(v.len(), |i: int| v[i]@)
}

/// The markets in the answer of a search; none where it is no list.
pub fn searched_markets(text: &str, asset: &str, interval: &str) -> (r: Vec<MarketWindow>)
    ensures
        market_views(r@) == match document_of(text@) {
            Some(Json::Array(items)) => markets_of(items@, asset@, interval@),
            _ => Seq::<MarketView>::empty(),
        },
{
    let mut out: Vec<MarketWindow> = Vec::new();
    assert(market_views(out@) =~= Seq::<MarketView>::empty());
    let answer: serde_json::Value = match read_value(text) {
        Ok(v) => v,
        Err(_) => {
            return out;
        },
    };
    let mut rest: Vec<serde_json::Value> = match value_items(answer) {
        Ok(values) => values,
        Err(_) => {
            return out;
        },
    };
    let ghost all = rest@;
    let ghost items = (document_of(text@)->0)->Array_0@;
    assert(hold_items(all, items));
    assert(items.take(0) =~= Seq::<Json>::empty());
    while rest.len() > 0
        invariant
            hold_items(all, items),
            rest@.len() <= all.len(),
            rest@ == all.skip(all.len() - rest@.len()),
            market_views(out@) == markets_of(items.take(all.len() - rest@.len()), asset@, interval@),
        decreases rest.len(),
    {
        let ghost k = all.len() - rest@.len();
        let ghost before = out@;
        let m: serde_json::Value = rest.remove(0);
        proof {
            assert(m == all[k]);
            assert(rest@ =~= all.skip(k + 1));
            assert(items.take(k + 1).drop_last() =~= items.take(k));
            assert(items.take(k + 1).last() == items[k]);
        }
        match parse_market(m, asset, interval) {
            Some(w) => {
                out.push(w);
                assert(market_views(out@) =~= market_views(before).push(w@));
            },
            None => {},
        }
    }
    assert(items.take(all.len() as int) =~= items);
    out
}

/// The sort key of a market: its start time, or its slug.
pub open spec fn market_key(m: MarketWindow, by_start: bool) -> Seq<char> {
    if by_start {
        m.start_time@
    } else {
        m.slug@
    }
}

/// `v` with `x` behind all that do not come after it.
pub open spec fn put_market(v: Seq<MarketWindow>, x: MarketWindow, by_start: bool) -> Seq<
    MarketWindow,
>
    decreases v.len(),
{
    if v.len() == 0 || !text_before(market_key(x, by_start), market_key(v.last(), by_start)) {
        v.push(x)
    } else {
        put_market(v.drop_last(), x, by_start).push(v.last())
    }
}

/// The markets sorted by a key, each behind the earlier ones of its key.
pub open spec fn sorted_markets(v: Seq<MarketWindow>, by_start: bool) -> Seq<MarketWindow>
    decreases v.len(),
{
    if v.len() == 0 {
        v
    } else {
        put_market(sorted_markets(v.drop_last(), by_start), v.last(), by_start)
    }
}

/// The first market of each run of equal slugs.
pub open spec fn dedup_markets(v: Seq<MarketWindow>) -> Seq<MarketWindow>
    decreases v.len(),
{
    if v.len() == 0 {
        v
    } else {
        let rest = dedup_markets(v.drop_last());
        if rest.len() > 0 && rest.last().slug@ == v.last().slug@ {
            rest
        } else {
            rest.push(v.last())
        }
    }
}

proof fn lemma_put_market_at(v: Seq<MarketWindow>, x: MarketWindow, by_start: bool, i: int)
    requires
        0 <= i <= v.len(),
        i > 0 ==> !text_before(market_key(x, by_start), market_key(v[i - 1], by_start)),
        forall|j: int|
            i <= j < v.len() ==> text_before(
                market_key(x, by_start),
                market_key(#[trigger] v[j], by_start),
            ),
    ensures
        put_market(v, x, by_start) == v.insert(i, x),
    decreases v.len(),
{
    if i == v.len() {
        assert(v.insert(i, x) == v.push(x));
    } else {
        let d = v.drop_last();
        assert(text_before(market_key(x, by_start), market_key(v[v.len() - 1], by_start)));
        assert forall|j: int| i <= j < d.len() implies text_before(
            market_key(x, by_start),
            market_key(#[trigger] d[j], by_start),
        ) by {
            assert(d[j] == v[j]);
        }
        lemma_put_market_at(d, x, by_start, i);
        assert(d.insert(i, x).push(v.last()) == v.insert(i, x));
    }
}

fn key_of_market(m: &MarketWindow, by_start: bool) -> (r: &str)
    ensures
        r@ == market_key(*m, by_start),
{
    if by_start {
        m.start_time.as_str()
    } else {
        m.slug.as_str()
    }
}

fn sort_markets(markets: Vec<MarketWindow>, by_start: bool) -> (r: Vec<MarketWindow>)
    ensures
        r@ == sorted_markets(markets@, by_start),
{
    let mut rest: Vec<MarketWindow> = markets;
    let mut out: Vec<MarketWindow> = Vec::new();
    let ghost all = markets@;
    assert(all.take(0) == Seq::<MarketWindow>::empty());
    assert(all.skip(0) == all);
    while rest.len() > 0
        invariant
            rest@ == all.skip(all.len() - rest@.len()),
            rest@.len() <= all.len(),
            out@ == sorted_markets(all.take(all.len() - rest@.len()), by_start),
        decreases rest.len(),
    {
        let ghost k = all.len() - rest@.len();
        let x: MarketWindow = rest.remove(0);
        proof {
            assert(x == all[k]);
            assert(rest@ == all.skip(k + 1));
            assert(all.take(k + 1).drop_last() == all.take(k));
            assert(all.take(k + 1).last() == x);
        }
        let ghost before = out@;
        let mut i: usize = out.len();
        while i > 0 && comes_before(key_of_market(&x, by_start), key_of_market(
            &out[i - 1],
            by_start,
        ))
            invariant
                i <= out.len(),
                out@ == before,
                forall|j: int|
                    i <= j < out.len() ==> text_before(
                        market_key(x, by_start),
                        market_key(#[trigger] out@[j], by_start),
                    ),
            decreases i,
        {
            i = i - 1;
        }
        proof {
            lemma_put_market_at(before, x, by_start, i as int);
        }
        out.insert(i, x);
    }
    assert(all.take(all.len() as int) == all);
    out
}

fn drop_repeats(markets: Vec<MarketWindow>) -> (r: Vec<MarketWindow>)
    ensures
        r@ == dedup_markets(markets@),
{
    let mut rest: Vec<MarketWindow> = markets;
    let mut out: Vec<MarketWindow> = Vec::new();
    let ghost all = markets@;
    assert(all.take(0) == Seq::<MarketWindow>::empty());
    assert(all.skip(0) == all);
    while rest.len() > 0
        invariant
            rest@ == all.skip(all.len() - rest@.len()),
            rest@.len() <= all.len(),
            out@ == dedup_markets(all.take(all.len() - rest@.len())),
        decreases rest.len(),
    {
        let ghost k = all.len() - rest@.len();
        let x: MarketWindow = rest.remove(0);
        proof {
            assert(x == all[k]);
            assert(rest@ == all.skip(k + 1));
            assert(all.take(k + 1).drop_last() == all.take(k));
            assert(all.take(k + 1).last() == x);
        }
        let repeat: bool = out.len() > 0 && same_text(
            out[out.len() - 1].slug.as_str(),
            x.slug.as_str(),
        );
        if !repeat {
            out.push(x);
        }
    }
    assert(all.take(all.len() as int) == all);
    out
}

/// Whether no market comes before one in front of it.
pub open spec fn in_order(v: Seq<MarketWindow>, by_start: bool) -> bool {
    forall|i: int, j: int|
        0 <= i < j < v.len() ==> !text_before(
            market_key(#[trigger] v[j], by_start),
            market_key(#[trigger] v[i], by_start),
        )
}

/// Whether no two markets share a slug.
pub open spec fn distinct_slugs(v: Seq<MarketWindow>) -> bool {
    forall|i: int, j: int|
        0 <= i < j < v.len() ==> (#[trigger] v[i]).slug@ != (#[trigger] v[j]).slug@
}

/// Whether some market has a slug.
pub open spec fn has_slug(v: Seq<MarketWindow>, slug: Seq<char>) -> bool {
    exists|i: int| 0 <= i < v.len() && (#[trigger] v[i]).slug@ == slug
}

/// Where a market goes among sorted ones.
proof fn lemma_put_place(v: Seq<MarketWindow>, x: MarketWindow, by_start: bool) -> (i: int)
    requires
        in_order(v, by_start),
    ensures
        0 <= i <= v.len(),
        put_market(v, x, by_start) == v.insert(i, x),
        in_order(put_market(v, x, by_start), by_start),
    decreases v.len(),
{
    if v.len() == 0 || !text_before(market_key(x, by_start), market_key(v.last(), by_start)) {
        assert(v.push(x) == v.insert(v.len() as int, x));
        let r = v.push(x);
        assert forall|p: int, q: int| 0 <= p < q < r.len() implies !text_before(
            market_key(#[trigger] r[q], by_start),
            market_key(#[trigger] r[p], by_start),
        ) by {
            if q == v.len() {
                let (kp, kl) = (market_key(v[p], by_start), market_key(v.last(), by_start));
                if p < v.len() - 1 {
                    assert(!text_before(market_key(v[v.len() - 1], by_start), kp));
                }
                lemma_text_order(kp, kl, market_key(x, by_start));
                lemma_text_order(market_key(x, by_start), kp, kl);
                lemma_text_order(kl, kp, kp);
            } else {
                assert(r[q] == v[q] && r[p] == v[p]);
            }
        }
        v.len() as int
    } else {
        let d = v.drop_last();
        assert forall|p: int, q: int| 0 <= p < q < d.len() implies !text_before(
            market_key(#[trigger] d[q], by_start),
            market_key(#[trigger] d[p], by_start),
        ) by {
            assert(d[q] == v[q] && d[p] == v[p]);
        }
        let i = lemma_put_place(d, x, by_start);
        let front = put_market(d, x, by_start);
        let r = front.push(v.last());
        assert(d.insert(i, x).push(v.last()) == v.insert(i, x));
        assert forall|p: int, q: int| 0 <= p < q < r.len() implies !text_before(
            market_key(#[trigger] r[q], by_start),
            market_key(#[trigger] r[p], by_start),
        ) by {
            if q == front.len() {
                if p == i {
                    assert(r[p] == x);
                    lemma_text_order(
                        market_key(x, by_start),
                        market_key(v.last(), by_start),
                        market_key(x, by_start),
                    );
                } else {
                    let o = if p < i { p } else { p - 1 };
                    assert(r[p] == v[o]);
                    assert(!text_before(
                        market_key(v[v.len() - 1], by_start),
                        market_key(v[o], by_start),
                    ));
                }
            } else {
                assert(r[q] == front[q] && r[p] == front[p]);
            }
        }
        i
    }
}

/// Sorting puts markets in order and keeps them all.
proof fn lemma_sorted_markets(v: Seq<MarketWindow>, by_start: bool)
    ensures
        in_order(sorted_markets(v, by_start), by_start),
        sorted_markets(v, by_start).to_multiset() == v.to_multiset(),
    decreases v.len(),
{
    if v.len() > 0 {
        let d = v.drop_last();
        let x = v.last();
        lemma_sorted_markets(d, by_start);
        let s = sorted_markets(d, by_start);
        let i = lemma_put_place(s, x, by_start);
        assert(v == d.push(x));
        d.to_multiset_ensures();
        s.to_multiset_ensures();
        let a = s.subrange(0, i);
        let b = s.subrange(i, s.len() as int);
        assert(s == a + b);
        assert(s.insert(i, x) == a.push(x) + b);
        vstd::seq_lib::lemma_multiset_commutative(a.push(x), b);
        vstd::seq_lib::lemma_multiset_commutative(a, b);
        a.to_multiset_ensures();
        assert(s.insert(i, x).to_multiset() =~= s.to_multiset().insert(x));
    }
}

/// Two lists with the same markets have the same members.
proof fn lemma_same_members(a: Seq<MarketWindow>, b: Seq<MarketWindow>)
    requires
        a.to_multiset() == b.to_multiset(),
    ensures
        a.len() == b.len(),
        forall|m: MarketWindow| a.contains(m) <==> b.contains(m),
{
    a.to_multiset_ensures();
    b.to_multiset_ensures();
    assert forall|m: MarketWindow| a.contains(m) <==> b.contains(m) by {
        assert(a.contains(m) <==> a.to_multiset().count(m) > 0);
        assert(b.contains(m) <==> b.to_multiset().count(m) > 0);
    }
}

/// Of sorted markets the first of each slug stays, and only it.
proof fn lemma_dedup(v: Seq<MarketWindow>)
    requires
        in_order(v, false),
    ensures
        forall|i: int, j: int|
            0 <= i < j < dedup_markets(v).len() ==> text_before(
                (#[trigger] dedup_markets(v)[i]).slug@,
                (#[trigger] dedup_markets(v)[j]).slug@,
            ),
        v.len() > 0 ==> dedup_markets(v).len() > 0 && dedup_markets(v).last().slug@
            == v.last().slug@,
        forall|i: int| 0 <= i < v.len() ==> has_slug(dedup_markets(v), (#[trigger] v[i]).slug@),
        forall|i: int| 0 <= i < dedup_markets(v).len() ==> v.contains(#[trigger] dedup_markets(v)[i]),
    decreases v.len(),
{
    if v.len() > 0 {
        let d = v.drop_last();
        let x = v.last();
        assert forall|p: int, q: int| 0 <= p < q < d.len() implies !text_before(
            market_key(#[trigger] d[q], false),
            market_key(#[trigger] d[p], false),
        ) by {
            assert(d[q] == v[q] && d[p] == v[p]);
        }
        lemma_dedup(d);
        let rest = dedup_markets(d);
        let r = dedup_markets(v);
        if d.len() > 0 {
            assert(!text_before(
                market_key(v[v.len() - 1], false),
                market_key(v[d.len() - 1], false),
            ));
            lemma_text_order(rest.last().slug@, x.slug@, x.slug@);
        }
        assert forall|i: int, j: int| 0 <= i < j < r.len() implies text_before(
            (#[trigger] r[i]).slug@,
            (#[trigger] r[j]).slug@,
        ) by {
            if j == rest.len() {
                lemma_text_order(rest[i].slug@, rest.last().slug@, x.slug@);
                assert(rest.last() == rest[rest.len() - 1]);
            } else {
                assert(r[i] == rest[i] && r[j] == rest[j]);
            }
        }
        assert forall|i: int| 0 <= i < v.len() implies has_slug(r, (#[trigger] v[i]).slug@) by {
            if i < d.len() {
                assert(has_slug(rest, d[i].slug@));
                let k = choose|k: int| 0 <= k < rest.len() && (#[trigger] rest[k]).slug@ == d[i].slug@;
                assert(r[k] == rest[k]);
            } else {
                assert(r[r.len() - 1].slug@ == x.slug@);
            }
        }
        assert forall|i: int| 0 <= i < r.len() implies v.contains(#[trigger] r[i]) by {
            if i < rest.len() {
                assert(r[i] == rest[i]);
                let k = choose|k: int| 0 <= k < d.len() && d[k] == rest[i];
                assert(v[k] == r[i]);
            } else {
                assert(r[i] == v[v.len() - 1]);
            }
        }
    }
}

/// A list with the same markets as one without repeated slugs has none either.
proof fn lemma_distinct_kept(a: Seq<MarketWindow>, b: Seq<MarketWindow>)
    requires
        distinct_slugs(a),
        a.to_multiset() == b.to_multiset(),
    ensures
        distinct_slugs(b),
{
    lemma_same_members(a, b);
    a.to_multiset_ensures();
    b.to_multiset_ensures();
    assert(a.no_duplicates());
    a.lemma_multiset_has_no_duplicates();
    assert(b.no_duplicates()) by {
        b.lemma_multiset_has_no_duplicates_conv();
    }
    assert forall|i: int, j: int| 0 <= i < j < b.len() implies (#[trigger] b[i]).slug@ != (
    #[trigger] b[j]).slug@ by {
        assert(b.contains(b[i]) && b.contains(b[j]));
        assert(a.contains(b[i]) && a.contains(b[j]));
        let p = choose|p: int| 0 <= p < a.len() && a[p] == b[i];
        let q = choose|q: int| 0 <= q < a.len() && a[q] == b[j];
        if p < q {
            assert(a[p].slug@ != a[q].slug@);
        } else if q < p {
            assert(a[q].slug@ != a[p].slug@);
        }
    }
}

/// The markets without repeated slugs, by their start times. Each slug stays once, with
/// the first market that had it.
pub fn order_markets(markets: Vec<MarketWindow>) -> (r: Vec<MarketWindow>)
    ensures
        r@ == ordered(markets@),
        in_order(r@, true),
        distinct_slugs(r@),
        forall|i: int| 0 <= i < r@.len() ==> markets@.contains(#[trigger] r@[i]),
        forall|i: int| 0 <= i < markets@.len() ==> has_slug(r@, (#[trigger] markets@[i]).slug@),
{
    proof {
        let a = sorted_markets(markets@, false);
        let b = dedup_markets(a);
        let c = sorted_markets(b, true);
        lemma_sorted_markets(markets@, false);
        lemma_same_members(a, markets@);
        lemma_dedup(a);
        lemma_sorted_markets(b, true);
        lemma_same_members(c, b);
        assert(distinct_slugs(b)) by {
            assert forall|i: int, j: int| 0 <= i < j < b.len() implies (#[trigger] b[i]).slug@ != (
            #[trigger] b[j]).slug@ by {
                lemma_text_order(b[i].slug@, b[j].slug@, b[j].slug@);
            }
        }
        lemma_distinct_kept(b, c);
        assert forall|i: int| 0 <= i < c.len() implies markets@.contains(#[trigger] c[i]) by {
            assert(c.contains(c[i]));
            assert(b.contains(c[i]));
            let k = choose|k: int| 0 <= k < b.len() && b[k] == c[i];
            assert(a.contains(b[k]));
        }
        assert forall|i: int| 0 <= i < markets@.len() implies has_slug(
            c,
            (#[trigger] markets@[i]).slug@,
        ) by {
            assert(markets@.contains(markets@[i]));
            assert(a.contains(markets@[i]));
            let k = choose|k: int| 0 <= k < a.len() && a[k] == markets@[i];
            assert(has_slug(b, a[k].slug@));
            let q = choose|q: int| 0 <= q < b.len() && (#[trigger] b[q]).slug@ == a[k].slug@;
            assert(b.contains(b[q]));
            assert(c.contains(b[q]));
            let t = choose|t: int| 0 <= t < c.len() && c[t] == b[q];
            assert(c[t].slug@ == markets@[i].slug@);
        }
    }
    sort_markets(drop_repeats(sort_markets(markets, false)), true)
}

/// Markets without repeated slugs, by their start times.
pub open spec fn ordered(markets: Seq<MarketWindow>) -> Seq<MarketWindow> {
    sorted_markets(dedup_markets(sorted_markets(markets, false)), true)
}

/// What follows the listing of the windows around now.
#[derive(Debug)]
pub enum Upcoming {
    /// The markets, in order.
    Found(Vec<MarketWindow>),
    /// None is listed: the exchange is searched for this part of a slug.
    Search(String),
}

/// The markets that were listed, in order, or what to search for where there is none.
pub fn after_listing(listed: Vec<MarketWindow>, asset: &str, interval: &str) -> (r: Upcoming)
    ensures
        match r {
            Upcoming::Found(markets) => listed@.len() > 0 && markets@ == ordered(listed@),
            Upcoming::Search(part) => listed@.len() == 0 && part@ == slug_prefix_of(
                asset@,
                interval@,
            ),
        },
{
    if listed.len() == 0 {
        Upcoming::Search(slug_prefix(asset, interval))
    } else {
        Upcoming::Found(order_markets(listed))
    }
}

pub open spec fn spec_is_open(start_ms: Option<i64>, end_ms: Option<i64>, now_ms: i64) -> bool {
    start_ms is Some && end_ms is Some && start_ms->0 <= now_ms < end_ms->0
}

/// Whether a window with these times is under way.
#[verifier::when_used_as_spec(spec_is_open)]
pub fn is_open(start_ms: Option<i64>, end_ms: Option<i64>, now_ms: i64) -> (r: bool)
    ensures
        r == spec_is_open(start_ms, end_ms, now_ms),
{
    match (start_ms, end_ms) {
        (Some(s), Some(e)) => s <= now_ms && now_ms < e,
        _ => false,
    }
}

pub open spec fn market_is_open(m: MarketWindow, now_ms: i64) -> bool {
    is_open(rfc3339_millis_of(m.start_time@), rfc3339_millis_of(m.end_time@), now_ms)
}

/// The first market that is under way.
pub fn active_market(markets: &Vec<MarketWindow>, now_ms: i64) -> (r: Option<usize>)
    ensures
        match r {
            Some(i) => i < markets@.len() && market_is_open(markets@[i as int], now_ms) && forall|
                j: int,
            |
                0 <= j < i ==> !market_is_open(#[trigger] markets@[j], now_ms),
            None => forall|j: int|
                0 <= j < markets@.len() ==> !market_is_open(#[trigger] markets@[j], now_ms),
        },
{
    let mut i: usize = 0;
    while i < markets.len()
        invariant
            i <= markets.len(),
            forall|j: int| 0 <= j < i ==> !market_is_open(#[trigger] markets@[j], now_ms),
        decreases markets.len() - i,
    {
        let start: Option<i64> = rfc3339_millis(markets[i].start_time.as_str());
        let end: Option<i64> = rfc3339_millis(markets[i].end_time.as_str());
        if is_open(start, end, now_ms) {
            return Some(i);
        }
        i = i + 1;
    }
    None
}

/// Whether a slug is among those to leave out.
pub open spec fn excluded(slug: Seq<char>, out: Seq<String>) -> bool {
    exists|i: int| 0 <= i < out.len() && (#[trigger] out[i])@ == slug
}

fn is_excluded(slug: &str, out: &[String]) -> (r: bool)
    ensures
        r == excluded(slug@, out@),
{
    let mut i: usize = 0;
    while i < out.len()
        invariant
            i <= out.len(),
            forall|j: int| 0 <= j < i ==> (#[trigger] out@[j])@ != slug@,
        decreases out.len() - i,
    {
        if same_text(out[i].as_str(), slug) {
            assert(out@[i as int]@ == slug@);
            return true;
        }
        i = i + 1;
    }
    false
}

/// Whether a market starts after a moment and is not left out.
pub open spec fn starts_after(m: MarketWindow, after_ms: i64, out: Seq<String>) -> bool {
    rfc3339_millis_of(m.start_time@) matches Some(s) && s > after_ms && !excluded(m.slug@, out)
}

/// The first market that starts after a moment and is not left out.
pub fn next_market(markets: &Vec<MarketWindow>, after_time_ms: i64, exclude_slugs: &[String]) -> (r:
    Option<usize>)
    ensures
        match r {
            Some(i) => i < markets@.len() && starts_after(
                markets@[i as int],
                after_time_ms,
                exclude_slugs@,
            ) && forall|j: int|
                0 <= j < i ==> !starts_after(#[trigger] markets@[j], after_time_ms, exclude_slugs@),
            None => forall|j: int|
                0 <= j < markets@.len() ==> !starts_after(
                    #[trigger] markets@[j],
                    after_time_ms,
                    exclude_slugs@,
                ),
        },
{
    let mut i: usize = 0;
    while i < markets.len()
        invariant
            i <= markets.len(),
            forall|j: int|
                0 <= j < i ==> !starts_after(#[trigger] markets@[j], after_time_ms, exclude_slugs@),
        decreases markets.len() - i,
    {
        match rfc3339_millis(markets[i].start_time.as_str()) {
            Some(start) => {
                if start > after_time_ms && !is_excluded(markets[i].slug.as_str(), exclude_slugs) {
                    return Some(i);
                }
            },
            None => {},
        }
        i = i + 1;
    }
    None
}

proof fn lemma_first_strike_none(found: Seq<(Num, bool)>, lo: Num, hi: Num)
    requires
        forall|i: int| 0 <= i < found.len() ==> !(#[trigger] found[i]).1,
    ensures
        first_strike(found, lo, hi) is None,
    decreases found.len(),
{
    if found.len() > 0 {
        assert(!found[0].1);
        let rest = found.drop_first();
        assert forall|i: int| 0 <= i < rest.len() implies !(#[trigger] rest[i]).1 by {
            assert(rest[i] == found[i + 1]);
        }
        lemma_first_strike_none(rest, lo, hi);
    }
}

proof fn lemma_scan_without_dollar(text: Seq<char>, i: int, s: Scan)
    requires
        0 <= i <= text.len(),
        forall|k: int|
            0 <= k < text.len() - 1 && #[trigger] text[k] == '$' ==> !is_digit(text[k + 1]),
        forall|k: int| 0 <= k < s.found.len() ==> !(#[trigger] s.found[k]).1,
        s.dollar ==> s.current.len() == 0 && i > 0 && text[i - 1] == '$',
    ensures
        ({
            let found = scan_from(text, i, s).found;
            forall|k: int| 0 <= k < found.len() ==> !(#[trigger] found[k]).1
        }),
    decreases text.len() - i,
{
    if i < text.len() {
        let next = scan_char(s, text[i], i + 1 < text.len() && is_digit(text[i + 1]));
        if s.dollar {
            assert(text[i - 1] == '$');
        }
        lemma_scan_without_dollar(text, i + 1, next);
        assert(scan_from(text, i, s) == scan_from(text, i + 1, next));
    } else {
        let found = scan_from(text, i, s).found;
        assert forall|k: int| 0 <= k < found.len() implies !(#[trigger] found[k]).1 by {
            if k < s.found.len() {
                assert(found[k] == s.found[k]);
            }
        }
    }
}

/// Only a number with a dollar sign directly before it is a strike: in a text where none
/// stands before a digit there is no strike, whatever dates and times it names.
pub proof fn law_strike_needs_its_dollar_sign(text: Seq<char>, asset: Seq<char>)
    requires
        forall|k: int|
            0 <= k < text.len() - 1 && #[trigger] text[k] == '$' ==> !is_digit(text[k + 1]),
    ensures
        strike_in(text, asset) is None,
{
    lemma_scan_without_dollar(text, 0, scan_start());
    let a = uppercase(uppercase(asset));
    lemma_first_strike_none(
        scan_from(text, 0, scan_start()).found,
        strike_floor(a),
        strike_ceiling(a),
    );
}

} // verus!
