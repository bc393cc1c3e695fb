//! One-minute volatility from the exchange's candles.
use crate::json::{document_of, parse_json, Json};
use crate::num::Num;
use crate::number_text::{num_of_text, parse_num};
use vstd::prelude::*;

verus! {

/// High, low and close of a candle.
#[derive(Debug, Clone, Copy)]
pub struct Candle {
    pub high: Num,
    pub low: Num,
    pub close: Num,
}

/// The number that a row's text at a place denotes.
pub open spec fn cell_of(row: Seq<Json>, i: int) -> Option<Num> {
    if 0 <= i < row.len() {
        match row[i] {
            Json::Str(s) => num_of_text(s@),
            _ => None,
        }
    } else {
        None
    }
}

/// The candle in a row; none where a figure is missing or the row is no list.
pub open spec fn candle_of(row: Json) -> Option<Candle> {
    match row {
        Json::Array(cells) => match (cell_of(cells@, 2), cell_of(cells@, 3), cell_of(cells@, 4)) {
            (Some(high), Some(low), Some(close)) => Some(Candle { high, low, close }),
            _ => None,
        },
        _ => None,
    }
}

/// The candles in some rows, in their order.
pub open spec fn candles_of(rows: Seq<Json>) -> Seq<Candle>
    decreases rows.len(),
{
    if rows.len() == 0 {
        Seq::<Candle>::empty()
    } else {
        match candle_of(rows.last()) {
            Some(c) => candles_of(rows.drop_last()).push(c),
            None => candles_of(rows.drop_last()),
        }
    }
}

/// The rows of an answer.
pub open spec fn rows_of(answer: Json) -> Seq<Json> {
    match answer.spec_get("result"@) {
        Some(result) => match result.items_at("list"@) {
            Some(rows) => rows,
            None => Seq::<Json>::empty(),
        },
        None => Seq::<Json>::empty(),
    }
}

/// The range of a candle, counted from the close before it.
pub open spec fn true_range(c: Candle, before: Num) -> Num {
    (c.high - c.low).max((c.high - before).abs()).max((c.low - before).abs())
}

/// The ranges of all candles but the oldest, added up from the newest on.
pub open spec fn range_sum(candles: Seq<Candle>) -> Num
    decreases candles.len(),
{
    if candles.len() < 2 {
        Num::zero().negated()
    } else {
        range_sum(candles.drop_last()) + true_range(
            candles[candles.len() - 2],
            candles.last().close,
        )
    }
}

/// The mean true range of candles, newest first; none of fewer than two.
pub open spec fn mean_range(candles: Seq<Candle>) -> Option<Num> {
    if candles.len() < 2 {
        None
    } else {
        Some(range_sum(candles) / Num::uint((candles.len() - 1) as u64))
    }
}

fn cell(row: &Vec<Json>, i: usize) -> (r: Option<Num>)
    ensures
        r == cell_of(row@, i as int),
{
    if i >= row.len() {
        return None;
    }
    match &row[i] {
        Json::Str(s) => parse_num(s.as_str()),
        _ => None,
    }
}

fn read_candle(row: &Json) -> (r: Option<Candle>)
    ensures
        r == candle_of(*row),
{
    match row {
        Json::Array(cells) => match (cell(cells, 2), cell(cells, 3), cell(cells, 4)) {
            (Some(high), Some(low), Some(close)) => Some(Candle { high, low, close }),
            _ => None,
        },
        _ => None,
    }
}

fn read_candles(rows: &Vec<Json>) -> (r: Vec<Candle>)
    ensures
        r@ == candles_of(rows@),
{
    let mut out: Vec<Candle> = Vec::new();
    let mut i: usize = 0;
    assert(rows@.take(0) =~= Seq::<Json>::empty());
    while i < rows.len()
        invariant
            i <= rows.len(),
            out@ == candles_of(rows@.take(i as int)),
        decreases rows.len() - i,
    {
        proof {
            assert(rows@.take(i + 1).drop_last() =~= rows@.take(i as int));
            assert(rows@.take(i + 1).last() == rows@[i as int]);
        }
        match read_candle(&rows[i]) {
            Some(c) => {
                out.push(c);
            },
            None => {},
        }
        i = i + 1;
    }
    assert(rows@.take(i as int) =~= rows@);
    out
}

/// The mean true range of candles, newest first.
pub fn mean_true_range(candles: &Vec<Candle>) -> (r: Option<Num>)
    ensures
        r == mean_range(candles@),
{
    if candles.len() < 2 {
        return None;
    }
    let mut sum: Num = Num::zero().negated();
    let mut i: usize = 1;
    while i < candles.len()
        invariant
            1 <= i <= candles.len(),
            sum == range_sum(candles@.take(i as int)),
        decreases candles.len() - i,
    {
        proof {
            let next = candles@.take(i + 1);
            assert(next.drop_last() =~= candles@.take(i as int));
            assert(next.last() == candles@[i as int] && next[i - 1] == candles@[i - 1]);
        }
        let c: Candle = candles[i - 1];
        let before: Num = candles[i].close;
        sum = sum + (c.high - c.low).max((c.high - before).abs()).max((c.low - before).abs());
        i = i + 1;
    }
    assert(candles@.take(i as int) =~= candles@);
    Some(sum / Num::uint((candles.len() - 1) as u64))
}

/// The volatility that an answer's text shows; none where it holds fewer than two candles.
pub fn atr_from_text(text: &str) -> (r: Option<Num>)
    ensures
        r == match document_of(text@) {
            Some(answer) => mean_range(candles_of(rows_of(answer))),
            None => None,
        },
{
    let answer: Json = match parse_json(text) {
        Some(d) => d,
        None => {
            return None;
        },
    };
    match answer.get("result") {
        Some(result) => match result.get_items("list") {
            Some(rows) => mean_true_range(&read_candles(rows)),
            None => None,
        },
        None => None,
    }
}

} // verus!
