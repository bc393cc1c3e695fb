//! Figures of the recent closed windows, as context for a forecast.
use crate::num::Num;
use crate::strategy::LlmForecast;
use crate::text::{
    chars_of, contains, find_part, has_part, has_prefix, part_place, same_text, starts_with,
    text_of_range,
};
use crate::trader::{TradeRecord, WindowState};
use vstd::prelude::*;

verus! {

/// One closed window.
#[derive(Debug, Clone)]
pub struct LlmRecentWindowRow {
    pub window_id: usize,
    pub entry_side: String,
    pub llm_side: String,
    pub winner: String,
    pub pnl: Num,
    pub entry_source: String,
    pub runner_redeemed: bool,
    pub hedge_cost: Num,
    pub tail_value: Num,
}

/// The recent closed windows and their figures.
#[derive(Debug, Clone)]
pub struct LlmRecentWindowContext {
    pub sample_size: usize,
    pub avg_pnl_per_window: Num,
    pub median_pnl: Num,
    pub max_drawdown: Num,
    pub entry_side_accuracy: Num,
    pub llm_accuracy: Num,
    pub runner_redeem_rate: Num,
    pub hedge_cost: Num,
    pub hedge_window_pnl: Num,
    pub tail_liquidation_value: Num,
    pub adverse_slippage_01_pnl: Num,
    pub adverse_slippage_02_pnl: Num,
    pub up_winners: usize,
    pub down_winners: usize,
    pub rows: Vec<LlmRecentWindowRow>,
}

/// The first buy.
pub open spec fn first_bought(trades: Seq<TradeRecord>) -> Option<TradeRecord>
    decreases trades.len(),
{
    if trades.len() == 0 {
        None
    } else if trades[0].trade_type@ == "BUY"@ {
        Some(trades[0])
    } else {
        first_bought(trades.skip(1))
    }
}

pub fn first_buy(win: &WindowState) -> (r: Option<&TradeRecord>)
    ensures
        match (r, first_bought(win.trades@)) {
            (Some(t), Some(s)) => *t == s,
            (None, None) => true,
            _ => false,
        },
{
    let mut i: usize = 0;
    assert(win.trades@.skip(0) == win.trades@);
    while i < win.trades.len()
        invariant
            i <= win.trades.len(),
            first_bought(win.trades@) == first_bought(win.trades@.skip(i as int)),
        decreases win.trades.len() - i,
    {
        assert(win.trades@.skip(i as int)[0] == win.trades@[i as int]);
        assert(win.trades@.skip(i as int).skip(1) == win.trades@.skip(i + 1));
        if same_text(win.trades[i].trade_type.as_str(), "BUY") {
            return Some(&win.trades[i]);
        }
        i = i + 1;
    }
    None
}

/// Whether a trade is a redemption of shares.
pub open spec fn redeems(t: TradeRecord) -> bool {
    t.trade_type@ == "REDEEM"@ && t.shares.gt(Num::zero())
}

fn is_redeem(t: &TradeRecord) -> (r: bool)
    ensures
        r == redeems(*t),
{
    same_text(t.trade_type.as_str(), "REDEEM") && t.shares.gt(Num::zero())
}

/// The side of the first redemption.
pub open spec fn first_redeemed(trades: Seq<TradeRecord>) -> Option<Seq<char>>
    decreases trades.len(),
{
    if trades.len() == 0 {
        None
    } else if redeems(trades[0]) {
        Some(trades[0].side@)
    } else {
        first_redeemed(trades.skip(1))
    }
}

pub fn redeemed_winner(win: &WindowState) -> (r: Option<String>)
    ensures
        match (r, first_redeemed(win.trades@)) {
            (Some(t), Some(s)) => t@ == s,
            (None, None) => true,
            _ => false,
        },
{
    let mut i: usize = 0;
    assert(win.trades@.skip(0) == win.trades@);
    while i < win.trades.len()
        invariant
            i <= win.trades.len(),
            first_redeemed(win.trades@) == first_redeemed(win.trades@.skip(i as int)),
        decreases win.trades.len() - i,
    {
        assert(win.trades@.skip(i as int)[0] == win.trades@[i as int]);
        assert(win.trades@.skip(i as int).skip(1) == win.trades@.skip(i + 1));
        if is_redeem(&win.trades[i]) {
            return Some(win.trades[i].side.as_str().to_owned());
        }
        i = i + 1;
    }
    None
}

/// Whether shares of a side were redeemed.
pub open spec fn side_redeemed(trades: Seq<TradeRecord>, side: Seq<char>) -> bool {
    exists|i: int| 0 <= i < trades.len() && redeems(#[trigger] trades[i]) && trades[i].side@ == side
}

fn was_redeemed(trades: &Vec<TradeRecord>, side: &str) -> (r: bool)
    ensures
        r == side_redeemed(trades@, side@),
{
    let mut i: usize = 0;
    while i < trades.len()
        invariant
            i <= trades.len(),
            forall|j: int|
                0 <= j < i ==> !(redeems(#[trigger] trades@[j]) && trades@[j].side@ == side@),
        decreases trades.len() - i,
    {
        if is_redeem(&trades[i]) && same_text(trades[i].side.as_str(), side) {
            assert(redeems(trades@[i as int]));
            return true;
        }
        i = i + 1;
    }
    false
}

/// Whether there is a buy.
pub open spec fn has_buy(trades: Seq<TradeRecord>) -> bool {
    exists|i: int| 0 <= i < trades.len() && (#[trigger] trades[i]).trade_type@ == "BUY"@
}

/// What the buys behind the first one cost on the other side.
pub open spec fn hedge_cost_of(trades: Seq<TradeRecord>, first_side: Seq<char>) -> Num
    decreases trades.len(),
{
    if trades.len() == 0 {
        Num::zero().negated()
    } else {
        let t = trades.last();
        let rest = hedge_cost_of(trades.drop_last(), first_side);
        if t.trade_type@ == "BUY"@ && has_buy(trades.drop_last()) && first_side.len() > 0 && t.side@
            != first_side {
            rest + t.usd_value
        } else {
            rest
        }
    }
}

pub fn opposite_buy_cost_after_first(win: &WindowState, first_side: &str) -> (r: Num)
    ensures
        r == hedge_cost_of(win.trades@, first_side@),
{
    let named: bool = first_side.unicode_len() > 0;
    let mut seen_first_buy: bool = false;
    let mut sum: Num = Num::zero().negated();
    let mut i: usize = 0;
    assert(win.trades@.take(0) == Seq::<TradeRecord>::empty());
    while i < win.trades.len()
        invariant
            i <= win.trades.len(),
            named == (first_side@.len() > 0),
            seen_first_buy == has_buy(win.trades@.take(i as int)),
            sum == hedge_cost_of(win.trades@.take(i as int), first_side@),
        decreases win.trades.len() - i,
    {
        let ghost now = win.trades@.take(i + 1);
        assert(now.drop_last() == win.trades@.take(i as int));
        assert(now.last() == win.trades@[i as int]);
        let t: &TradeRecord = &win.trades[i];
        let is_buy: bool = same_text(t.trade_type.as_str(), "BUY");
        if is_buy && seen_first_buy && named && !same_text(t.side.as_str(), first_side) {
            sum = sum + t.usd_value;
        }
        proof {
            if is_buy {
                assert(now[i as int].trade_type@ == "BUY"@);
            }
            if has_buy(win.trades@.take(i as int)) {
                let j = choose|j: int|
                    0 <= j < i && (#[trigger] win.trades@.take(i as int)[j]).trade_type@ == "BUY"@;
                assert(now[j].trade_type@ == "BUY"@);
            }
            if has_buy(now) && !is_buy {
                let j = choose|j: int|
                    0 <= j < now.len() && (#[trigger] now[j]).trade_type@ == "BUY"@;
                assert(win.trades@.take(i as int)[j].trade_type@ == "BUY"@);
            }
        }
        if is_buy {
            seen_first_buy = true;
        }
        i = i + 1;
    }
    assert(win.trades@.take(i as int) == win.trades@);
    sum
}

/// Whether a trade sold off a tail.
pub open spec fn is_tail_sale(t: TradeRecord) -> bool {
    &&& t.trade_type@ == "SELL"@
    &&& has_part(t.reason@, "weak_salvage"@) || has_part(t.reason@, "emergency"@) || has_part(
        t.reason@,
        "tail"@,
    ) || has_part(t.reason@, "otm_surplus"@)
}

/// What the tail sales brought.
pub open spec fn tail_value_of(trades: Seq<TradeRecord>) -> Num
    decreases trades.len(),
{
    if trades.len() == 0 {
        Num::zero().negated()
    } else if is_tail_sale(trades.last()) {
        tail_value_of(trades.drop_last()) + trades.last().usd_value
    } else {
        tail_value_of(trades.drop_last())
    }
}

pub fn tail_liquidation_usd(win: &WindowState) -> (r: Num)
    ensures
        r == tail_value_of(win.trades@),
{
    let mut sum: Num = Num::zero().negated();
    let mut i: usize = 0;
    assert(win.trades@.take(0) == Seq::<TradeRecord>::empty());
    while i < win.trades.len()
        invariant
            i <= win.trades.len(),
            sum == tail_value_of(win.trades@.take(i as int)),
        decreases win.trades.len() - i,
    {
        assert(win.trades@.take(i + 1).drop_last() == win.trades@.take(i as int));
        assert(win.trades@.take(i + 1).last() == win.trades@[i as int]);
        let t: &TradeRecord = &win.trades[i];
        let reason: &str = t.reason.as_str();
        if same_text(t.trade_type.as_str(), "SELL") && (contains(reason, "weak_salvage")
            || contains(reason, "emergency") || contains(reason, "tail") || contains(
            reason,
            "otm_surplus",
        )) {
            sum = sum + t.usd_value;
        }
        i = i + 1;
    }
    assert(win.trades@.take(i as int) == win.trades@);
    sum
}

/// Shares of all trades of a kind.
pub open spec fn shares_of_kind(trades: Seq<TradeRecord>, kind: Seq<char>) -> Num
    decreases trades.len(),
{
    if trades.len() == 0 {
        Num::zero().negated()
    } else if trades.last().trade_type@ == kind {
        shares_of_kind(trades.drop_last(), kind) + trades.last().shares
    } else {
        shares_of_kind(trades.drop_last(), kind)
    }
}

fn traded_shares(trades: &Vec<TradeRecord>, kind: &str) -> (r: Num)
    ensures
        r == shares_of_kind(trades@, kind@),
{
    let mut sum: Num = Num::zero().negated();
    let mut i: usize = 0;
    assert(trades@.take(0) == Seq::<TradeRecord>::empty());
    while i < trades.len()
        invariant
            i <= trades.len(),
            sum == shares_of_kind(trades@.take(i as int), kind@),
        decreases trades.len() - i,
    {
        assert(trades@.take(i + 1).drop_last() == trades@.take(i as int));
        assert(trades@.take(i + 1).last() == trades@[i as int]);
        if same_text(trades[i].trade_type.as_str(), kind) {
            sum = sum + trades[i].shares;
        }
        i = i + 1;
    }
    assert(trades@.take(i as int) == trades@);
    sum
}

/// What a buy's reason names as its source: the text between the markers.
pub open spec fn source_in(reason: Seq<char>) -> Seq<char> {
    match part_place(reason, "_source_"@, 0) {
        None => "unknown"@,
        Some(i) => {
            let start = i + "_source_"@.len();
            match part_place(reason, "_conf_"@, start) {
                Some(end) => reason.subrange(start, end),
                None => reason.skip(start),
            }
        },
    }
}

pub fn extract_entry_source(reason: &str) -> (r: String)
    ensures
        r@ == source_in(reason@),
{
    let v: Vec<char> = chars_of(reason);
    let marker: Vec<char> = chars_of("_source_");
    let stop: Vec<char> = chars_of("_conf_");
    match find_part(&v, &marker, 0) {
        None => "unknown".to_owned(),
        Some(i) => {
            assert(i + marker.len() <= v.len());
            let start: usize = i + marker.len();
            match find_part(&v, &stop, start) {
                Some(end) => text_of_range(&v, start, end),
                None => {
                    assert(v@.subrange(start as int, v.len() as int) =~= v@.skip(start as int));
                    text_of_range(&v, start, v.len())
                },
            }
        },
    }
}

pub open spec fn spec_ratio_of(num: usize, den: usize) -> Num {
    if den > 0 {
        Num::uint(num as u64) / Num::uint(den as u64)
    } else {
        Num::zero()
    }
}

/// A share of a count; zero of none.
#[verifier::when_used_as_spec(spec_ratio_of)]
pub fn ratio(num: usize, den: usize) -> (r: Num)
    ensures
        r == spec_ratio_of(num, den),
{
    if den > 0 {
        Num::uint(num as u64) / Num::uint(den as u64)
    } else {
        Num::zero()
    }
}

/// A number put into its place in an ascending list, behind its equals.
pub open spec fn inserted(sorted: Seq<Num>, x: Num) -> Seq<Num>
    decreases sorted.len(),
{
    if sorted.len() == 0 || !x.lt(sorted.last()) {
        sorted.push(x)
    } else {
        inserted(sorted.drop_last(), x).push(sorted.last())
    }
}

/// Numbers in ascending order.
pub open spec fn ascending(values: Seq<Num>) -> Seq<Num>
    decreases values.len(),
{
    if values.len() == 0 {
        values
    } else {
        inserted(ascending(values.drop_last()), values.last())
    }
}

/// The middle number, or the mean of the two in the middle; zero of none.
pub open spec fn median_of(values: Seq<Num>) -> Num {
    let s = ascending(values);
    let mid = (values.len() / 2) as int;
    if values.len() == 0 {
        Num::zero()
    } else if values.len() % 2 == 0 {
        (s[mid - 1] + s[mid]) / Num::uint(2)
    } else {
        s[mid]
    }
}

proof fn lemma_inserted_len(sorted: Seq<Num>, x: Num)
    ensures
        inserted(sorted, x).len() == sorted.len() + 1,
    decreases sorted.len(),
{
    if sorted.len() > 0 && x.lt(sorted.last()) {
        lemma_inserted_len(sorted.drop_last(), x);
    }
}

fn insert_number(sorted: &mut Vec<Num>, x: Num)
    ensures
        final(sorted)@ == inserted(old(sorted)@, x),
        final(sorted)@.len() == old(sorted)@.len() + 1,
{
    let ghost before = sorted@;
    let mut k: usize = sorted.len();
    assert(before.take(k as int) == before);
    assert(before.skip(k as int) == Seq::<Num>::empty());
    assert(inserted(before, x) =~= inserted(before.take(k as int), x) + before.skip(k as int));
    while k > 0 && x.lt(sorted[k - 1])
        invariant
            k <= sorted.len(),
            sorted@ == before,
            inserted(before, x) == inserted(before.take(k as int), x) + before.skip(k as int),
        decreases k,
    {
        proof {
            let t = before.take(k as int);
            assert(t.last() == before[k - 1]);
            assert(t.drop_last() == before.take(k - 1));
            assert(inserted(t, x) + before.skip(k as int) =~= inserted(t.drop_last(), x)
                + before.skip(k - 1));
        }
        k = k - 1;
    }
    proof {
        let t = before.take(k as int);
        if k > 0 {
            assert(t.last() == before[k - 1]);
        }
        assert(inserted(t, x) == t.push(x));
        assert(before.insert(k as int, x) =~= t.push(x) + before.skip(k as int));
        lemma_inserted_len(before, x);
    }
    sorted.insert(k, x);
}

pub fn median_f64(values: &Vec<Num>) -> (r: Num)
    ensures
        r == median_of(values@),
{
    let n: usize = values.len();
    if n == 0 {
        return Num::zero();
    }
    let mut sorted: Vec<Num> = Vec::new();
    let mut i: usize = 0;
    assert(values@.take(0) == Seq::<Num>::empty());
    while i < n
        invariant
            i <= n,
            n == values.len(),
            sorted@.len() == i,
            sorted@ == ascending(values@.take(i as int)),
        decreases n - i,
    {
        assert(values@.take(i + 1).drop_last() == values@.take(i as int));
        assert(values@.take(i + 1).last() == values@[i as int]);
        insert_number(&mut sorted, values[i]);
        i = i + 1;
    }
    assert(values@.take(i as int) == values@);
    let mid: usize = n / 2;
    if n % 2 == 0 {
        (sorted[mid - 1] + sorted[mid]) / Num::uint(2)
    } else {
        sorted[mid]
    }
}

/// Running total, its highest point so far, and the deepest fall from a high.
pub open spec fn fall_state(pnls: Seq<Num>) -> (Num, Num, Num)
    decreases pnls.len(),
{
    if pnls.len() == 0 {
        (Num::zero(), Num::zero(), Num::zero())
    } else {
        let (cum, peak, deepest) = fall_state(pnls.drop_last());
        let now = cum + pnls.last();
        let high = if now.gt(peak) {
            now
        } else {
            peak
        };
        let fall = high - now;
        (now, high, if fall.gt(deepest) {
            fall
        } else {
            deepest
        })
    }
}

pub fn max_drawdown(pnls: &Vec<Num>) -> (r: Num)
    ensures
        r == fall_state(pnls@).2,
{
    let mut cumulative: Num = Num::zero();
    let mut peak: Num = Num::zero();
    let mut max_dd: Num = Num::zero();
    let mut i: usize = 0;
    assert(pnls@.take(0) == Seq::<Num>::empty());
    while i < pnls.len()
        invariant
            i <= pnls.len(),
            (cumulative, peak, max_dd) == fall_state(pnls@.take(i as int)),
        decreases pnls.len() - i,
    {
        assert(pnls@.take(i + 1).drop_last() == pnls@.take(i as int));
        assert(pnls@.take(i + 1).last() == pnls@[i as int]);
        cumulative = cumulative + pnls[i];
        if cumulative.gt(peak) {
            peak = cumulative;
        }
        let dd: Num = peak - cumulative;
        if dd.gt(max_dd) {
            max_dd = dd;
        }
        i = i + 1;
    }
    assert(pnls@.take(i as int) == pnls@);
    max_dd
}

/// A window's row as plain values, with the shares it bought and sold.
pub struct RowView {
    pub window_id: usize,
    pub entry_side: Seq<char>,
    pub llm_side: Seq<char>,
    pub winner: Seq<char>,
    pub pnl: Num,
    pub entry_source: Seq<char>,
    pub runner_redeemed: bool,
    pub hedge_cost: Num,
    pub tail_value: Num,
    pub bought: Num,
    pub sold: Num,
}

/// The forecast's side for a window; empty without a forecast.
pub open spec fn side_forecast(forecasts: Seq<(usize, LlmForecast)>, number: usize) -> Seq<char>
    decreases forecasts.len(),
{
    if forecasts.len() == 0 {
        Seq::<char>::empty()
    } else if forecasts[0].0 == number {
        forecasts[0].1.side@
    } else {
        side_forecast(forecasts.skip(1), number)
    }
}

fn forecast_side_for(forecasts: &Vec<(usize, LlmForecast)>, number: usize) -> (r: String)
    ensures
        r@ == side_forecast(forecasts@, number),
{
    let mut i: usize = 0;
    assert(forecasts@.skip(0) == forecasts@);
    while i < forecasts.len()
        invariant
            i <= forecasts.len(),
            side_forecast(forecasts@, number) == side_forecast(forecasts@.skip(i as int), number),
        decreases forecasts.len() - i,
    {
        assert(forecasts@.skip(i as int)[0] == forecasts@[i as int]);
        assert(forecasts@.skip(i as int).skip(1) == forecasts@.skip(i + 1));
        if forecasts[i].0 == number {
            return forecasts[i].1.side.as_str().to_owned();
        }
        i = i + 1;
    }
    String::new()
}

/// The row of a closed window.
pub open spec fn row_of(w: WindowState, forecasts: Seq<(usize, LlmForecast)>) -> RowView {
    let first = first_bought(w.trades@);
    let entry_side = match first {
        Some(t) => t.side@,
        None => Seq::<char>::empty(),
    };
    RowView {
        window_id: w.window_number,
        entry_side,
        llm_side: side_forecast(forecasts, w.window_number),
        winner: match first_redeemed(w.trades@) {
            Some(s) => s,
            None => Seq::<char>::empty(),
        },
        pnl: w.cash_returned - w.spent,
        entry_source: match first {
            Some(t) => source_in(t.reason@),
            None => "none"@,
        },
        runner_redeemed: entry_side.len() > 0 && side_redeemed(w.trades@, entry_side),
        hedge_cost: hedge_cost_of(w.trades@, entry_side),
        tail_value: tail_value_of(w.trades@),
        bought: shares_of_kind(w.trades@, "BUY"@),
        sold: shares_of_kind(w.trades@, "SELL"@),
    }
}

/// Whether a row shows these values.
pub open spec fn shows_row(r: LlmRecentWindowRow, v: RowView) -> bool {
    &&& r.window_id == v.window_id
    &&& r.entry_side@ == v.entry_side
    &&& r.llm_side@ == v.llm_side
    &&& r.winner@ == v.winner
    &&& r.pnl == v.pnl
    &&& r.entry_source@ == v.entry_source
    &&& r.runner_redeemed == v.runner_redeemed
    &&& r.hedge_cost == v.hedge_cost
    &&& r.tail_value == v.tail_value
}

fn build_row(win: &WindowState, forecasts: &Vec<(usize, LlmForecast)>) -> (r: LlmRecentWindowRow)
    ensures
        shows_row(r, row_of(*win, forecasts@)),
{
    let (entry_side, entry_source): (String, String) = match first_buy(win) {
        Some(t) => (t.side.as_str().to_owned(), extract_entry_source(t.reason.as_str())),
        None => (String::new(), "none".to_owned()),
    };
    let winner: String = match redeemed_winner(win) {
        Some(s) => s,
        None => String::new(),
    };
    let llm_side: String = forecast_side_for(forecasts, win.window_number);
    let runner_redeemed: bool = entry_side.as_str().unicode_len() > 0 && was_redeemed(
        &win.trades,
        entry_side.as_str(),
    );
    let hedge_cost: Num = opposite_buy_cost_after_first(win, entry_side.as_str());
    let tail_value: Num = tail_liquidation_usd(win);
    LlmRecentWindowRow {
        window_id: win.window_number,
        entry_side,
        llm_side,
        winner,
        pnl: win.cash_returned - win.spent,
        entry_source,
        runner_redeemed,
        hedge_cost,
        tail_value,
    }
}

/// Whether a window was traded and is closed.
pub open spec fn is_closed(w: WindowState) -> bool {
    w.spent.gt(Num::zero()) && has_prefix(w.status@, "CLOSED"@)
}

/// A place put into a list of places that is ordered by window number, behind its equals.
pub open spec fn placed(order: Seq<int>, windows: Seq<WindowState>, i: int) -> Seq<int>
    decreases order.len(),
{
    if order.len() == 0 || windows[order.last()].window_number <= windows[i].window_number {
        order.push(i)
    } else {
        placed(order.drop_last(), windows, i).push(order.last())
    }
}

/// The places of the closed windows among the first `n`, ordered by window number.
pub open spec fn closed_order(windows: Seq<WindowState>, n: int) -> Seq<int>
    decreases n,
{
    if n <= 0 {
        Seq::<int>::empty()
    } else if is_closed(windows[n - 1]) {
        placed(closed_order(windows, n - 1), windows, n - 1)
    } else {
        closed_order(windows, n - 1)
    }
}

/// The last `limit` of the closed windows' rows.
pub open spec fn recent_rows(
    windows: Seq<WindowState>,
    forecasts: Seq<(usize, LlmForecast)>,
    limit: nat,
) -> Seq<RowView> {
    let order = closed_order(windows, windows.len() as int);
    let from = if order.len() <= limit {
        0
    } else {
        order.len() - limit
    };
    order.skip(from).map_values(|i: int| row_of(windows[i], forecasts))
}

pub open spec fn ints(v: Seq<usize>) -> Seq<int> {
    v.map_values(|x: usize| x as int)
}

fn insert_place(order: &mut Vec<usize>, windows: &Vec<WindowState>, i: usize)
    requires
        i < windows.len(),
        forall|k: int| 0 <= k < old(order)@.len() ==> (#[trigger] old(order)@[k]) < windows.len(),
    ensures
        ints(final(order)@) == placed(ints(old(order)@), windows@, i as int),
        forall|k: int| 0 <= k < final(order)@.len() ==> (#[trigger] final(order)@[k]) < windows.len(),
{
    let ghost before = order@;
    let ghost b = ints(before);
    let mut k: usize = order.len();
    assert(b.take(k as int) =~= b);
    assert(placed(b, windows@, i as int) =~= placed(b.take(k as int), windows@, i as int) + b.skip(
        k as int,
    ));
    while k > 0 && windows[order[k - 1]].window_number > windows[i].window_number
        invariant
            k <= order.len(),
            i < windows.len(),
            order@ == before,
            b == ints(before),
            forall|j: int| 0 <= j < order@.len() ==> (#[trigger] order@[j]) < windows.len(),
            placed(b, windows@, i as int) == placed(b.take(k as int), windows@, i as int) + b.skip(
                k as int,
            ),
        decreases k,
    {
        proof {
            let t = b.take(k as int);
            assert(t.last() == before[k - 1]);
            assert(t.drop_last() == b.take(k - 1));
            assert(placed(t, windows@, i as int) + b.skip(k as int) =~= placed(
                t.drop_last(),
                windows@,
                i as int,
            ) + b.skip(k - 1));
        }
        k = k - 1;
    }
    proof {
        let t = b.take(k as int);
        if k > 0 {
            assert(t.last() == before[k - 1]);
        }
        assert(placed(t, windows@, i as int) == t.push(i as int));
        assert(ints(before.insert(k as int, i)) =~= t.push(i as int) + b.skip(k as int));
    }
    order.insert(k, i);
}

fn order_closed(windows: &Vec<WindowState>) -> (r: Vec<usize>)
    ensures
        ints(r@) == closed_order(windows@, windows@.len() as int),
        forall|k: int| 0 <= k < r@.len() ==> (#[trigger] r@[k]) < windows.len(),
{
    let mut order: Vec<usize> = Vec::new();
    let mut i: usize = 0;
    assert(ints(order@) =~= closed_order(windows@, 0));
    while i < windows.len()
        invariant
            i <= windows.len(),
            ints(order@) == closed_order(windows@, i as int),
            forall|k: int| 0 <= k < order@.len() ==> (#[trigger] order@[k]) < windows.len(),
        decreases windows.len() - i,
    {
        let w: &WindowState = &windows[i];
        if w.spent.gt(Num::zero()) && starts_with(w.status.as_str(), "CLOSED") {
            insert_place(&mut order, windows, i);
        }
        i = i + 1;
    }
    order
}

/// How many rows have a property.
pub open spec fn tally(rows: Seq<RowView>, p: spec_fn(RowView) -> bool) -> nat
    decreases rows.len(),
{
    if rows.len() == 0 {
        0
    } else {
        tally(rows.drop_last(), p) + if p(rows.last()) {
            1nat
        } else {
            0
        }
    }
}

/// The sum of a figure over rows, first to last.
pub open spec fn total(rows: Seq<RowView>, f: spec_fn(RowView) -> Num) -> Num
    decreases rows.len(),
{
    if rows.len() == 0 {
        Num::zero()
    } else {
        total(rows.drop_last(), f) + f(rows.last())
    }
}

/// The profit of the windows with a hedge.
pub open spec fn hedged_pnl(rows: Seq<RowView>) -> Num
    decreases rows.len(),
{
    if rows.len() == 0 {
        Num::zero()
    } else if rows.last().hedge_cost.gt(Num::zero()) {
        hedged_pnl(rows.drop_last()) + rows.last().pnl
    } else {
        hedged_pnl(rows.drop_last())
    }
}

/// The sum of numbers, first to last.
pub open spec fn sum_of(values: Seq<Num>) -> Num
    decreases values.len(),
{
    if values.len() == 0 {
        Num::zero().negated()
    } else {
        sum_of(values.drop_last()) + values.last()
    }
}

pub open spec fn pnls_of(rows: Seq<RowView>) -> Seq<Num> {
    rows.map_values(|r: RowView| r.pnl)
}

/// Whether a context states the figures of these rows.
pub open spec fn describes(c: LlmRecentWindowContext, rows: Seq<RowView>) -> bool {
    let pnls = pnls_of(rows);
    let profit = sum_of(pnls);
    let n = rows.len();
    let bought = total(rows, |r: RowView| r.bought);
    let sold = total(rows, |r: RowView| r.sold);
    &&& c.sample_size == n
    &&& c.avg_pnl_per_window == if n > 0 {
        profit / Num::uint(n as u64)
    } else {
        Num::zero()
    }
    &&& c.median_pnl == median_of(pnls)
    &&& c.max_drawdown == fall_state(pnls).2
    &&& c.entry_side_accuracy == ratio(
        tally(rows, |r: RowView| entry_known(r) && r.entry_side == r.winner) as usize,
        tally(rows, |r: RowView| entry_known(r)) as usize,
    )
    &&& c.llm_accuracy == ratio(
        tally(rows, |r: RowView| llm_known(r) && r.llm_side == r.winner) as usize,
        tally(rows, |r: RowView| llm_known(r)) as usize,
    )
    &&& c.runner_redeem_rate == ratio(
        tally(rows, |r: RowView| r.runner_redeemed) as usize,
        n as usize,
    )
    &&& c.hedge_cost == total(rows, |r: RowView| r.hedge_cost)
    &&& c.hedge_window_pnl == hedged_pnl(rows)
    &&& c.tail_liquidation_value == total(rows, |r: RowView| r.tail_value)
    &&& c.adverse_slippage_01_pnl == profit - Num::ratio(1, 100) * (bought + sold)
    &&& c.adverse_slippage_02_pnl == profit - Num::ratio(2, 100) * (bought + sold)
    &&& c.up_winners == tally(rows, |r: RowView| r.winner == "UP"@)
    &&& c.down_winners == tally(rows, |r: RowView| r.winner == "DOWN"@)
    &&& c.rows@.len() == n
    &&& forall|i: int| 0 <= i < n ==> shows_row(#[trigger] c.rows@[i], rows[i])
}

/// Whether both the side of the entry and the winner are known.
pub open spec fn entry_known(r: RowView) -> bool {
    r.entry_side.len() > 0 && r.winner.len() > 0
}

/// Whether both the side of the forecast and the winner are known.
pub open spec fn llm_known(r: RowView) -> bool {
    r.llm_side.len() > 0 && r.winner.len() > 0
}

/// Counts over rows.
struct Counts {
    entry_hits: usize,
    entry_known: usize,
    llm_hits: usize,
    llm_known: usize,
    runner_redeems: usize,
    up_winners: usize,
    down_winners: usize,
}

spec fn counted(c: Counts, rows: Seq<RowView>) -> bool {
    &&& c.entry_hits == tally(rows, |r: RowView| entry_known(r) && r.entry_side == r.winner)
    &&& c.entry_known == tally(rows, |r: RowView| entry_known(r))
    &&& c.llm_hits == tally(rows, |r: RowView| llm_known(r) && r.llm_side == r.winner)
    &&& c.llm_known == tally(rows, |r: RowView| llm_known(r))
    &&& c.runner_redeems == tally(rows, |r: RowView| r.runner_redeemed)
    &&& c.up_winners == tally(rows, |r: RowView| r.winner == "UP"@)
    &&& c.down_winners == tally(rows, |r: RowView| r.winner == "DOWN"@)
    &&& c.entry_hits <= rows.len() && c.entry_known <= rows.len() && c.llm_hits <= rows.len()
    &&& c.llm_known <= rows.len() && c.runner_redeems <= rows.len() && c.up_winners <= rows.len()
    &&& c.down_winners <= rows.len()
}

fn count_row(
    c: &mut Counts,
    row: &LlmRecentWindowRow,
    Ghost(rows): Ghost<Seq<RowView>>,
    Ghost(v): Ghost<RowView>,
)
    requires
        counted(*old(c), rows),
        shows_row(*row, v),
        rows.len() < usize::MAX,
    ensures
        counted(*final(c), rows.push(v)),
{
    proof {
        reveal_strlit("UP");
        reveal_strlit("DOWN");
        assert("UP"@.len() != "DOWN"@.len());
        assert(rows.push(v).drop_last() == rows);
        assert(rows.push(v).last() == v);
    }
    let won: bool = row.winner.as_str().unicode_len() > 0;
    if same_text(row.winner.as_str(), "UP") {
        c.up_winners = c.up_winners + 1;
    } else if same_text(row.winner.as_str(), "DOWN") {
        c.down_winners = c.down_winners + 1;
    }
    if row.entry_side.as_str().unicode_len() > 0 && won {
        c.entry_known = c.entry_known + 1;
        if same_text(row.entry_side.as_str(), row.winner.as_str()) {
            c.entry_hits = c.entry_hits + 1;
        }
    }
    if row.llm_side.as_str().unicode_len() > 0 && won {
        c.llm_known = c.llm_known + 1;
        if same_text(row.llm_side.as_str(), row.winner.as_str()) {
            c.llm_hits = c.llm_hits + 1;
        }
    }
    if row.runner_redeemed {
        c.runner_redeems = c.runner_redeems + 1;
    }
}

fn sum_numbers(values: &Vec<Num>) -> (r: Num)
    ensures
        r == sum_of(values@),
{
    let mut sum: Num = Num::zero().negated();
    let mut i: usize = 0;
    assert(values@.take(0) == Seq::<Num>::empty());
    while i < values.len()
        invariant
            i <= values.len(),
            sum == sum_of(values@.take(i as int)),
        decreases values.len() - i,
    {
        assert(values@.take(i + 1).drop_last() == values@.take(i as int));
        assert(values@.take(i + 1).last() == values@[i as int]);
        sum = sum + values[i];
        i = i + 1;
    }
    assert(values@.take(i as int) == values@);
    sum
}

/// The figures of the last `limit` closed windows.
pub fn build_llm_recent_context(
    windows: &Vec<WindowState>,
    forecasts: &Vec<(usize, LlmForecast)>,
    limit: usize,
) -> (r: LlmRecentWindowContext)
    ensures
        describes(r, recent_rows(windows@, forecasts@, limit as nat)),
{
    let order: Vec<usize> = order_closed(windows);
    let start: usize = if order.len() <= limit {
        0
    } else {
        order.len() - limit
    };
    let ghost want = recent_rows(windows@, forecasts@, limit as nat);
    proof {
        assert(ints(order@).len() == order@.len());
        assert(want.len() == order.len() - start);
    }
    let mut rows: Vec<LlmRecentWindowRow> = Vec::new();
    let mut pnls: Vec<Num> = Vec::new();
    let mut counts: Counts = Counts {
        entry_hits: 0,
        entry_known: 0,
        llm_hits: 0,
        llm_known: 0,
        runner_redeems: 0,
        up_winners: 0,
        down_winners: 0,
    };
    let mut hedge_cost_total: Num = Num::zero();
    let mut hedge_window_pnl: Num = Num::zero();
    let mut tail_liquidation_value: Num = Num::zero();
    let mut buy_shares: Num = Num::zero();
    let mut sell_shares: Num = Num::zero();
    let mut k: usize = start;
    assert(want.take(0) == Seq::<RowView>::empty());
    assert(pnls@ =~= pnls_of(want.take(0)));
    while k < order.len()
        invariant
            start <= k <= order.len(),
            want == recent_rows(windows@, forecasts@, limit as nat),
            want.len() == order.len() - start,
            ints(order@) == closed_order(windows@, windows@.len() as int),
            start == (if order@.len() <= limit {
                0int
            } else {
                order@.len() - limit
            }),
            forall|j: int| 0 <= j < order@.len() ==> (#[trigger] order@[j]) < windows.len(),
            rows@.len() == k - start,
            forall|j: int| 0 <= j < k - start ==> shows_row(#[trigger] rows@[j], want[j]),
            pnls@ == pnls_of(want.take(k - start)),
            counted(counts, want.take(k - start)),
            hedge_cost_total == total(want.take(k - start), |r: RowView| r.hedge_cost),
            hedge_window_pnl == hedged_pnl(want.take(k - start)),
            tail_liquidation_value == total(want.take(k - start), |r: RowView| r.tail_value),
            buy_shares == total(want.take(k - start), |r: RowView| r.bought),
            sell_shares == total(want.take(k - start), |r: RowView| r.sold),
        decreases order.len() - k,
    {
        let win: &WindowState = &windows[order[k]];
        let row: LlmRecentWindowRow = build_row(win, forecasts);
        let ghost done = want.take(k - start);
        let ghost v = want[k - start];
        proof {
            assert(v == row_of(windows@[order@[k as int] as int], forecasts@)) by {
                assert(ints(order@).skip(start as int)[k - start] == order@[k as int] as int);
            }
            assert(want.take(k - start + 1) =~= done.push(v));
            assert(done.push(v).drop_last() =~= done);
            assert(pnls_of(done.push(v)) =~= pnls_of(done).push(v.pnl));
        }
        pnls.push(row.pnl);
        count_row(&mut counts, &row, Ghost(done), Ghost(v));
        if row.hedge_cost.gt(Num::zero()) {
            hedge_window_pnl = hedge_window_pnl + row.pnl;
        }
        hedge_cost_total = hedge_cost_total + row.hedge_cost;
        tail_liquidation_value = tail_liquidation_value + row.tail_value;
        buy_shares = buy_shares + traded_shares(&win.trades, "BUY");
        sell_shares = sell_shares + traded_shares(&win.trades, "SELL");
        rows.push(row);
        k = k + 1;
    }
    assert(want.take(k - start) =~= want);
    let total_pnl: Num = sum_numbers(&pnls);
    let sample_size: usize = pnls.len();
    LlmRecentWindowContext {
        sample_size,
        avg_pnl_per_window: if sample_size > 0 {
            total_pnl / Num::uint(sample_size as u64)
        } else {
            Num::zero()
        },
        median_pnl: median_f64(&pnls),
        max_drawdown: max_drawdown(&pnls),
        entry_side_accuracy: ratio(counts.entry_hits, counts.entry_known),
        llm_accuracy: ratio(counts.llm_hits, counts.llm_known),
        runner_redeem_rate: ratio(counts.runner_redeems, sample_size),
        hedge_cost: hedge_cost_total,
        hedge_window_pnl,
        tail_liquidation_value,
        adverse_slippage_01_pnl: total_pnl - Num::ratio(1, 100) * (buy_shares + sell_shares),
        adverse_slippage_02_pnl: total_pnl - Num::ratio(2, 100) * (buy_shares + sell_shares),
        up_winners: counts.up_winners,
        down_winners: counts.down_winners,
        rows,
    }
}

/// All closed windows come out, no other window among them, by ascending number.
pub proof fn law_recent_windows_are_ordered(windows: Seq<WindowState>, n: int)
    requires
        0 <= n <= windows.len(),
    ensures
        ({
            let order = closed_order(windows, n);
            &&& forall|a: int, b: int|
                0 <= a < b < order.len() ==> windows[#[trigger] order[a]].window_number
                    <= windows[#[trigger] order[b]].window_number
            &&& forall|i: int| #[trigger] order.contains(i) <==> 0 <= i < n && is_closed(windows[i])
        }),
    decreases n,
{
    let order = closed_order(windows, n);
    if n > 0 {
        law_recent_windows_are_ordered(windows, n - 1);
        let before = closed_order(windows, n - 1);
        if is_closed(windows[n - 1]) {
            lemma_placed_order(before, windows, n - 1);
        }
    }
}

proof fn lemma_placed_order(order: Seq<int>, windows: Seq<WindowState>, i: int)
    requires
        forall|a: int, b: int|
            0 <= a < b < order.len() ==> windows[#[trigger] order[a]].window_number
                <= windows[#[trigger] order[b]].window_number,
    ensures
        ({
            let p = placed(order, windows, i);
            &&& forall|a: int, b: int|
                0 <= a < b < p.len() ==> windows[#[trigger] p[a]].window_number
                    <= windows[#[trigger] p[b]].window_number
            &&& forall|x: int| #[trigger] p.contains(x) <==> order.contains(x) || x == i
        }),
    decreases order.len(),
{
    let p = placed(order, windows, i);
    if order.len() == 0 || windows[order.last()].window_number <= windows[i].window_number {
        assert(p == order.push(i));
        assert forall|a: int, b: int| 0 <= a < b < p.len() implies windows[#[trigger] p[a]].window_number
            <= windows[#[trigger] p[b]].window_number by {
            if b == order.len() {
                assert(p[a] == order[a]);
                if a < order.len() - 1 {
                    assert(windows[order[a]].window_number <= windows[order[order.len()
                        - 1]].window_number);
                }
            } else {
                assert(p[a] == order[a] && p[b] == order[b]);
            }
        }
        assert forall|x: int| #[trigger] p.contains(x) <==> order.contains(x) || x == i by {
            if order.contains(x) {
                let k = choose|k: int| 0 <= k < order.len() && order[k] == x;
                assert(p[k] == x);
            }
            if x == i {
                assert(p[order.len() as int] == i);
            }
            if p.contains(x) {
                let k = choose|k: int| 0 <= k < p.len() && p[k] == x;
                if k < order.len() {
                    assert(order[k] == x);
                }
            }
        }
    } else {
        let d = order.drop_last();
        lemma_placed_order(d, windows, i);
        let q = placed(d, windows, i);
        assert(p == q.push(order.last()));
        assert forall|a: int, b: int| 0 <= a < b < p.len() implies windows[#[trigger] p[a]].window_number
            <= windows[#[trigger] p[b]].window_number by {
            if b < q.len() {
                assert(p[a] == q[a] && p[b] == q[b]);
            } else {
                assert(p[a] == q[a]);
                assert(q.contains(q[a]));
                if q[a] != i {
                    assert(d.contains(q[a]));
                    let k = choose|k: int| 0 <= k < d.len() && d[k] == q[a];
                    assert(windows[order[k]].window_number <= windows[order[order.len()
                        - 1]].window_number);
                }
            }
        }
        assert forall|x: int| #[trigger] p.contains(x) <==> order.contains(x) || x == i by {
            if p.contains(x) {
                let k = choose|k: int| 0 <= k < p.len() && p[k] == x;
                if k < q.len() {
                    assert(q[k] == x);
                    assert(q.contains(x));
                    if d.contains(x) {
                        let j = choose|j: int| 0 <= j < d.len() && d[j] == x;
                        assert(order[j] == x);
                    }
                } else {
                    assert(order[order.len() - 1] == x);
                }
            }
            if order.contains(x) {
                let k = choose|k: int| 0 <= k < order.len() && order[k] == x;
                if k < d.len() {
                    assert(d[k] == x);
                    assert(q.contains(x));
                    let j = choose|j: int| 0 <= j < q.len() && q[j] == x;
                    assert(p[j] == x);
                } else {
                    assert(p[q.len() as int] == x);
                }
            }
            if x == i {
                assert(q.contains(i));
                let j = choose|j: int| 0 <= j < q.len() && q[j] == i;
                assert(p[j] == i);
            }
        }
    }
}

} // verus!
