//! Rows of the event logs, as comma-separated values.
use crate::client::{MarketWindow, PricesState};
use crate::entry::{one_side, shares_at, shares_for};
use crate::mid_cross_tracker::{elapsed_pct, LeadSide, MidCrossEvent, MidCrossWindowSummary};
use crate::num::Num;
use crate::num_laws::{lemma_quotient_nonneg, lemma_thousand, lemma_whole_is_uint};
use crate::num_ops::{lemma_ratio_nonneg, lemma_uint_is_ratio};
use crate::number_format::{dec_text, fixed, fixed_of, int_text, int_text_of, uint_text};
use crate::strategy::{
    EntryMode, EntrySignal, LlmForecast, OrderSignal, OrderType, SpotSignalSnapshot,
};
use crate::text::{
    bool_str, bool_text, chars_of, join_texts, no_lines, push_line, replaced, strung, texts,
};
use crate::time::{rfc3339_millis, rfc3339_millis_of};
use crate::trader::WindowState;
use vstd::prelude::*;

verus! {

pub const ENTRY_HEADER: &'static str =
    "timestamp,window_id,slug,reason,entry_mode,entry_side,llm_side,llm_confidence,llm_strength,llm_reason,current_atr,up_ask,down_ask,budget_multiplier,cheaper_side_ratio,total_budget,buy_up_usd,buy_up_shares,buy_down_usd,buy_down_shares";

pub const LLM_FORECAST_HEADER: &'static str =
    "timestamp,window_id,slug,status,llm_side,llm_confidence,llm_strength,llm_reason,llm_risk,key_drivers,result_winner,result_correct,current_atr,secs_to_start,spot_price,spot_velocity_usd_per_sec,spot_smoothed_velocity_usd_per_sec,spot_acceleration_usd_per_sec2,up_bid,up_ask,down_bid,down_ask";

pub const SIGNAL_HEADER: &'static str =
    "timestamp,window_id,slug,action,order_type,side,amount,amount_kind,signal_shares,signal_usd_value,price,reason,executed,current_atr,secs_to_end,time_pct,spot_price,spot_velocity_usd_per_sec,spot_smoothed_velocity_usd_per_sec,spot_acceleration_usd_per_sec2,ptb,ptb_delta_usd,ptb_delta_pct,up_bid,up_ask,down_bid,down_ask,up_shares,down_shares,paired_shares,spent,returned,terminal_floor,terminal_floor_gap,mtm,unrealized_pnl";

pub const MID_CROSS_HEADER: &'static str =
    "timestamp,window_id,slug,event,from_side,to_side,up_mid,down_mid,lead_gap,peak_prev_gap,is_significant,cross_count,significant_cross_count,time_pct,secs_to_end,current_atr,spot_price,ptb,ptb_delta_usd,spot_velocity,spot_smoothed_velocity,spot_acceleration";

pub const MID_CROSS_SUMMARY_HEADER: &'static str =
    "timestamp,window_id,slug,cross_count,significant_cross_count,final_side,last_cross_atr";

pub const LIFECYCLE_HEADER: &'static str =
    "timestamp,window_id,slug,event,status_before,current_atr,spot_price,ptb,ptb_delta_usd,ptb_delta_pct,up_bid,up_ask,down_bid,down_ask";

/// Quotes doubled, line feeds turned into spaces.
pub open spec fn csv_escaped(s: Seq<char>) -> Seq<char>
    decreases s.len(),
{
    if s.len() == 0 {
        s
    } else if s.last() == '"' {
        csv_escaped(s.drop_last()).push('"').push('"')
    } else if s.last() == '\n' {
        csv_escaped(s.drop_last()).push(' ')
    } else {
        csv_escaped(s.drop_last()).push(s.last())
    }
}

/// Whether a cell has to stand in quotes.
pub open spec fn needs_quotes(s: Seq<char>) -> bool {
    s.contains(',') || s.contains('"') || s.contains('\r')
}

/// A text as one cell.
pub open spec fn csv_text(s: Seq<char>) -> Seq<char> {
    if needs_quotes(s) {
        seq!['"'] + csv_escaped(s) + seq!['"']
    } else {
        csv_escaped(s)
    }
}

pub fn csv_cell(value: &str) -> (r: String)
    ensures
        r@ == csv_text(value@),
{
    let v: Vec<char> = chars_of(value);
    let mut escaped: String = String::new();
    let mut quote: bool = false;
    let mut i: usize = 0;
    while i < v.len()
        invariant
            i <= v.len(),
            v@ == value@,
            escaped@ == csv_escaped(value@.take(i as int)),
            quote <==> exists|j: int|
                0 <= j < i && (#[trigger] value@[j] == ',' || value@[j] == '"' || value@[j] == '\r'),
        decreases v.len() - i,
    {
        let c: char = v[i];
        assert(value@.take(i + 1).drop_last() == value@.take(i as int));
        assert(value@.take(i + 1).last() == c);
        if c == '"' {
            escaped.push('"');
            escaped.push('"');
            quote = true;
            assert(value@[i as int] == '"');
        } else if c == '\n' {
            escaped.push(' ');
        } else {
            escaped.push(c);
            if c == ',' || c == '\r' {
                quote = true;
                assert(value@[i as int] == c);
            }
        }
        i = i + 1;
    }
    assert(value@.take(i as int) == value@);
    assert(quote == needs_quotes(value@)) by {
        if quote {
            let j = choose|j: int|
                0 <= j < i && (#[trigger] value@[j] == ',' || value@[j] == '"' || value@[j] == '\r');
            assert(value@.contains(value@[j]));
        }
    }
    if quote {
        let mut out: String = String::new();
        out.push('"');
        out.append(escaped.as_str());
        out.push('"');
        assert(out@ =~= seq!['"'] + escaped@ + seq!['"']);
        out
    } else {
        escaped
    }
}

/// A number with decimals, or nothing.
pub open spec fn opt_fixed_of(value: Option<Num>, places: nat) -> Seq<char> {
    match value {
        Some(v) => fixed_of(v, places),
        None => Seq::<char>::empty(),
    }
}

pub fn opt_fixed(value: Option<Num>, places: usize) -> (r: String)
    requires
        places <= 20,
    ensures
        r@ == opt_fixed_of(value, places as nat),
{
    match value {
        Some(v) => fixed(v, places),
        None => String::new(),
    }
}

/// The forecast behind a reference.
pub open spec fn owned_forecast(f: Option<&LlmForecast>) -> Option<LlmForecast> {
    match f {
        Some(x) => Some(*x),
        None => None,
    }
}

pub open spec fn forecast_side(f: Option<LlmForecast>) -> Seq<char> {
    match f {
        Some(x) => x.side@,
        None => Seq::<char>::empty(),
    }
}

pub open spec fn forecast_confidence(f: Option<LlmForecast>) -> Num {
    match f {
        Some(x) => x.confidence,
        None => Num::zero(),
    }
}

pub open spec fn forecast_strength(f: Option<LlmForecast>) -> Seq<char> {
    match f {
        Some(x) => x.signal_strength@,
        None => Seq::<char>::empty(),
    }
}

pub open spec fn forecast_reason(f: Option<LlmForecast>) -> Seq<char> {
    match f {
        Some(x) => x.reason_short@,
        None => Seq::<char>::empty(),
    }
}

pub open spec fn forecast_risk(f: Option<LlmForecast>) -> Seq<char> {
    match f {
        Some(x) => x.risk_note@,
        None => Seq::<char>::empty(),
    }
}

pub open spec fn forecast_drivers(f: Option<LlmForecast>) -> Seq<char> {
    match f {
        Some(x) => strung(texts(x.key_drivers@), " | "@),
        None => Seq::<char>::empty(),
    }
}

fn side_of(f: Option<&LlmForecast>) -> (r: String)
    ensures
        r@ == forecast_side(owned_forecast(f)),
{
    match f {
        Some(x) => x.side.as_str().to_owned(),
        None => String::new(),
    }
}

fn confidence_of(f: Option<&LlmForecast>) -> (r: Num)
    ensures
        r == forecast_confidence(owned_forecast(f)),
{
    match f {
        Some(x) => x.confidence,
        None => Num::zero(),
    }
}

fn strength_of(f: Option<&LlmForecast>) -> (r: String)
    ensures
        r@ == forecast_strength(owned_forecast(f)),
{
    match f {
        Some(x) => x.signal_strength.as_str().to_owned(),
        None => String::new(),
    }
}

fn reason_of(f: Option<&LlmForecast>) -> (r: String)
    ensures
        r@ == forecast_reason(owned_forecast(f)),
{
    match f {
        Some(x) => x.reason_short.as_str().to_owned(),
        None => String::new(),
    }
}

fn risk_of(f: Option<&LlmForecast>) -> (r: String)
    ensures
        r@ == forecast_risk(owned_forecast(f)),
{
    match f {
        Some(x) => x.risk_note.as_str().to_owned(),
        None => String::new(),
    }
}

fn drivers_of(f: Option<&LlmForecast>) -> (r: String)
    ensures
        r@ == forecast_drivers(owned_forecast(f)),
{
    match f {
        Some(x) => join_texts(&x.key_drivers, " | "),
        None => String::new(),
    }
}

/// Distance of the spot from the price to beat; none without a spot or a positive price.
pub open spec fn ptb_gap(spot_price: Option<Num>, price_to_beat: Option<Num>) -> Option<Num> {
    match (spot_price, price_to_beat) {
        (Some(spot), Some(ptb)) => if ptb.gt(Num::zero()) {
            Some(spot - ptb)
        } else {
            None
        },
        _ => None,
    }
}

/// The same in percent of the price to beat.
pub open spec fn ptb_gap_pct(spot_price: Option<Num>, price_to_beat: Option<Num>) -> Option<Num> {
    match (spot_price, price_to_beat) {
        (Some(spot), Some(ptb)) => if ptb.gt(Num::zero()) {
            Some((spot - ptb) / ptb * Num::uint(100))
        } else {
            None
        },
        _ => None,
    }
}

fn gap_to_beat(spot_price: Option<Num>, price_to_beat: Option<Num>) -> (r: (
    Option<Num>,
    Option<Num>,
))
    ensures
        r.0 == ptb_gap(spot_price, price_to_beat),
        r.1 == ptb_gap_pct(spot_price, price_to_beat),
{
    match (spot_price, price_to_beat) {
        (Some(spot), Some(ptb)) => {
            if ptb.gt(Num::zero()) {
                let delta: Num = spot - ptb;
                (Some(delta), Some(delta / ptb * Num::uint(100)))
            } else {
                (None, None)
            }
        },
        _ => (None, None),
    }
}

pub open spec fn order_type_text(t: OrderType) -> Seq<char> {
    match t {
        OrderType::Market => "market"@,
        OrderType::Limit => "limit"@,
    }
}

pub fn order_type_label(t: OrderType) -> (r: &'static str)
    ensures
        r@ == order_type_text(t),
{
    match t {
        OrderType::Market => "market",
        OrderType::Limit => "limit",
    }
}

/// Shares of a signal: what its USD buy, or what it sells.
pub open spec fn signal_shares(sig: OrderSignal) -> Num {
    if sig.is_buy {
        shares_for(sig.amount, sig.price)
    } else {
        sig.amount
    }
}

/// USD of a signal.
pub open spec fn signal_usd(sig: OrderSignal) -> Num {
    if sig.is_buy {
        sig.amount
    } else {
        sig.amount * sig.price
    }
}

/// What the shares of a window would sell for.
pub open spec fn marked_value(w: WindowState, prices: PricesState) -> Num {
    w.up_shares * prices.up.bid + w.down_shares * prices.down.bid
}

pub open spec fn lead_text(s: LeadSide) -> Seq<char> {
    match s {
        LeadSide::Up => "UP"@,
        LeadSide::Down => "DOWN"@,
        LeadSide::Tie => "TIE"@,
    }
}

pub open spec fn opt_lead(s: Option<LeadSide>, other: Seq<char>) -> Seq<char> {
    match s {
        Some(x) => lead_text(x),
        None => other,
    }
}

pub fn lead_or(s: Option<LeadSide>, other: &str) -> (r: String)
    ensures
        r@ == opt_lead(s, other@),
{
    match s {
        Some(x) => x.as_str().to_owned(),
        None => other.to_owned(),
    }
}

/// The columns of an entry.
pub open spec fn entry_cells(
    now_ms: i64,
    window_number: usize,
    slug: Seq<char>,
    entry: EntrySignal,
    forecast: Option<LlmForecast>,
    current_atr: Num,
    total_budget: Num,
    buy_up_usd: Num,
    buy_down_usd: Num,
) -> Seq<Seq<char>> {
    seq![
        int_text_of(now_ms as int),
        dec_text(window_number as int),
        slug,
        csv_text(entry.reason@),
        match entry.mode {
            EntryMode::Both => "both"@,
            EntryMode::OneSide(_) => "one_side"@,
        },
        match one_side(entry.mode) {
            Some(s) => s,
            None => Seq::<char>::empty(),
        },
        forecast_side(forecast),
        fixed_of(forecast_confidence(forecast), 4),
        forecast_strength(forecast),
        csv_text(forecast_reason(forecast)),
        fixed_of(current_atr, 4),
        fixed_of(entry.up_ask, 4),
        fixed_of(entry.down_ask, 4),
        fixed_of(entry.budget_multiplier, 4),
        fixed_of(entry.cheaper_side_ratio, 4),
        fixed_of(total_budget, 4),
        fixed_of(buy_up_usd, 4),
        fixed_of(shares_for(buy_up_usd, entry.up_ask), 8),
        fixed_of(buy_down_usd, 4),
        fixed_of(shares_for(buy_down_usd, entry.down_ask), 8),
    ]
}

pub fn entry_row(
    now_ms: i64,
    window_number: usize,
    slug: &str,
    entry: &EntrySignal,
    forecast: Option<&LlmForecast>,
    current_atr: Num,
    total_budget: Num,
    buy_up_usd: Num,
    buy_down_usd: Num,
) -> (r: String)
    ensures
        r@ == strung(entry_cells(now_ms, window_number, slug@, *entry, owned_forecast(forecast), current_atr, total_budget, buy_up_usd, buy_down_usd), ","@),
{
    let (mode, side): (&str, String) = match &entry.mode {
        EntryMode::Both => ("both", String::new()),
        EntryMode::OneSide(s) => ("one_side", s.as_str().to_owned()),
    };
    let mut cells: Vec<String> = no_lines();
    push_line(&mut cells, int_text(now_ms));
    push_line(&mut cells, uint_text(window_number as u64));
    push_line(&mut cells, slug.to_owned());
    push_line(&mut cells, csv_cell(entry.reason.as_str()));
    push_line(&mut cells, mode.to_owned());
    push_line(&mut cells, side);
    push_line(&mut cells, side_of(forecast));
    push_line(&mut cells, fixed(confidence_of(forecast), 4));
    push_line(&mut cells, strength_of(forecast));
    push_line(&mut cells, csv_cell(reason_of(forecast).as_str()));
    push_line(&mut cells, fixed(current_atr, 4));
    push_line(&mut cells, fixed(entry.up_ask, 4));
    push_line(&mut cells, fixed(entry.down_ask, 4));
    push_line(&mut cells, fixed(entry.budget_multiplier, 4));
    push_line(&mut cells, fixed(entry.cheaper_side_ratio, 4));
    push_line(&mut cells, fixed(total_budget, 4));
    push_line(&mut cells, fixed(buy_up_usd, 4));
    push_line(&mut cells, fixed(shares_at(buy_up_usd, entry.up_ask), 8));
    push_line(&mut cells, fixed(buy_down_usd, 4));
    push_line(&mut cells, fixed(shares_at(buy_down_usd, entry.down_ask), 8));
    assert(texts(cells@) =~= entry_cells(
        now_ms,
        window_number,
        slug@,
        *entry,
        owned_forecast(forecast),
        current_atr,
        total_budget,
        buy_up_usd,
        buy_down_usd,
    ));
    join_texts(&cells, ",")
}

/// The columns of a forecast event. A result names the winner and whether the forecast was right.
pub open spec fn llm_forecast_cells(
    now_ms: i64,
    window_number: usize,
    slug: Seq<char>,
    forecast: Option<LlmForecast>,
    status: Seq<char>,
    current_atr: Num,
    secs_to_start: i64,
    spot_price: Option<Num>,
    prices: PricesState,
    spot_signal: SpotSignalSnapshot,
    result_winner: Seq<char>,
    result_correct: Option<bool>,
) -> Seq<Seq<char>> {
    seq![
        int_text_of(now_ms as int),
        dec_text(window_number as int),
        slug,
        csv_text(status),
        forecast_side(forecast),
        fixed_of(forecast_confidence(forecast), 4),
        forecast_strength(forecast),
        csv_text(forecast_reason(forecast)),
        csv_text(forecast_risk(forecast)),
        csv_text(forecast_drivers(forecast)),
        result_winner,
        match result_correct {
            Some(c) => bool_text(c),
            None => Seq::<char>::empty(),
        },
        fixed_of(current_atr, 4),
        int_text_of(secs_to_start as int),
        opt_fixed_of(spot_price, 4),
        opt_fixed_of(spot_signal.raw_velocity_usd_per_sec, 6),
        opt_fixed_of(spot_signal.smoothed_velocity_usd_per_sec, 6),
        opt_fixed_of(spot_signal.acceleration_usd_per_sec2, 6),
        fixed_of(prices.up.bid, 4),
        fixed_of(prices.up.ask, 4),
        fixed_of(prices.down.bid, 4),
        fixed_of(prices.down.ask, 4),
    ]
}

pub fn llm_forecast_row(
    now_ms: i64,
    window_number: usize,
    slug: &str,
    forecast: Option<&LlmForecast>,
    status: &str,
    current_atr: Num,
    secs_to_start: i64,
    spot_price: Option<Num>,
    prices: &PricesState,
    spot_signal: SpotSignalSnapshot,
    result_winner: &str,
    result_correct: Option<bool>,
) -> (r: String)
    ensures
        r@ == strung(llm_forecast_cells(now_ms, window_number, slug@, owned_forecast(forecast), status@, current_atr, secs_to_start, spot_price, *prices, spot_signal, result_winner@, result_correct), ","@),
{
    let mut cells: Vec<String> = no_lines();
    push_line(&mut cells, int_text(now_ms));
    push_line(&mut cells, uint_text(window_number as u64));
    push_line(&mut cells, slug.to_owned());
    push_line(&mut cells, csv_cell(status));
    push_line(&mut cells, side_of(forecast));
    push_line(&mut cells, fixed(confidence_of(forecast), 4));
    push_line(&mut cells, strength_of(forecast));
    push_line(&mut cells, csv_cell(reason_of(forecast).as_str()));
    push_line(&mut cells, csv_cell(risk_of(forecast).as_str()));
    push_line(&mut cells, csv_cell(drivers_of(forecast).as_str()));
    push_line(&mut cells, result_winner.to_owned());
    push_line(&mut cells, match result_correct {
            Some(c) => bool_str(c).to_owned(),
            None => String::new(),
        });
    push_line(&mut cells, fixed(current_atr, 4));
    push_line(&mut cells, int_text(secs_to_start));
    push_line(&mut cells, opt_fixed(spot_price, 4));
    push_line(&mut cells, opt_fixed(spot_signal.raw_velocity_usd_per_sec, 6));
    push_line(&mut cells, opt_fixed(spot_signal.smoothed_velocity_usd_per_sec, 6));
    push_line(&mut cells, opt_fixed(spot_signal.acceleration_usd_per_sec2, 6));
    push_line(&mut cells, fixed(prices.up.bid, 4));
    push_line(&mut cells, fixed(prices.up.ask, 4));
    push_line(&mut cells, fixed(prices.down.bid, 4));
    push_line(&mut cells, fixed(prices.down.ask, 4));
    assert(texts(cells@) =~= llm_forecast_cells(
        now_ms,
        window_number,
        slug@,
        owned_forecast(forecast),
        status@,
        current_atr,
        secs_to_start,
        spot_price,
        *prices,
        spot_signal,
        result_winner@,
        result_correct,
    ));
    join_texts(&cells, ",")
}

/// The columns of a signal's order.
pub open spec fn order_cells(
    now_ms: i64,
    window_number: usize,
    market: MarketWindow,
    sig: OrderSignal,
    executed: bool,
) -> Seq<Seq<char>> {
    seq![
        int_text_of(now_ms as int),
        dec_text(window_number as int),
        market.slug@,
        if sig.is_buy {
            "BUY"@
        } else {
            "SELL"@
        },
        order_type_text(sig.order_type),
        sig.side@,
        fixed_of(sig.amount, 8),
        if sig.is_buy {
            "usd"@
        } else {
            "shares"@
        },
        fixed_of(signal_shares(sig), 8),
        fixed_of(signal_usd(sig), 4),
        fixed_of(sig.price, 4),
        sig.reason@,
        bool_text(executed),
    ]
}

fn push_order_cells(
    cells: &mut Vec<String>,
    now_ms: i64,
    window_number: usize,
    market: &MarketWindow,
    sig: &OrderSignal,
    executed: bool,
)
    ensures
        texts(final(cells)@) == texts(old(cells)@) + order_cells(
            now_ms,
            window_number,
            *market,
            *sig,
            executed,
        ),
{
    let ghost before = texts(cells@);
    let (shares, usd): (Num, Num) = if sig.is_buy {
        (shares_at(sig.amount, sig.price), sig.amount)
    } else {
        (sig.amount, sig.amount * sig.price)
    };
    push_line(cells, int_text(now_ms));
    push_line(cells, uint_text(window_number as u64));
    push_line(cells, market.slug.as_str().to_owned());
    push_line(cells, if sig.is_buy {
        "BUY".to_owned()
    } else {
        "SELL".to_owned()
    });
    push_line(cells, order_type_label(sig.order_type).to_owned());
    push_line(cells, sig.side.as_str().to_owned());
    push_line(cells, fixed(sig.amount, 8));
    push_line(cells, if sig.is_buy {
        "usd".to_owned()
    } else {
        "shares".to_owned()
    });
    push_line(cells, fixed(shares, 8));
    push_line(cells, fixed(usd, 4));
    push_line(cells, fixed(sig.price, 4));
    push_line(cells, sig.reason.as_str().to_owned());
    push_line(cells, bool_str(executed).to_owned());
    assert(texts(cells@) =~= before + order_cells(now_ms, window_number, *market, *sig, executed));
}

/// The columns of the market at a signal.
pub open spec fn market_cells(
    current_atr: Num,
    secs_to_end: i64,
    time_pct: Num,
    spot_price: Option<Num>,
    spot_signal: SpotSignalSnapshot,
    market: MarketWindow,
    prices: PricesState,
) -> Seq<Seq<char>> {
    seq![
        fixed_of(current_atr, 4),
        int_text_of(secs_to_end as int),
        fixed_of(time_pct, 2),
        opt_fixed_of(spot_price, 4),
        opt_fixed_of(spot_signal.raw_velocity_usd_per_sec, 6),
        opt_fixed_of(spot_signal.smoothed_velocity_usd_per_sec, 6),
        opt_fixed_of(spot_signal.acceleration_usd_per_sec2, 6),
        opt_fixed_of(market.price_to_beat, 4),
        opt_fixed_of(ptb_gap(spot_price, market.price_to_beat), 4),
        opt_fixed_of(ptb_gap_pct(spot_price, market.price_to_beat), 6),
        fixed_of(prices.up.bid, 4),
        fixed_of(prices.up.ask, 4),
        fixed_of(prices.down.bid, 4),
        fixed_of(prices.down.ask, 4),
    ]
}

fn push_market_cells(
    cells: &mut Vec<String>,
    current_atr: Num,
    secs_to_end: i64,
    time_pct: Num,
    spot_price: Option<Num>,
    spot_signal: SpotSignalSnapshot,
    market: &MarketWindow,
    prices: &PricesState,
)
    ensures
        texts(final(cells)@) == texts(old(cells)@) + market_cells(
            current_atr,
            secs_to_end,
            time_pct,
            spot_price,
            spot_signal,
            *market,
            *prices,
        ),
{
    let ghost before = texts(cells@);
    let (gap, gap_pct): (Option<Num>, Option<Num>) = gap_to_beat(spot_price, market.price_to_beat);
    push_line(cells, fixed(current_atr, 4));
    push_line(cells, int_text(secs_to_end));
    push_line(cells, fixed(time_pct, 2));
    push_line(cells, opt_fixed(spot_price, 4));
    push_line(cells, opt_fixed(spot_signal.raw_velocity_usd_per_sec, 6));
    push_line(cells, opt_fixed(spot_signal.smoothed_velocity_usd_per_sec, 6));
    push_line(cells, opt_fixed(spot_signal.acceleration_usd_per_sec2, 6));
    push_line(cells, opt_fixed(market.price_to_beat, 4));
    push_line(cells, opt_fixed(gap, 4));
    push_line(cells, opt_fixed(gap_pct, 6));
    push_line(cells, fixed(prices.up.bid, 4));
    push_line(cells, fixed(prices.up.ask, 4));
    push_line(cells, fixed(prices.down.bid, 4));
    push_line(cells, fixed(prices.down.ask, 4));
    assert(texts(cells@) =~= before + market_cells(
        current_atr,
        secs_to_end,
        time_pct,
        spot_price,
        spot_signal,
        *market,
        *prices,
    ));
}

/// The columns of the window's position at a signal.
pub open spec fn position_cells(win_state: WindowState, prices: PricesState) -> Seq<Seq<char>> {
    seq![
        fixed_of(win_state.up_shares, 8),
        fixed_of(win_state.down_shares, 8),
        fixed_of(win_state.up_shares.min(win_state.down_shares), 8),
        fixed_of(win_state.spent, 4),
        fixed_of(win_state.cash_returned, 4),
        fixed_of(win_state.cash_returned + win_state.up_shares.min(win_state.down_shares), 4),
        fixed_of(
            win_state.cash_returned + win_state.up_shares.min(win_state.down_shares) - win_state.spent,
            4,
        ),
        fixed_of(marked_value(win_state, prices), 4),
        fixed_of(win_state.cash_returned + marked_value(win_state, prices) - win_state.spent, 4),
    ]
}

fn push_position_cells(
    cells: &mut Vec<String>,
    win_state: &WindowState,
    prices: &PricesState,
)
    ensures
        texts(final(cells)@) == texts(old(cells)@) + position_cells(*win_state, *prices),
{
    let ghost before = texts(cells@);
    let mtm: Num = win_state.up_shares * prices.up.bid + win_state.down_shares * prices.down.bid;
    let paired_shares: Num = win_state.up_shares.min(win_state.down_shares);
    let terminal_floor: Num = win_state.cash_returned + paired_shares;
    push_line(cells, fixed(win_state.up_shares, 8));
    push_line(cells, fixed(win_state.down_shares, 8));
    push_line(cells, fixed(paired_shares, 8));
    push_line(cells, fixed(win_state.spent, 4));
    push_line(cells, fixed(win_state.cash_returned, 4));
    push_line(cells, fixed(terminal_floor, 4));
    push_line(cells, fixed(terminal_floor - win_state.spent, 4));
    push_line(cells, fixed(mtm, 4));
    push_line(cells, fixed(win_state.cash_returned + mtm - win_state.spent, 4));
    assert(texts(cells@) =~= before + position_cells(*win_state, *prices));
}

/// The columns of a strategy signal: its order, the market and the position.
pub open spec fn signal_cells(
    now_ms: i64,
    window_number: usize,
    sig: OrderSignal,
    executed: bool,
    current_atr: Num,
    spot_price: Option<Num>,
    market: MarketWindow,
    prices: PricesState,
    win_state: WindowState,
    secs_to_end: i64,
    time_pct: Num,
    spot_signal: SpotSignalSnapshot,
) -> Seq<Seq<char>> {
    order_cells(now_ms, window_number, market, sig, executed) + market_cells(
        current_atr,
        secs_to_end,
        time_pct,
        spot_price,
        spot_signal,
        market,
        prices,
    ) + position_cells(win_state, prices)
}

pub fn signal_row(
    now_ms: i64,
    window_number: usize,
    sig: &OrderSignal,
    executed: bool,
    current_atr: Num,
    spot_price: Option<Num>,
    market: &MarketWindow,
    prices: &PricesState,
    win_state: &WindowState,
    secs_to_end: i64,
    time_pct: Num,
    spot_signal: SpotSignalSnapshot,
) -> (r: String)
    ensures
        r@ == strung(signal_cells(now_ms, window_number, *sig, executed, current_atr, spot_price, *market, *prices, *win_state, secs_to_end, time_pct, spot_signal), ","@),
{
    let mut cells: Vec<String> = no_lines();
    push_order_cells(&mut cells, now_ms, window_number, market, sig, executed);
    push_market_cells(
        &mut cells,
        current_atr,
        secs_to_end,
        time_pct,
        spot_price,
        spot_signal,
        market,
        prices,
    );
    push_position_cells(&mut cells, win_state, prices);
    assert(texts(cells@) =~= signal_cells(
        now_ms,
        window_number,
        *sig,
        executed,
        current_atr,
        spot_price,
        *market,
        *prices,
        *win_state,
        secs_to_end,
        time_pct,
        spot_signal,
    ));
    join_texts(&cells, ",")
}

/// The columns of a lead change.
pub open spec fn mid_cross_cells(
    now_ms: i64,
    window_number: usize,
    slug: Seq<char>,
    event: MidCrossEvent,
    spot_price: Option<Num>,
    price_to_beat: Option<Num>,
    spot_signal: SpotSignalSnapshot,
) -> Seq<Seq<char>> {
    seq![
        int_text_of(now_ms as int),
        dec_text(window_number as int),
        slug,
        event.event@,
        opt_lead(event.from_side, Seq::<char>::empty()),
        lead_text(event.to_side),
        fixed_of(event.up_mid, 4),
        fixed_of(event.down_mid, 4),
        fixed_of(event.lead_gap, 4),
        fixed_of(event.peak_prev_gap, 4),
        bool_text(event.is_significant),
        dec_text(event.cross_count as int),
        dec_text(event.significant_cross_count as int),
        fixed_of(event.time_pct, 2),
        int_text_of(event.secs_to_end as int),
        fixed_of(event.current_atr, 4),
        opt_fixed_of(spot_price, 4),
        opt_fixed_of(price_to_beat, 4),
        opt_fixed_of(ptb_gap(spot_price, price_to_beat), 4),
        opt_fixed_of(spot_signal.raw_velocity_usd_per_sec, 6),
        opt_fixed_of(spot_signal.smoothed_velocity_usd_per_sec, 6),
        opt_fixed_of(spot_signal.acceleration_usd_per_sec2, 6),
    ]
}

pub fn mid_cross_row(
    now_ms: i64,
    window_number: usize,
    slug: &str,
    event: &MidCrossEvent,
    spot_price: Option<Num>,
    price_to_beat: Option<Num>,
    spot_signal: SpotSignalSnapshot,
) -> (r: String)
    ensures
        r@ == strung(mid_cross_cells(now_ms, window_number, slug@, *event, spot_price, price_to_beat, spot_signal), ","@),
{
    let (gap, _): (Option<Num>, Option<Num>) = gap_to_beat(spot_price, price_to_beat);
    proof {
        reveal_strlit("");
        assert(""@ =~= Seq::<char>::empty());
    }
    let mut cells: Vec<String> = no_lines();
    push_line(&mut cells, int_text(now_ms));
    push_line(&mut cells, uint_text(window_number as u64));
    push_line(&mut cells, slug.to_owned());
    push_line(&mut cells, event.event.to_owned());
    push_line(&mut cells, lead_or(event.from_side, ""));
    push_line(&mut cells, event.to_side.as_str().to_owned());
    push_line(&mut cells, fixed(event.up_mid, 4));
    push_line(&mut cells, fixed(event.down_mid, 4));
    push_line(&mut cells, fixed(event.lead_gap, 4));
    push_line(&mut cells, fixed(event.peak_prev_gap, 4));
    push_line(&mut cells, bool_str(event.is_significant).to_owned());
    push_line(&mut cells, uint_text(event.cross_count as u64));
    push_line(&mut cells, uint_text(event.significant_cross_count as u64));
    push_line(&mut cells, fixed(event.time_pct, 2));
    push_line(&mut cells, int_text(event.secs_to_end));
    push_line(&mut cells, fixed(event.current_atr, 4));
    push_line(&mut cells, opt_fixed(spot_price, 4));
    push_line(&mut cells, opt_fixed(price_to_beat, 4));
    push_line(&mut cells, opt_fixed(gap, 4));
    push_line(&mut cells, opt_fixed(spot_signal.raw_velocity_usd_per_sec, 6));
    push_line(&mut cells, opt_fixed(spot_signal.smoothed_velocity_usd_per_sec, 6));
    push_line(&mut cells, opt_fixed(spot_signal.acceleration_usd_per_sec2, 6));
    assert(texts(cells@) =~= mid_cross_cells(
        now_ms,
        window_number,
        slug@,
        *event,
        spot_price,
        price_to_beat,
        spot_signal,
    ));
    join_texts(&cells, ",")
}

/// The columns of a window's lead changes. `shown_atr` is the volatility at the last one
/// in its shortest form.
pub open spec fn mid_cross_summary_cells(
    now_ms: i64,
    window_number: usize,
    slug: Seq<char>,
    summary: MidCrossWindowSummary,
    shown_atr: Seq<char>,
) -> Seq<Seq<char>> {
    seq![
        int_text_of(now_ms as int),
        dec_text(window_number as int),
        slug,
        dec_text(summary.cross_count as int),
        dec_text(summary.significant_cross_count as int),
        opt_lead(summary.final_side, Seq::<char>::empty()),
        shown_atr,
    ]
}

pub fn mid_cross_summary_row(
    now_ms: i64,
    window_number: usize,
    slug: &str,
    summary: &MidCrossWindowSummary,
    shown_atr: &str,
) -> (r: String)
    ensures
        r@ == strung(mid_cross_summary_cells(now_ms, window_number, slug@, *summary, shown_atr@), ","@),
{
    proof {
        reveal_strlit("");
        assert(""@ =~= Seq::<char>::empty());
    }
    let mut cells: Vec<String> = no_lines();
    push_line(&mut cells, int_text(now_ms));
    push_line(&mut cells, uint_text(window_number as u64));
    push_line(&mut cells, slug.to_owned());
    push_line(&mut cells, uint_text(summary.cross_count as u64));
    push_line(&mut cells, uint_text(summary.significant_cross_count as u64));
    push_line(&mut cells, lead_or(summary.final_side, ""));
    push_line(&mut cells, shown_atr.to_owned());
    assert(texts(cells@) =~= mid_cross_summary_cells(now_ms, window_number, slug@, *summary, shown_atr@));
    join_texts(&cells, ",")
}

/// The columns of a window's promotion.
pub open spec fn lifecycle_cells(
    now_ms: i64,
    window_number: usize,
    market: MarketWindow,
    event: Seq<char>,
    status_before: Seq<char>,
    current_atr: Num,
    spot_price: Option<Num>,
    prices: PricesState,
) -> Seq<Seq<char>> {
    seq![
        int_text_of(now_ms as int),
        dec_text(window_number as int),
        market.slug@,
        event,
        status_before,
        fixed_of(current_atr, 4),
        opt_fixed_of(spot_price, 4),
        opt_fixed_of(market.price_to_beat, 4),
        opt_fixed_of(ptb_gap(spot_price, market.price_to_beat), 4),
        opt_fixed_of(ptb_gap_pct(spot_price, market.price_to_beat), 6),
        fixed_of(prices.up.bid, 4),
        fixed_of(prices.up.ask, 4),
        fixed_of(prices.down.bid, 4),
        fixed_of(prices.down.ask, 4),
    ]
}

pub fn lifecycle_row(
    now_ms: i64,
    window_number: usize,
    market: &MarketWindow,
    event: &str,
    status_before: &str,
    current_atr: Num,
    spot_price: Option<Num>,
    prices: &PricesState,
) -> (r: String)
    ensures
        r@ == strung(lifecycle_cells(now_ms, window_number, *market, event@, status_before@, current_atr, spot_price, *prices), ","@),
{
    let (gap, gap_pct): (Option<Num>, Option<Num>) = gap_to_beat(spot_price, market.price_to_beat);
    let mut cells: Vec<String> = no_lines();
    push_line(&mut cells, int_text(now_ms));
    push_line(&mut cells, uint_text(window_number as u64));
    push_line(&mut cells, market.slug.as_str().to_owned());
    push_line(&mut cells, event.to_owned());
    push_line(&mut cells, status_before.to_owned());
    push_line(&mut cells, fixed(current_atr, 4));
    push_line(&mut cells, opt_fixed(spot_price, 4));
    push_line(&mut cells, opt_fixed(market.price_to_beat, 4));
    push_line(&mut cells, opt_fixed(gap, 4));
    push_line(&mut cells, opt_fixed(gap_pct, 6));
    push_line(&mut cells, fixed(prices.up.bid, 4));
    push_line(&mut cells, fixed(prices.up.ask, 4));
    push_line(&mut cells, fixed(prices.down.bid, 4));
    push_line(&mut cells, fixed(prices.down.ask, 4));
    assert(texts(cells@) =~= lifecycle_cells(
        now_ms,
        window_number,
        *market,
        event@,
        status_before@,
        current_atr,
        spot_price,
        *prices,
    ));
    join_texts(&cells, ",")
}

/// The length of a window in seconds, 900 where a time is unknown; none where it would
/// end before it starts.
pub open spec fn signal_span(start_ms: Option<i64>, end_ms: Option<i64>) -> Option<Num> {
    match (start_ms, end_ms) {
        (Some(s), Some(e)) => if e < s {
            None
        } else {
            Some(Num::whole((e - s) as i64) / Num::uint(1000))
        },
        _ => Some(Num::uint(900_000) / Num::uint(1000)),
    }
}

pub fn signal_seconds(start_ms: Option<i64>, end_ms: Option<i64>) -> (r: Option<Num>)
    requires
        start_ms is Some && end_ms is Some ==> end_ms->0 - start_ms->0 <= i64::MAX,
    ensures
        r == signal_span(start_ms, end_ms),
{
    match (start_ms, end_ms) {
        (Some(s), Some(e)) => if e < s {
            None
        } else {
            Some(Num::whole(e - s) / Num::uint(1000))
        },
        _ => Some(Num::uint(900_000) / Num::uint(1000)),
    }
}

/// Milliseconds that are not negative make seconds that are not negative.
proof fn lemma_span(start_ms: Option<i64>, end_ms: Option<i64>)
    requires
        signal_span(start_ms, end_ms) is Some,
        start_ms is Some && end_ms is Some ==> end_ms->0 - start_ms->0 <= i64::MAX,
    ensures
        signal_span(start_ms, end_ms)->0.ge(Num::zero()),
{
    let n: i64 = match (start_ms, end_ms) {
        (Some(s), Some(e)) => (e - s) as i64,
        _ => 900_000,
    };
    lemma_thousand();
    lemma_whole_is_uint(n);
    lemma_uint_is_ratio(n as u64);
    lemma_ratio_nonneg(n as u64, 1);
    lemma_quotient_nonneg(Num::whole(n), Num::uint(1000));
    assert(signal_span(start_ms, end_ms)->0 == Num::whole(n) / Num::uint(1000));
}

/// The row of a signal in its market's window; none for a market that ends before it
/// starts.
pub fn signal_event_row(
    now_ms: i64,
    window_number: usize,
    sig: &OrderSignal,
    executed: bool,
    current_atr: Num,
    spot_price: Option<Num>,
    market: &MarketWindow,
    prices: &PricesState,
    win_state: &WindowState,
    secs_to_end: i64,
    spot_signal: SpotSignalSnapshot,
) -> (r: Option<String>)
    ensures
        match (
            r,
            signal_span(
                rfc3339_millis_of(market.start_time@),
                rfc3339_millis_of(market.end_time@),
            ),
        ) {
            (Some(t), Some(span)) => t@ == strung(
                signal_cells(
                    now_ms,
                    window_number,
                    *sig,
                    executed,
                    current_atr,
                    spot_price,
                    *market,
                    *prices,
                    *win_state,
                    secs_to_end,
                    elapsed_pct(span, secs_to_end),
                    spot_signal,
                ),
                ","@,
            ),
            (None, None) => true,
            _ => false,
        },
{
    let start: Option<i64> = rfc3339_millis(market.start_time.as_str());
    let end: Option<i64> = rfc3339_millis(market.end_time.as_str());
    match signal_seconds(start, end) {
        Some(duration_sec) => {
            proof {
                lemma_span(start, end);
            }
            let time_pct: Num = elapsed_pct(duration_sec, secs_to_end);
            Some(
                signal_row(
                    now_ms,
                    window_number,
                    sig,
                    executed,
                    current_atr,
                    spot_price,
                    market,
                    prices,
                    win_state,
                    secs_to_end,
                    time_pct,
                    spot_signal,
                ),
            )
        },
        None => None,
    }
}

/// Doubled quotes made single.
pub open spec fn undoubled(s: Seq<char>) -> Seq<char>
    decreases s.len(),
{
    if s.len() == 0 {
        s
    } else if s.len() >= 2 && s.last() == '"' && s[s.len() - 2] == '"' {
        undoubled(s.take(s.len() - 2)).push('"')
    } else {
        undoubled(s.drop_last()).push(s.last())
    }
}

/// What a reader makes of a cell.
pub open spec fn csv_read(cell: Seq<char>) -> Seq<char> {
    if cell.len() >= 2 && cell[0] == '"' {
        undoubled(cell.subrange(1, cell.len() - 1))
    } else {
        cell
    }
}

proof fn lemma_escaped(s: Seq<char>)
    ensures
        undoubled(csv_escaped(s)) == replaced(s, '\n', ' '),
        !csv_escaped(s).contains('\n'),
        !s.contains('"') ==> csv_escaped(s) == replaced(s, '\n', ' '),
    decreases s.len(),
{
    let want = replaced(s, '\n', ' ');
    if s.len() == 0 {
        assert(want =~= s);
    } else {
        let d = s.drop_last();
        let e = csv_escaped(d);
        lemma_escaped(d);
        assert(want.drop_last() =~= replaced(d, '\n', ' '));
        assert(want =~= want.drop_last().push(want.last()));
        if !s.contains('"') {
            assert forall|c: char| d.contains(c) implies s.contains(c) by {
                let j = choose|j: int| 0 <= j < d.len() && d[j] == c;
                assert(s[j] == c);
            }
            assert(s.contains(s.last()));
        }
        if s.last() == '"' {
            let two = e.push('"').push('"');
            assert(two.take(two.len() - 2) =~= e);
        } else {
            let c = if s.last() == '\n' {
                ' '
            } else {
                s.last()
            };
            assert(e.push(c).drop_last() =~= e);
        }
        assert forall|j: int| 0 <= j < csv_escaped(s).len() implies csv_escaped(s)[j] != '\n' by {
            if j < e.len() {
                assert(csv_escaped(s)[j] == e[j]);
                assert(e.contains(e[j]));
            }
        }
    }
}

/// A cell stands on one line, and a reader gets back the text, with spaces for its line
/// feeds.
pub proof fn law_cell_reads_back(s: Seq<char>)
    ensures
        csv_read(csv_text(s)) == replaced(s, '\n', ' '),
        !csv_text(s).contains('\n'),
{
    lemma_escaped(s);
    let e = csv_escaped(s);
    let cell = csv_text(s);
    if needs_quotes(s) {
        assert(cell.subrange(1, cell.len() - 1) =~= e);
        assert forall|j: int| 0 <= j < cell.len() implies cell[j] != '\n' by {
            if 1 <= j < cell.len() - 1 {
                assert(cell[j] == e[j - 1]);
                assert(e.contains(e[j - 1]));
            }
        }
    } else {
        if cell.len() >= 1 {
            assert(cell[0] != '"') by {
                assert(s.len() > 0);
                assert(s.contains(s[0]));
                assert(cell[0] == replaced(s, '\n', ' ')[0]);
            }
        }
    }
}

} // verus!
