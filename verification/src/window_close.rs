//! Closing a window: its winner, its figures, and the lines that report it.
use crate::h_stats::{close_stats, derive_h_close_stats, HCloseStats};
use crate::llm_context::{first_bought, first_buy};
use crate::mid_cross_tracker::{elapsed_pct, market_span, time_pct_for, MidCrossSnapshot};
use crate::num::Num;
use crate::num_ops::lemma_ratio_mono;
use crate::number_format::{dec_text, signed_fixed, signed_fixed_of, uint_text};
use crate::number_text::{int_of_text, parse_int};
use crate::redeem_hold::{
    evaluate_redeem_hold, expected_move_usd, holds, itm_gap, itm_gap_z, RedeemHoldInput,
};
use crate::text::{bool_str, bool_text, fill, filled, views};
use crate::time::{rfc3339_hour, rfc3339_hour_of};
use crate::trader::{TradeRecord, WindowState};
use vstd::prelude::*;

verus! {

/// The figures of a window at its close.
#[derive(Debug, Clone)]
pub struct WindowCloseMeta {
    pub strategy_name: String,
    pub utc_hour: u32,
    pub time_pct_at_close: Num,
    pub final_gap_z: Option<Num>,
    pub final_atr: Num,
    pub mid_cross_count: u32,
    pub significant_mid_cross_count: u32,
    pub entry_side: String,
    pub entry_reason: String,
    pub would_redeem_hold: bool,
}

/// The side that a window pays: UP above the price to beat, DOWN at or below it; none
/// without a spot or a positive price to beat.
pub open spec fn winner_of(spot_price: Option<Num>, price_to_beat: Option<Num>) -> Seq<char> {
    match (spot_price, price_to_beat) {
        (Some(spot), Some(ptb)) => if ptb.gt(Num::zero()) {
            if spot.gt(ptb) {
                "UP"@
            } else {
                "DOWN"@
            }
        } else {
            ""@
        },
        _ => ""@,
    }
}

pub fn close_winner(spot_price: Option<Num>, price_to_beat: Option<Num>) -> (r: &'static str)
    ensures
        r@ == winner_of(spot_price, price_to_beat),
{
    match (spot_price, price_to_beat) {
        (Some(spot), Some(ptb)) => if ptb.gt(Num::zero()) {
            if spot.gt(ptb) {
                "UP"
            } else {
                "DOWN"
            }
        } else {
            ""
        },
        _ => "",
    }
}

/// The chance of a side that its distance in the money stands for.
pub open spec fn gap_chance(up: bool, gap_z: Num) -> Num {
    let half = Num::ratio(5, 10);
    let lift = (gap_z * Num::ratio(8, 100)).min(Num::ratio(45, 100));
    (if up {
        half + lift
    } else {
        half - lift
    }).clamp(Num::ratio(5, 100), Num::ratio(95, 100))
}

fn chance_by_gap(up: bool, gap_z: Num) -> (r: Num)
    ensures
        r == gap_chance(up, gap_z),
{
    proof {
        lemma_ratio_mono(5, 100, 95, 100);
    }
    let half: Num = Num::ratio(5, 10);
    let lift: Num = (gap_z * Num::ratio(8, 100)).min(Num::ratio(45, 100));
    (if up {
        half + lift
    } else {
        half - lift
    }).clamp(Num::ratio(5, 100), Num::ratio(95, 100))
}

/// The question whether a side is held, as it is asked from the outside of a strategy.
pub open spec fn hold_question<'a>(
    up: bool,
    spot: Num,
    ptb: Num,
    secs_to_end: i64,
    time_pct: Num,
    atr: Num,
    bid: Num,
    ptb_crossed: bool,
    cex_against: bool,
) -> RedeemHoldInput<'a> {
    RedeemHoldInput {
        side: if up {
            "UP"
        } else {
            "DOWN"
        },
        spot,
        ptb,
        secs_to_end,
        time_pct,
        current_atr: atr,
        bid,
        fair_prob: gap_chance(up, itm_gap(up, spot, ptb, atr, secs_to_end)),
        ptb_crossed,
        counter_velocity_against: false,
        cex_velocity_against: cex_against,
    }
}

pub fn ask_hold(
    up: bool,
    spot: Num,
    ptb: Num,
    secs_to_end: i64,
    time_pct: Num,
    atr: Num,
    bid: Num,
    ptb_crossed: bool,
    cex_against: bool,
) -> (r: (RedeemHoldInput<'static>, Num))
    ensures
        r.0 == hold_question(
            up,
            spot,
            ptb,
            secs_to_end,
            time_pct,
            atr,
            bid,
            ptb_crossed,
            cex_against,
        ),
        r.1 == itm_gap(up, spot, ptb, atr, secs_to_end),
{
    proof {
        reveal_strlit("UP");
        reveal_strlit("DOWN");
        assert("UP"@.len() != "DOWN"@.len());
    }
    let side: &'static str = if up {
        "UP"
    } else {
        "DOWN"
    };
    let gap_z: Num = itm_gap_z(side, spot, ptb, atr, secs_to_end);
    let q: RedeemHoldInput<'static> = RedeemHoldInput {
        side,
        spot,
        ptb,
        secs_to_end,
        time_pct,
        current_atr: atr,
        bid,
        fair_prob: chance_by_gap(up, gap_z),
        ptb_crossed,
        counter_velocity_against: false,
        cex_velocity_against: cex_against,
    };
    (q, gap_z)
}

/// Whether a side of a window would be held to redemption at its close.
pub open spec fn side_would_hold(
    up: bool,
    w: WindowState,
    spot: Num,
    ptb: Num,
    secs_to_end: i64,
    time_pct: Num,
    atr: Num,
) -> bool {
    let shares = if up {
        w.up_shares
    } else {
        w.down_shares
    };
    let bid = if up {
        w.prices.up.bid
    } else {
        w.prices.down.bid
    };
    !shares.le(Num::zero()) && holds(
        hold_question(up, spot, ptb, secs_to_end, time_pct, atr, bid, false, false),
    )
}

fn would_hold(
    up: bool,
    w: &WindowState,
    spot: Num,
    ptb: Num,
    secs_to_end: i64,
    time_pct: Num,
    atr: Num,
) -> (r: bool)
    ensures
        r == side_would_hold(up, *w, spot, ptb, secs_to_end, time_pct, atr),
{
    let (shares, bid): (Num, Num) = if up {
        (w.up_shares, w.prices.up.bid)
    } else {
        (w.down_shares, w.prices.down.bid)
    };
    if shares.le(Num::zero()) {
        return false;
    }
    let (q, _): (RedeemHoldInput<'static>, Num) = ask_hold(
        up,
        spot,
        ptb,
        secs_to_end,
        time_pct,
        atr,
        bid,
        false,
        false,
    );
    evaluate_redeem_hold(&q).should_hold
}

/// Distance of the spot from the price to beat over the expected move.
pub open spec fn gap_at_close(
    spot_price: Option<Num>,
    price_to_beat: Option<Num>,
    atr: Num,
    secs_to_end: i64,
) -> Option<Num> {
    match (spot_price, price_to_beat) {
        (Some(spot), Some(ptb)) => {
            let expected = expected_move_usd(atr.max(Num::one()), secs_to_end);
            if ptb.gt(Num::zero()) && expected.gt(Num::zero()) {
                Some((spot - ptb) / expected)
            } else {
                None
            }
        },
        _ => None,
    }
}

pub open spec fn hour_of_text(h: Option<Seq<char>>) -> u32 {
    match h {
        Some(t) => match int_of_text(t) {
            Some(n) => if 0 <= n <= u32::MAX {
                n as u32
            } else {
                0
            },
            None => 0,
        },
        None => 0,
    }
}

fn hour_number(h: Option<String>) -> (r: u32)
    ensures
        r == hour_of_text(
            match h {
                Some(t) => Some(t@),
                None => None,
            },
        ),
{
    match h {
        Some(t) => match parse_int(t.as_str()) {
            Some(n) => if 0 <= n && n <= u32::MAX as i64 {
                n as u32
            } else {
                0
            },
            None => 0,
        },
        None => 0,
    }
}

/// Whether `m` states the figures of a window at its close.
pub open spec fn is_close_meta(
    m: WindowCloseMeta,
    strategy: Seq<char>,
    w: WindowState,
    spot_price: Option<Num>,
    atr: Num,
    mid: MidCrossSnapshot,
    secs_to_end: i64,
) -> bool {
    let pct = elapsed_pct(market_span(w.market), secs_to_end);
    let first = first_bought(w.trades@);
    &&& m.strategy_name@ == strategy
    &&& m.utc_hour == hour_of_text(rfc3339_hour_of(w.market.start_time@))
    &&& m.time_pct_at_close == pct
    &&& m.final_gap_z == gap_at_close(spot_price, w.market.price_to_beat, atr, secs_to_end)
    &&& m.final_atr == atr
    &&& m.mid_cross_count == mid.cross_count
    &&& m.significant_mid_cross_count == mid.significant_cross_count
    &&& m.entry_side@ == match first {
        Some(t) => t.side@,
        None => Seq::<char>::empty(),
    }
    &&& m.entry_reason@ == match first {
        Some(t) => t.reason@,
        None => Seq::<char>::empty(),
    }
    &&& m.would_redeem_hold == match (spot_price, w.market.price_to_beat) {
        (Some(spot), Some(ptb)) => side_would_hold(true, w, spot, ptb, secs_to_end, pct, atr)
            || side_would_hold(false, w, spot, ptb, secs_to_end, pct, atr),
        _ => false,
    }
}

pub fn build_window_close_meta(
    strategy: &str,
    win: &WindowState,
    spot_price: Option<Num>,
    atr: Num,
    mid_snap: &MidCrossSnapshot,
    secs_to_end: i64,
) -> (r: WindowCloseMeta)
    ensures
        is_close_meta(r, strategy@, *win, spot_price, atr, *mid_snap, secs_to_end),
{
    let time_pct: Num = time_pct_for(&win.market, secs_to_end);
    let final_gap_z: Option<Num> = match (spot_price, win.market.price_to_beat) {
        (Some(spot), Some(ptb)) => {
            let expected: Num = expected_move_usd(atr.max(Num::one()), secs_to_end);
            if ptb.gt(Num::zero()) && expected.gt(Num::zero()) {
                Some((spot - ptb) / expected)
            } else {
                None
            }
        },
        _ => None,
    };
    let (entry_side, entry_reason): (String, String) = match first_buy(win) {
        Some(t) => (t.side.as_str().to_owned(), t.reason.as_str().to_owned()),
        None => (String::new(), String::new()),
    };
    let would_redeem_hold: bool = match (spot_price, win.market.price_to_beat) {
        (Some(spot), Some(ptb)) => would_hold(true, win, spot, ptb, secs_to_end, time_pct, atr)
            || would_hold(false, win, spot, ptb, secs_to_end, time_pct, atr),
        _ => false,
    };
    WindowCloseMeta {
        strategy_name: strategy.to_owned(),
        utc_hour: hour_number(rfc3339_hour(win.market.start_time.as_str())),
        time_pct_at_close: time_pct,
        final_gap_z,
        final_atr: atr,
        mid_cross_count: mid_snap.cross_count,
        significant_mid_cross_count: mid_snap.significant_cross_count,
        entry_side,
        entry_reason,
        would_redeem_hold,
    }
}

/// How an optional answer is written in a log.
pub open spec fn answer_text(b: Option<bool>) -> Seq<char> {
    match b {
        Some(true) => "Some(true)"@,
        Some(false) => "Some(false)"@,
        None => "None"@,
    }
}

fn answer_str(b: Option<bool>) -> (r: &'static str)
    ensures
        r@ == answer_text(b),
{
    match b {
        Some(v) => if v {
            "Some(true)"
        } else {
            "Some(false)"
        },
        None => "None",
    }
}

/// The line that reports a closed window of the hold strategy.
pub open spec fn h_close_line(
    number: int,
    entry_side: Seq<char>,
    winner: Seq<char>,
    h: HCloseStats,
    pnl: Num,
) -> Seq<char> {
    filled(
        "[H] #{} entry={} real_winner={} market={} salvaged={} salvage_win={} pnl={}"@,
        seq![
            dec_text(number),
            entry_side,
            if winner.len() == 0 {
                "n/a"@
            } else {
                winner
            },
            answer_text(h.market_win),
            bool_text(h.salvaged),
            bool_text(h.salvage_win),
            signed_fixed_of(pnl, 2),
        ],
    )
}

pub fn h_close_log(
    number: usize,
    trades: &Vec<TradeRecord>,
    entry_side: &str,
    winner: &str,
    pnl: Num,
) -> (r: String)
    ensures
        r@ == h_close_line(
            number as int,
            entry_side@,
            winner@,
            close_stats(trades@, entry_side@, winner@),
            pnl,
        ),
{
    let h: HCloseStats = derive_h_close_stats(trades.as_slice(), entry_side, winner);
    let shown: String = uint_text(number as u64);
    let won: &str = if winner.unicode_len() == 0 {
        "n/a"
    } else {
        winner
    };
    let market: &str = answer_str(h.market_win);
    let salvaged: &str = bool_str(h.salvaged);
    let salvage_win: &str = bool_str(h.salvage_win);
    let profit: String = signed_fixed(pnl, 2);
    let values: [&str; 7] = [
        shown.as_str(),
        entry_side,
        won,
        market,
        salvaged,
        salvage_win,
        profit.as_str(),
    ];
    assert(views(values@) =~= seq![
        shown@,
        entry_side@,
        won@,
        market@,
        salvaged@,
        salvage_win@,
        profit@,
    ]);
    fill(
        "[H] #{} entry={} real_winner={} market={} salvaged={} salvage_win={} pnl={}",
        &values,
    )
}

/// A window at its price to beat pays DOWN; above it, UP. Without a spot or a positive
/// price to beat nobody wins.
pub proof fn law_one_winner(spot: Num, ptb: Num)
    ensures
        ptb.gt(Num::zero()) && spot.gt(ptb) ==> winner_of(Some(spot), Some(ptb)) == "UP"@,
        ptb.gt(Num::zero()) && !spot.gt(ptb) ==> winner_of(Some(spot), Some(ptb)) == "DOWN"@,
        !ptb.gt(Num::zero()) ==> winner_of(Some(spot), Some(ptb)) == ""@,
        winner_of(None, Some(ptb)) == ""@,
        winner_of(Some(spot), None) == ""@,
{
}

} // verus!
