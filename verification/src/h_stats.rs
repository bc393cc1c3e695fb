//! Statistics of closed windows of the hold strategy.
use crate::num::Num;
use crate::number_format::{dec_text, fixed, fixed_of, int_text, int_text_of, uint_text};
use crate::text::{bool_str, bool_text, cut, cut_text, has_prefix, same_text, starts_with};
use crate::trader::{add_one, one_more, TradeRecord};
use vstd::prelude::*;
use vstd::string::*;

verus! {

#[derive(Debug, Clone, Copy)]
pub struct HCloseStats {
    pub market_win: Option<bool>,
    pub salvaged: bool,
    pub salvage_win: bool,
    pub entry_price: Option<Num>,
    pub exit_price: Option<Num>,
}

impl HCloseStats {
    pub open spec fn blank() -> HCloseStats {
        HCloseStats {
            market_win: None,
            salvaged: false,
            salvage_win: false,
            entry_price: None,
            exit_price: None,
        }
    }
}

impl Default for HCloseStats {
    fn default() -> (r: Self)
        ensures
            r == HCloseStats::blank(),
    {
        HCloseStats {
            market_win: None,
            salvaged: false,
            salvage_win: false,
            entry_price: None,
            exit_price: None,
        }
    }
}

/// Totals of the hold strategy's closed windows.
#[derive(Debug, Clone, Copy)]
pub struct HoldTotals {
    pub market_wins: u32,
    pub market_losses: u32,
    pub salvage_escapes: u32,
    pub salvage_wins: u32,
}

impl Default for HoldTotals {
    fn default() -> (r: Self)
        ensures
            r == (HoldTotals {
                market_wins: 0,
                market_losses: 0,
                salvage_escapes: 0,
                salvage_wins: 0,
            }),
    {
        HoldTotals { market_wins: 0, market_losses: 0, salvage_escapes: 0, salvage_wins: 0 }
    }
}

/// A total with one more where it happened.
pub open spec fn counted_if(total: u32, happened: bool) -> u32 {
    if happened {
        one_more(total)
    } else {
        total
    }
}

fn count_if(total: u32, happened: bool) -> (r: u32)
    ensures
        r == counted_if(total, happened),
{
    if happened {
        add_one(total)
    } else {
        total
    }
}

impl HoldTotals {
    /// The totals with one more closed window: it was won or lost on the market, where the
    /// market decided, and escaped by a salvage, which may have won.
    pub open spec fn with(self, h: HCloseStats) -> HoldTotals {
        HoldTotals {
            market_wins: counted_if(self.market_wins, h.market_win == Some(true)),
            market_losses: counted_if(self.market_losses, h.market_win == Some(false)),
            salvage_escapes: counted_if(self.salvage_escapes, h.salvaged),
            salvage_wins: counted_if(self.salvage_wins, h.salvage_win),
        }
    }

    pub fn count(&mut self, h: &HCloseStats)
        ensures
            *final(self) == old(self).with(*h),
    {
        let (won, lost): (bool, bool) = match h.market_win {
            Some(win) => (win, !win),
            None => (false, false),
        };
        self.market_wins = count_if(self.market_wins, won);
        self.market_losses = count_if(self.market_losses, lost);
        self.salvage_escapes = count_if(self.salvage_escapes, h.salvaged);
        self.salvage_wins = count_if(self.salvage_wins, h.salvage_win);
    }
}

/// A buy of the entry side.
pub open spec fn is_entry(t: TradeRecord, side: Seq<char>) -> bool {
    t.trade_type@ == "BUY"@ && t.side@ == side
}

/// A salvage sale of the entry side.
pub open spec fn is_salvage(t: TradeRecord, side: Seq<char>) -> bool {
    t.trade_type@ == "SELL"@ && t.side@ == side && has_prefix(t.reason@, "h_salvage"@)
}

/// A redemption of shares of the entry side.
pub open spec fn is_redeem(t: TradeRecord, side: Seq<char>) -> bool {
    t.trade_type@ == "REDEEM"@ && t.side@ == side && t.shares.gt(Num::zero())
}

/// Price of the first trade that satisfies the test.
pub open spec fn first_price_of(trades: Seq<TradeRecord>, test: spec_fn(TradeRecord) -> bool) -> Option<
    Num,
>
    decreases trades.len(),
{
    if trades.len() == 0 {
        None
    } else if test(trades[0]) {
        Some(trades[0].price)
    } else {
        first_price_of(trades.drop_first(), test)
    }
}

/// Price of the last trade that satisfies the test.
pub open spec fn last_price_of(trades: Seq<TradeRecord>, test: spec_fn(TradeRecord) -> bool) -> Option<
    Num,
>
    decreases trades.len(),
{
    if trades.len() == 0 {
        None
    } else if test(trades.last()) {
        Some(trades.last().price)
    } else {
        last_price_of(trades.drop_last(), test)
    }
}

/// The statistics of a closed window: a salvage counts as won where it sold above the
/// entry, the market where the entry side won.
pub open spec fn close_stats(trades: Seq<TradeRecord>, side: Seq<char>, winner: Seq<char>) -> HCloseStats {
    let entry = first_price_of(trades, |t: TradeRecord| is_entry(t, side));
    let salvage = last_price_of(trades, |t: TradeRecord| is_salvage(t, side));
    let exit = if salvage is Some {
        salvage
    } else {
        first_price_of(trades, |t: TradeRecord| is_redeem(t, side))
    };
    if side.len() == 0 {
        HCloseStats::blank()
    } else {
        HCloseStats {
            market_win: if winner.len() == 0 {
                None
            } else {
                Some(side == winner)
            },
            salvaged: salvage is Some,
            salvage_win: salvage is Some && entry is Some && salvage->0.gt(entry->0),
            entry_price: entry,
            exit_price: exit,
        }
    }
}

fn first_entry(trades: &[TradeRecord], side: &str) -> (r: Option<Num>)
    ensures
        r == first_price_of(trades@, |t: TradeRecord| is_entry(t, side@)),
{
    let ghost test = |t: TradeRecord| is_entry(t, side@);
    let mut i: usize = 0;
    assert(trades@.skip(0) == trades@);
    while i < trades.len()
        invariant
            i <= trades.len(),
            test == (|t: TradeRecord| is_entry(t, side@)),
            first_price_of(trades@, test) == first_price_of(trades@.skip(i as int), test),
        decreases trades.len() - i,
    {
        let t: &TradeRecord = &trades[i];
        assert(trades@.skip(i as int)[0] == *t);
        if same_text(t.trade_type.as_str(), "BUY") && same_text(t.side.as_str(), side) {
            return Some(t.price);
        }
        assert(trades@.skip(i as int).drop_first() == trades@.skip(i + 1));
        i = i + 1;
    }
    None
}

fn first_redeem(trades: &[TradeRecord], side: &str) -> (r: Option<Num>)
    ensures
        r == first_price_of(trades@, |t: TradeRecord| is_redeem(t, side@)),
{
    let ghost test = |t: TradeRecord| is_redeem(t, side@);
    let mut i: usize = 0;
    assert(trades@.skip(0) == trades@);
    while i < trades.len()
        invariant
            i <= trades.len(),
            test == (|t: TradeRecord| is_redeem(t, side@)),
            first_price_of(trades@, test) == first_price_of(trades@.skip(i as int), test),
        decreases trades.len() - i,
    {
        let t: &TradeRecord = &trades[i];
        assert(trades@.skip(i as int)[0] == *t);
        if same_text(t.trade_type.as_str(), "REDEEM") && same_text(t.side.as_str(), side)
            && t.shares.gt(Num::zero()) {
            return Some(t.price);
        }
        assert(trades@.skip(i as int).drop_first() == trades@.skip(i + 1));
        i = i + 1;
    }
    None
}

fn last_salvage(trades: &[TradeRecord], side: &str) -> (r: Option<Num>)
    ensures
        r == last_price_of(trades@, |t: TradeRecord| is_salvage(t, side@)),
{
    let ghost test = |t: TradeRecord| is_salvage(t, side@);
    let mut i: usize = trades.len();
    assert(trades@.take(trades.len() as int) == trades@);
    while i > 0
        invariant
            i <= trades.len(),
            test == (|t: TradeRecord| is_salvage(t, side@)),
            last_price_of(trades@, test) == last_price_of(trades@.take(i as int), test),
        decreases i,
    {
        let t: &TradeRecord = &trades[i - 1];
        assert(trades@.take(i as int).last() == *t);
        if same_text(t.trade_type.as_str(), "SELL") && same_text(t.side.as_str(), side)
            && starts_with(t.reason.as_str(), "h_salvage") {
            return Some(t.price);
        }
        assert(trades@.take(i as int).drop_last() == trades@.take(i - 1));
        i = i - 1;
    }
    None
}

pub fn derive_h_close_stats(trades: &[TradeRecord], entry_side: &str, winner: &str) -> (r:
    HCloseStats)
    ensures
        r == close_stats(trades@, entry_side@, winner@),
{
    if same_text(entry_side, "") {
        proof {
            reveal_strlit("");
        }
        return HCloseStats::default();
    }
    proof {
        reveal_strlit("");
        if entry_side@.len() == 0 {
            assert(entry_side@ =~= ""@);
        }
    }
    let entry_price: Option<Num> = first_entry(trades, entry_side);
    let salvage: Option<Num> = last_salvage(trades, entry_side);
    let salvaged: bool = salvage.is_some();
    let exit_price: Option<Num> = if salvaged {
        salvage
    } else {
        first_redeem(trades, entry_side)
    };
    let salvage_win: bool = match (entry_price, salvage) {
        (Some(entry), Some(exit)) => exit.gt(entry),
        _ => false,
    };
    let no_winner: bool = same_text(winner, "");
    proof {
        if winner@.len() == 0 {
            assert(winner@ =~= ""@);
        }
    }
    let market_win: Option<bool> = if no_winner {
        None
    } else {
        Some(same_text(entry_side, winner))
    };
    HCloseStats { market_win, salvaged, salvage_win, entry_price, exit_price }
}

/// A price with four decimals cut to four characters, or nothing.
pub open spec fn short_price(p: Option<Num>) -> Seq<char> {
    match p {
        Some(x) => cut(fixed_of(x, 4), 4),
        None => Seq::<char>::empty(),
    }
}

fn short_price_text(p: Option<Num>) -> (r: String)
    ensures
        r@ == short_price(p),
{
    match p {
        Some(x) => cut_text(fixed(x, 4).as_str(), 4),
        None => String::new(),
    }
}

pub open spec fn opt_bool_text(b: Option<bool>) -> Seq<char> {
    match b {
        Some(v) => bool_text(v),
        None => Seq::<char>::empty(),
    }
}

/// The header of the session statistics file.
pub fn h_session_header() -> (r: &'static str)
    ensures
        r@
            == "timestamp,window_id,slug,pnl,h_market_win,h_salvaged,h_salvage_win,entry_price,exit_price,cum_market_wins,cum_market_losses,cum_salvage_escapes,cum_salvage_wins"@,
{
    "timestamp,window_id,slug,pnl,h_market_win,h_salvaged,h_salvage_win,entry_price,exit_price,cum_market_wins,cum_market_losses,cum_salvage_escapes,cum_salvage_wins"
}

/// The line of a closed window in the session statistics file.
pub open spec fn h_row(
    now_ms: i64,
    window_id: usize,
    slug: Seq<char>,
    pnl: Num,
    h: HCloseStats,
    cum_market_wins: u32,
    cum_market_losses: u32,
    cum_salvage_escapes: u32,
    cum_salvage_wins: u32,
) -> Seq<char> {
    int_text_of(now_ms as int) + ","@ + dec_text(window_id as int) + ","@ + slug + ","@ + fixed_of(
        pnl,
        4,
    ) + ","@ + opt_bool_text(h.market_win) + ","@ + bool_text(h.salvaged) + ","@ + bool_text(
        h.salvage_win,
    ) + ","@ + short_price(h.entry_price) + ","@ + short_price(h.exit_price) + ","@ + dec_text(
        cum_market_wins as int,
    ) + ","@ + dec_text(cum_market_losses as int) + ","@ + dec_text(cum_salvage_escapes as int)
        + ","@ + dec_text(cum_salvage_wins as int)
}

pub fn h_window_close_row(
    now_ms: i64,
    window_id: usize,
    slug: &str,
    pnl: Num,
    h: &HCloseStats,
    cum_market_wins: u32,
    cum_market_losses: u32,
    cum_salvage_escapes: u32,
    cum_salvage_wins: u32,
) -> (r: String)
    ensures
        r@ == h_row(
            now_ms,
            window_id,
            slug@,
            pnl,
            *h,
            cum_market_wins,
            cum_market_losses,
            cum_salvage_escapes,
            cum_salvage_wins,
        ),
{
    let mut out: String = int_text(now_ms);
    out.append(",");
    out.append(uint_text(window_id as u64).as_str());
    out.append(",");
    out.append(slug);
    out.append(",");
    out.append(fixed(pnl, 4).as_str());
    out.append(",");
    match h.market_win {
        Some(v) => {
            out.append(bool_str(v));
        },
        None => {
            assert(out@ + Seq::<char>::empty() =~= out@);
        },
    }
    out.append(",");
    out.append(bool_str(h.salvaged));
    out.append(",");
    out.append(bool_str(h.salvage_win));
    out.append(",");
    out.append(short_price_text(h.entry_price).as_str());
    out.append(",");
    out.append(short_price_text(h.exit_price).as_str());
    out.append(",");
    out.append(uint_text(cum_market_wins as u64).as_str());
    out.append(",");
    out.append(uint_text(cum_market_losses as u64).as_str());
    out.append(",");
    out.append(uint_text(cum_salvage_escapes as u64).as_str());
    out.append(",");
    out.append(uint_text(cum_salvage_wins as u64).as_str());
    out
}

/// `part` in percent of `whole`; zero where there is no whole.
pub open spec fn win_rate(part: u32, whole: int) -> Num {
    if whole > 0 {
        Num::uint(part as u64) / Num::uint(whole as u64) * Num::uint(100)
    } else {
        Num::zero()
    }
}

fn win_rate_of(part: u32, whole: u32) -> (r: Num)
    ensures
        r == win_rate(part, whole as int),
{
    if whole > 0 {
        Num::uint(part as u64) / Num::uint(whole as u64) * Num::uint(100)
    } else {
        Num::zero()
    }
}

/// The extra line of the session: market wins and salvages with their rates.
pub open spec fn session_line(
    market_wins: u32,
    market_losses: u32,
    salvage_escapes: u32,
    salvage_wins: u32,
) -> Seq<char> {
    let total = market_wins + market_losses;
    "H Extra: Market "@ + dec_text(market_wins as int) + "/"@ + dec_text(total) + " ("@ + fixed_of(
        win_rate(market_wins, total),
        0,
    ) + "%) | Salvaged "@ + dec_text(salvage_wins as int) + "/"@ + dec_text(salvage_escapes as int)
        + " profitable exit ("@ + fixed_of(win_rate(salvage_wins, salvage_escapes as int), 0)
        + "%)"@
}

pub fn format_h_session_line(
    market_wins: u32,
    market_losses: u32,
    salvage_escapes: u32,
    salvage_wins: u32,
) -> (r: String)
    requires
        market_wins + market_losses <= u32::MAX,
    ensures
        r@ == session_line(market_wins, market_losses, salvage_escapes, salvage_wins),
{
    let market_total: u32 = market_wins + market_losses;
    let market_wr: Num = win_rate_of(market_wins, market_total);
    let salvage_wr: Num = win_rate_of(salvage_wins, salvage_escapes);
    let mut out: String = String::from_str("H Extra: Market ");
    out.append(uint_text(market_wins as u64).as_str());
    out.append("/");
    out.append(uint_text(market_total as u64).as_str());
    out.append(" (");
    out.append(fixed(market_wr, 0).as_str());
    out.append("%) | Salvaged ");
    out.append(uint_text(salvage_wins as u64).as_str());
    out.append("/");
    out.append(uint_text(salvage_escapes as u64).as_str());
    out.append(" profitable exit (");
    out.append(fixed(salvage_wr, 0).as_str());
    out.append("%)");
    out
}

} // verus!
