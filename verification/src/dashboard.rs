//! Shared dashboard snapshot for terminal and HTTP server modes.
use crate::config::ExecutionMode;
use crate::live_executor::LiveAccountStatus;
use crate::num::Num;
use crate::time::{div_toward_zero, rfc3339_millis, rfc3339_millis_of, spans_fit, trunc_div};
use crate::trader::{TradeRecord, WindowState};
use vstd::prelude::*;

verus! {

/// Totals of the session's portfolio.
#[derive(Clone, Copy, Debug)]
pub struct PortfolioSnapshot {
    pub starting_bank: Num,
    pub available_cash: Num,
    pub overall_realized_pnl: Num,
    pub equity: Num,
    pub total_windows: u32,
    pub traded_windows: u32,
    pub open_traded_windows: u32,
    pub no_trade_windows: u32,
    pub open_waiting_windows: u32,
    pub entered_windows: u32,
    pub closed_windows: u32,
    pub wins: u32,
    pub losses: u32,
    pub h_market_wins: u32,
    pub h_market_losses: u32,
    pub h_salvage_escapes: u32,
    pub h_salvage_wins: u32,
    pub skipped_windows: u32,
}

impl PortfolioSnapshot {
    pub open spec fn blank() -> PortfolioSnapshot {
        PortfolioSnapshot {
            starting_bank: Num::zero(),
            available_cash: Num::zero(),
            overall_realized_pnl: Num::zero(),
            equity: Num::zero(),
            total_windows: 0,
            traded_windows: 0,
            open_traded_windows: 0,
            no_trade_windows: 0,
            open_waiting_windows: 0,
            entered_windows: 0,
            closed_windows: 0,
            wins: 0,
            losses: 0,
            h_market_wins: 0,
            h_market_losses: 0,
            h_salvage_escapes: 0,
            h_salvage_wins: 0,
            skipped_windows: 0,
        }
    }
}

/// One point of the asks' history.
#[derive(Clone, Copy, Debug)]
pub struct SnapshotChartPoint {
    pub timestamp_ms: i64,
    pub up_ask: Num,
    pub down_ask: Num,
}

#[derive(Clone, Debug)]
pub struct DashboardSnapshot {
    pub meta: SnapshotMeta,
    pub execution: SnapshotExecution,
    pub live_account: Option<SnapshotLiveAccount>,
    pub portfolio: PortfolioSnapshot,
    pub current_window: Option<SnapshotWindow>,
    pub next_window: Option<SnapshotWindow>,
    pub system_logs: Vec<String>,
    pub session_stats: SnapshotSessionStats,
    pub run_log_dir: String,
    pub updated_at_ms: i64,
    /// ANSI-colored lines — same output as the terminal dashboard.
    pub terminal_lines: Vec<String>,
    /// UP/DOWN ask history for current window (web chart).
    pub chart: Vec<SnapshotChartPoint>,
}

#[derive(Clone, Debug)]
pub struct SnapshotMeta {
    pub asset: String,
    pub interval: String,
    pub strategy: String,
    pub started_at_ms: i64,
    pub runtime_ms: i64,
    pub shutdown_pending: bool,
    pub spot_price: Option<Num>,
    pub atr: Num,
    pub llm_enabled: bool,
    pub llm_correct: u32,
    pub llm_wrong: u32,
    pub maintenance_label: String,
    pub maintenance_ok: bool,
}

#[derive(Clone, Debug)]
pub struct SnapshotExecution {
    pub mode: String,
    pub dry_run: bool,
}

#[derive(Clone, Debug)]
pub struct SnapshotLiveAccount {
    pub authenticated: bool,
    pub balance_usd: Num,
    pub allowance_contracts: usize,
    pub ready_to_trade: bool,
    pub dry_run: bool,
    pub signer_address: String,
    pub funder_address: String,
    pub last_error: Option<String>,
    pub updated_at_ms: i64,
}

#[derive(Clone, Debug)]
pub struct SnapshotTrade {
    pub timestamp: i64,
    pub trade_type: String,
    pub side: String,
    pub reason: String,
    pub price: Num,
    pub shares: Num,
    pub usd_value: Num,
    pub available_cash_after: Num,
}

#[derive(Clone, Debug)]
pub struct SnapshotWindow {
    pub window_number: usize,
    pub slug: String,
    pub status: String,
    pub role: String,
    pub up_bid: Num,
    pub up_ask: Num,
    pub down_bid: Num,
    pub down_ask: Num,
    pub spent: Num,
    pub cash_returned: Num,
    pub up_shares: Num,
    pub down_shares: Num,
    pub trade_count: usize,
    pub trades: Vec<SnapshotTrade>,
    pub ptb: Option<Num>,
    pub window_start_ms: i64,
    pub window_end_ms: i64,
    pub time_left_sec: i64,
    pub time_elapsed_pct: Num,
    pub combined_ask: Num,
    pub up_chance_pct: Num,
    pub down_chance_pct: Num,
    pub est_value: Num,
    pub unrealized_pnl: Num,
    pub paired_shares: Num,
    pub paired_floor: Num,
    pub breakeven_gap: Num,
    pub spot_distance: Option<Num>,
    pub spot_distance_pct: Option<Num>,
    pub implied_winner: Option<String>,
    pub cex_micro: Option<SnapshotCexMicro>,
    pub strategy_j: Option<SnapshotStrategyJ>,
}

#[derive(Clone, Copy, Debug)]
pub struct SnapshotCexMicro {
    pub velocity_3s: Option<Num>,
    pub imbalance_3s: Num,
    pub lead_bps: Option<Num>,
}

#[derive(Clone, Debug)]
pub struct SnapshotStrategyJ {
    pub clips_done: u32,
    pub clips_max: Option<u32>,
    pub entry_active: bool,
    pub phase: String,
    pub target_profit_usd: Num,
    pub redeem_pnl_proj: Num,
    pub winner: String,
    pub winner_ask: Num,
    pub gap_z: Num,
    pub tier: String,
    pub tier_note: String,
    pub flip_hedge_armed: bool,
    pub tape_hot: bool,
    pub tape_usd: Num,
    pub tape_buys: u32,
    pub tape_need_usd: Num,
    pub tape_need_buys: u32,
    pub ask_depth_usd: Num,
    pub ask_depth_max_cents: Num,
}

#[derive(Clone, Debug)]
pub struct SnapshotSessionStats {
    pub summary_line: String,
}

/// Copies a text that may be missing.
pub fn copy_text(t: &Option<String>) -> (r: Option<String>)
    ensures
        match (r, *t) {
            (Some(a), Some(b)) => a@ == b@,
            (None, None) => true,
            _ => false,
        },
{
    match t {
        Some(s) => Some(s.as_str().to_owned()),
        None => None,
    }
}

/// The account as the dashboard shows it.
pub fn live_account_snapshot(a: &LiveAccountStatus) -> (r: SnapshotLiveAccount)
    ensures
        r.authenticated == a.authenticated,
        r.balance_usd == a.balance_usd,
        r.allowance_contracts == a.allowance_contracts,
        r.ready_to_trade == a.ready_to_trade,
        r.dry_run == a.dry_run,
        r.signer_address@ == a.signer_address@,
        r.funder_address@ == a.funder_address@,
        match (r.last_error, a.last_error) {
            (Some(x), Some(y)) => x@ == y@,
            (None, None) => true,
            _ => false,
        },
        r.updated_at_ms == a.updated_at_ms,
{
    SnapshotLiveAccount {
        authenticated: a.authenticated,
        balance_usd: a.balance_usd,
        allowance_contracts: a.allowance_contracts,
        ready_to_trade: a.ready_to_trade,
        dry_run: a.dry_run,
        signer_address: a.signer_address.as_str().to_owned(),
        funder_address: a.funder_address.as_str().to_owned(),
        last_error: copy_text(&a.last_error),
        updated_at_ms: a.updated_at_ms,
    }
}

/// Whether a snapshot's trade shows a recorded one.
pub open spec fn shows_trade(s: SnapshotTrade, t: TradeRecord) -> bool {
    &&& s.timestamp == t.timestamp
    &&& s.trade_type@ == t.trade_type@
    &&& s.side@ == t.side@
    &&& s.reason@ == t.reason@
    &&& s.price == t.price
    &&& s.shares == t.shares
    &&& s.usd_value == t.usd_value
    &&& s.available_cash_after == t.available_cash_after
}

fn copy_trades(trades: &Vec<TradeRecord>) -> (r: Vec<SnapshotTrade>)
    ensures
        r@.len() == trades@.len(),
        forall|i: int| 0 <= i < r@.len() ==> shows_trade(#[trigger] r@[i], trades@[i]),
{
    let mut out: Vec<SnapshotTrade> = Vec::new();
    let mut i: usize = 0;
    while i < trades.len()
        invariant
            i <= trades.len(),
            out@.len() == i,
            forall|j: int| 0 <= j < i ==> shows_trade(#[trigger] out@[j], trades@[j]),
        decreases trades.len() - i,
    {
        let t: &TradeRecord = &trades[i];
        out.push(
            SnapshotTrade {
                timestamp: t.timestamp,
                trade_type: t.trade_type.as_str().to_owned(),
                side: t.side.as_str().to_owned(),
                reason: t.reason.as_str().to_owned(),
                price: t.price,
                shares: t.shares,
                usd_value: t.usd_value,
                available_cash_after: t.available_cash_after,
            },
        );
        i = i + 1;
    }
    out
}

pub open spec fn or_zero(t: Option<i64>) -> i64 {
    match t {
        Some(x) => x,
        None => 0,
    }
}

/// Seconds left of a window: none where its end is unknown.
pub open spec fn secs_left(end_ms: int, now_ms: int) -> int {
    if end_ms > 0 {
        let s = trunc_div(end_ms - now_ms, 1000);
        if s < 0 {
            0
        } else {
            s
        }
    } else {
        0
    }
}

/// Elapsed share of a window in percent.
pub open spec fn elapsed_share(start_ms: int, end_ms: int, now_ms: int) -> Num {
    let span = if end_ms - start_ms >= 1 {
        end_ms - start_ms
    } else {
        1
    };
    let gone = if now_ms - start_ms < 0 {
        0
    } else if now_ms - start_ms > span {
        span
    } else {
        now_ms - start_ms
    };
    Num::whole(gone as i64) / Num::whole(span as i64) * Num::uint(100)
}

/// The price that a contract's chance is read from: the ask, or the bid without one.
pub open spec fn chance_pct(bid: Num, ask: Num) -> Num {
    ((if ask.gt(Num::zero()) {
        ask
    } else {
        bid
    }) * Num::uint(100)).clamp(Num::zero(), Num::uint(100))
}

pub fn chance(bid: Num, ask: Num) -> (r: Num)
    ensures
        r == chance_pct(bid, ask),
{
    proof {
        crate::num_ops::lemma_uint_is_ratio(100);
        crate::num_ops::lemma_ratio_nonneg(100, 1);
    }
    (if ask.gt(Num::zero()) {
        ask
    } else {
        bid
    } * Num::uint(100)).clamp(Num::zero(), Num::uint(100))
}

/// The side that the spot is in favour of, as the dashboard names it.
pub open spec fn implied(spot: Option<Num>, ptb: Option<Num>) -> Option<Seq<char>> {
    match (spot, ptb) {
        (Some(s), Some(p)) => if s.gt(p) {
            Some("UP"@)
        } else if s.lt(p) {
            Some("DOWN"@)
        } else {
            Some("TIE"@)
        },
        _ => None,
    }
}

/// Whether `r` is the snapshot of a window whose start and end are at these moments.
pub open spec fn is_window_snapshot(
    r: SnapshotWindow,
    win: WindowState,
    start_ms: i64,
    end_ms: i64,
    spot_price: Option<Num>,
    now_ms: i64,
) -> bool {
    let up = win.prices.up;
    let dn = win.prices.down;
    let value = win.cash_returned + (win.up_shares * up.bid + win.down_shares * dn.bid);
    let paired = win.up_shares.min(win.down_shares);
    let floor = win.cash_returned + paired;
    &&& r.window_number == win.window_number
    &&& r.slug@ == win.market.slug@
    &&& r.status@ == win.status@
    &&& r.role@ == win.role@
    &&& r.up_bid == up.bid && r.up_ask == up.ask
    &&& r.down_bid == dn.bid && r.down_ask == dn.ask
    &&& r.spent == win.spent && r.cash_returned == win.cash_returned
    &&& r.up_shares == win.up_shares && r.down_shares == win.down_shares
    &&& r.trade_count == win.trades@.len()
    &&& r.trades@.len() == win.trades@.len()
    &&& forall|i: int|
        0 <= i < r.trades@.len() ==> shows_trade(#[trigger] r.trades@[i], win.trades@[i])
    &&& r.ptb == win.market.price_to_beat
    &&& r.window_start_ms == start_ms && r.window_end_ms == end_ms
    &&& r.time_left_sec == secs_left(end_ms as int, now_ms as int)
    &&& r.time_elapsed_pct == elapsed_share(start_ms as int, end_ms as int, now_ms as int)
    &&& r.combined_ask == up.ask + dn.ask
    &&& r.up_chance_pct == chance_pct(up.bid, up.ask)
    &&& r.down_chance_pct == chance_pct(dn.bid, dn.ask)
    &&& r.est_value == value
    &&& r.unrealized_pnl == value - win.spent
    &&& r.paired_shares == paired
    &&& r.paired_floor == floor
    &&& r.breakeven_gap == floor - win.spent
    &&& match (spot_price, win.market.price_to_beat) {
        (Some(s), Some(p)) => if p.gt(Num::zero()) {
            r.spot_distance == Some(s - p) && r.spot_distance_pct == Some(
                (s - p) / p * Num::uint(100),
            )
        } else {
            r.spot_distance is None && r.spot_distance_pct is None
        },
        _ => r.spot_distance is None && r.spot_distance_pct is None,
    }
    &&& match (r.implied_winner, implied(spot_price, win.market.price_to_beat)) {
        (Some(a), Some(b)) => a@ == b,
        (None, None) => true,
        _ => false,
    }
    &&& r.cex_micro is None
    &&& r.strategy_j is None
}

/// The snapshot of a window, given the moments of its start and end.
pub fn snapshot_between(
    win: &WindowState,
    window_start_ms: i64,
    window_end_ms: i64,
    spot_price: Option<Num>,
    now_ms: i64,
) -> (r: SnapshotWindow)
    requires
        i64::MIN <= window_end_ms - window_start_ms <= i64::MAX,
        window_end_ms > 0 ==> i64::MIN <= window_end_ms - now_ms <= i64::MAX,
        i64::MIN <= now_ms - window_start_ms <= i64::MAX,
    ensures
        is_window_snapshot(r, *win, window_start_ms, window_end_ms, spot_price, now_ms),
{
    let duration_ms: i64 = if window_end_ms - window_start_ms >= 1 {
        window_end_ms - window_start_ms
    } else {
        1
    };
    let time_left_sec: i64 = if window_end_ms > 0 {
        let s: i64 = div_toward_zero(window_end_ms - now_ms, 1000);
        if s < 0 {
            0
        } else {
            s
        }
    } else {
        0
    };
    let gone: i64 = now_ms - window_start_ms;
    let elapsed_ms: i64 = if gone < 0 {
        0
    } else if gone > duration_ms {
        duration_ms
    } else {
        gone
    };
    let time_elapsed_pct: Num = Num::whole(elapsed_ms) / Num::whole(duration_ms) * Num::uint(100);
    let up_bid: Num = win.prices.up.bid;
    let up_ask: Num = win.prices.up.ask;
    let down_bid: Num = win.prices.down.bid;
    let down_ask: Num = win.prices.down.ask;
    let mtm: Num = win.up_shares * up_bid + win.down_shares * down_bid;
    let est_value: Num = win.cash_returned + mtm;
    let paired_shares: Num = win.up_shares.min(win.down_shares);
    let paired_floor: Num = win.cash_returned + paired_shares;
    let (spot_distance, spot_distance_pct): (Option<Num>, Option<Num>) =
        match win.market.get_ptb_deviation(spot_price) {
        Some((delta, pct)) => (Some(delta), Some(pct)),
        None => (None, None),
    };
    let implied_winner: Option<String> = match (spot_price, win.market.price_to_beat) {
        (Some(spot), Some(ptb)) => Some(
            (if spot.gt(ptb) {
                "UP"
            } else if spot.lt(ptb) {
                "DOWN"
            } else {
                "TIE"
            }).to_owned(),
        ),
        _ => None,
    };
    SnapshotWindow {
        window_number: win.window_number,
        slug: win.market.slug.as_str().to_owned(),
        status: win.status.as_str().to_owned(),
        role: win.role.as_str().to_owned(),
        up_bid,
        up_ask,
        down_bid,
        down_ask,
        spent: win.spent,
        cash_returned: win.cash_returned,
        up_shares: win.up_shares,
        down_shares: win.down_shares,
        trade_count: win.trades.len(),
        trades: copy_trades(&win.trades),
        ptb: win.market.price_to_beat,
        window_start_ms,
        window_end_ms,
        time_left_sec,
        time_elapsed_pct,
        combined_ask: up_ask + down_ask,
        up_chance_pct: chance(up_bid, up_ask),
        down_chance_pct: chance(down_bid, down_ask),
        est_value,
        unrealized_pnl: est_value - win.spent,
        paired_shares,
        paired_floor,
        breakeven_gap: paired_floor - win.spent,
        spot_distance,
        spot_distance_pct,
        implied_winner,
        cex_micro: None,
        strategy_j: None,
    }
}

/// The snapshot of a window; a start or end that is no RFC 3339 text counts as zero.
pub fn window_to_snapshot(win: &WindowState, spot_price: Option<Num>, now_ms: i64) -> (r:
    SnapshotWindow)
    requires
        spans_fit(now_ms),
    ensures
        is_window_snapshot(
            r,
            *win,
            or_zero(rfc3339_millis_of(win.market.start_time@)),
            or_zero(rfc3339_millis_of(win.market.end_time@)),
            spot_price,
            now_ms,
        ),
{
    let start_ms: i64 = match rfc3339_millis(win.market.start_time.as_str()) {
        Some(t) => t,
        None => 0,
    };
    let end_ms: i64 = match rfc3339_millis(win.market.end_time.as_str()) {
        Some(t) => t,
        None => 0,
    };
    snapshot_between(win, start_ms, end_ms, spot_price, now_ms)
}

pub fn execution_mode_label(mode: ExecutionMode) -> (r: &'static str)
    ensures
        r@ == match mode {
            ExecutionMode::Paper => "paper"@,
            ExecutionMode::Live => "live"@,
        },
{
    match mode {
        ExecutionMode::Paper => "paper",
        ExecutionMode::Live => "live",
    }
}

impl DashboardSnapshot {
    /// What is shown before the first tick.
    pub fn bootstrap() -> (r: Self)
        ensures
            r.meta.asset@ == Seq::<char>::empty(),
            r.meta.interval@ == Seq::<char>::empty(),
            r.meta.strategy@ == Seq::<char>::empty(),
            r.meta.started_at_ms == 0 && r.meta.runtime_ms == 0,
            !r.meta.shutdown_pending && r.meta.spot_price is None && r.meta.atr == Num::zero(),
            !r.meta.llm_enabled && r.meta.llm_correct == 0 && r.meta.llm_wrong == 0,
            r.meta.maintenance_label@ == "OK"@ && r.meta.maintenance_ok,
            r.execution.mode@ == "paper"@ && !r.execution.dry_run,
            r.live_account is None,
            r.portfolio == PortfolioSnapshot::blank(),
            r.current_window is None && r.next_window is None,
            r.system_logs@.len() == 1 && r.system_logs@[0]@ == "Starting…"@,
            r.session_stats.summary_line@ == Seq::<char>::empty(),
            r.run_log_dir@ == Seq::<char>::empty(),
            r.updated_at_ms == 0,
            r.terminal_lines@.len() == 1 && r.terminal_lines@[0]@ == "Starting GEM server…"@,
            r.chart@.len() == 0,
    {
        let mut system_logs: Vec<String> = Vec::new();
        system_logs.push(String::from_str("Starting…"));
        let mut terminal_lines: Vec<String> = Vec::new();
        terminal_lines.push(String::from_str("Starting GEM server…"));
        DashboardSnapshot {
            meta: SnapshotMeta {
                asset: String::new(),
                interval: String::new(),
                strategy: String::new(),
                started_at_ms: 0,
                runtime_ms: 0,
                shutdown_pending: false,
                spot_price: None,
                atr: Num::zero(),
                llm_enabled: false,
                llm_correct: 0,
                llm_wrong: 0,
                maintenance_label: String::from_str("OK"),
                maintenance_ok: true,
            },
            execution: SnapshotExecution { mode: String::from_str("paper"), dry_run: false },
            live_account: None,
            portfolio: PortfolioSnapshot {
                starting_bank: Num::zero(),
                available_cash: Num::zero(),
                overall_realized_pnl: Num::zero(),
                equity: Num::zero(),
                total_windows: 0,
                traded_windows: 0,
                open_traded_windows: 0,
                no_trade_windows: 0,
                open_waiting_windows: 0,
                entered_windows: 0,
                closed_windows: 0,
                wins: 0,
                losses: 0,
                h_market_wins: 0,
                h_market_losses: 0,
                h_salvage_escapes: 0,
                h_salvage_wins: 0,
                skipped_windows: 0,
            },
            current_window: None,
            next_window: None,
            system_logs,
            session_stats: SnapshotSessionStats { summary_line: String::new() },
            run_log_dir: String::new(),
            updated_at_ms: 0,
            terminal_lines,
            chart: Vec::new(),
        }
    }
}

} // verus!
