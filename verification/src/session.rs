//! The session: what each event changes and what is to be done next.
use crate::asset_price::{asset_price_text, format_asset_price, implausible, ptb_implausible};
use crate::client::{MarketEvent, MarketWindow, PricesState, PricesView};
use crate::config::PreStartConfig;
use crate::entry::{check_next, next_step, EntryPlan, NextStep};
use crate::event_log::{lead_or, lead_text, opt_lead};
use crate::h_stats::{close_stats, derive_h_close_stats, HCloseStats, HoldTotals};
use crate::maintenance::MaintenanceStatus;
use crate::market_parse::MarketView;
use crate::mid_cross_tracker::{
    elapsed_pct, market_span, mid_cross_arm_time_pct, mid_of, reports, MidCrossEvent,
    MidCrossSnapshot, MidCrossTracker, MidCrossWindowState, MidCrossWindowSummary,
};
use crate::num::Num;
use crate::number_format::{dec_text, fixed, fixed_of, int_text, int_text_of, uint_text};
use crate::spot_series::{normalize_event_timestamp_ms, SpotSeries};
use crate::strategy::{EntrySignal, LlmForecast, OrderSignal, SpotSignalSnapshot};
use crate::text::{fill1, fill2, fill3, fill4, fill6, filled, no_lines, push_line, same_text, texts};
use crate::time::{div_toward_zero, rfc3339_millis, rfc3339_millis_of, spans_fit, trunc_div};
use crate::trade_tape::{from_moment, TapePrint, TradeTapeTracker};
use crate::trader::{
    add_one, copy_market, copy_prices, held, lemma_place, lemma_place_same, one_more, place,
    Portfolio, WindowState,
};
use crate::window_close::{
    build_window_close_meta, close_winner, h_close_line, h_close_log, is_close_meta, winner_of,
    WindowCloseMeta,
};
use vstd::prelude::*;

verus! {

/// Lines that the event log keeps.
pub const MAX_LOG_LINES: usize = 30;

/// A log that has just grown, without its oldest line where it is too long.
pub open spec fn capped(lines: Seq<Seq<char>>) -> Seq<Seq<char>> {
    if lines.len() > MAX_LOG_LINES {
        lines.drop_first()
    } else {
        lines
    }
}

/// Adds a line; a log that is too long loses its oldest one.
pub fn log_capped(logs: &mut Vec<String>, line: String)
    ensures
        texts(final(logs)@) == capped(texts(old(logs)@).push(line@)),
{
    push_line(logs, line);
    if logs.len() > MAX_LOG_LINES {
        let ghost grown = logs@;
        logs.remove(0);
        assert(texts(logs@) =~= texts(grown).drop_first());
    }
}

/// A log within its limit stays within it.
pub proof fn law_log_stays_within_limit(lines: Seq<Seq<char>>, line: Seq<char>)
    requires
        lines.len() <= MAX_LOG_LINES,
    ensures
        capped(lines.push(line)).len() <= MAX_LOG_LINES,
        capped(lines.push(line)).last() == line,
{
}

/// Whether a price to beat has to be taken from the feed: none yet, or one that cannot be.
pub open spec fn wants_capture(asset: Seq<char>, price_to_beat: Option<Num>, spot: Num) -> bool {
    match price_to_beat {
        None => true,
        Some(ptb) => implausible(asset, ptb, spot),
    }
}

/// The price to beat that a window takes from the feed, and the log line. It is taken
/// once, from the window's start on, with a positive spot.
pub open spec fn capture_of(
    already_locked: bool,
    market: MarketWindow,
    start_ms: Option<i64>,
    spot: Num,
    timestamp_ms: i64,
) -> Option<(Num, Seq<char>)> {
    if spot.le(Num::zero()) || already_locked || start_ms is None || timestamp_ms < start_ms->0
        || !wants_capture(market.asset@, market.price_to_beat, spot) {
        None
    } else {
        Some(
            (
                spot,
                filled(
                    if market.price_to_beat is Some {
                        "[CAPTURE PTB] Replaced implausible PTB with Chainlink open: {}"@
                    } else {
                        "[CAPTURE PTB] Captured exact open price from Chainlink WS: {}"@
                    },
                    seq![asset_price_text(market.asset@, spot)],
                ),
            ),
        )
    }
}

pub open spec fn is_capture(r: Option<(Num, String)>, c: Option<(Num, Seq<char>)>) -> bool {
    match (r, c) {
        (Some(a), Some(b)) => a.0 == b.0 && a.1@ == b.1,
        (None, None) => true,
        _ => false,
    }
}

/// The price to beat that a window with a known start takes from the feed.
pub fn capture_at(
    already_locked: bool,
    market: &MarketWindow,
    start_ms: Option<i64>,
    spot: Num,
    timestamp_ms: i64,
) -> (r: Option<(Num, String)>)
    ensures
        is_capture(r, capture_of(already_locked, *market, start_ms, spot, timestamp_ms)),
{
    if spot.le(Num::zero()) || already_locked {
        return None;
    }
    let start: i64 = match start_ms {
        Some(t) => t,
        None => {
            return None;
        },
    };
    if timestamp_ms < start {
        return None;
    }
    let should_capture: bool = match market.price_to_beat {
        None => true,
        Some(ptb) => ptb_implausible(market.asset.as_str(), ptb, spot),
    };
    if !should_capture {
        return None;
    }
    let px: String = format_asset_price(market.asset.as_str(), spot);
    let msg: String = if market.price_to_beat.is_some() {
        fill1("[CAPTURE PTB] Replaced implausible PTB with Chainlink open: {}", px.as_str())
    } else {
        fill1("[CAPTURE PTB] Captured exact open price from Chainlink WS: {}", px.as_str())
    };
    Some((spot, msg))
}

/// Locks the price to beat from the feed at window open. Replaces implausible values that
/// were parsed from question text.
pub fn evaluate_ptb_capture(
    already_locked: bool,
    market: &MarketWindow,
    spot: Num,
    timestamp_ms: i64,
) -> (r: Option<(Num, String)>)
    ensures
        is_capture(
            r,
            capture_of(
                already_locked,
                *market,
                rfc3339_millis_of(market.start_time@),
                spot,
                timestamp_ms,
            ),
        ),
{
    let start: Option<i64> = rfc3339_millis(market.start_time.as_str());
    capture_at(already_locked, market, start, spot, timestamp_ms)
}

/// Whether a list of window numbers has one.
pub fn has_number(numbers: &Vec<usize>, n: usize) -> (r: bool)
    ensures
        r == numbers@.contains(n),
{
    let mut i: usize = 0;
    while i < numbers.len()
        invariant
            i <= numbers.len(),
            forall|j: int| 0 <= j < i ==> numbers@[j] != n,
        decreases numbers.len() - i,
    {
        if numbers[i] == n {
            return true;
        }
        i = i + 1;
    }
    false
}

/// The state of a trading session.
#[derive(Debug)]
pub struct Session {
    pub asset: String,
    pub strategy: String,
    pub portfolio: Portfolio,
    /// Number of the running window.
    pub current_window: Option<usize>,
    /// Number of the upcoming window.
    pub next_window: Option<usize>,
    pub exclude_slugs: Vec<String>,
    pub next_window_number: usize,
    pub system_logs: Vec<String>,
    pub spot_price: Option<Num>,
    pub shutdown_pending: bool,
    pub spot_series: SpotSeries,
    pub llm_forecasts: Vec<(usize, LlmForecast)>,
    pub llm_forecast_attempted: Vec<usize>,
    pub llm_forecast_scored: Vec<usize>,
    pub llm_correct: u32,
    pub llm_wrong: u32,
    pub mid_cross_tracker: MidCrossTracker,
    pub trade_tape: TradeTapeTracker,
    pub ptb_locked_windows: Vec<usize>,
    pub maintenance: MaintenanceStatus,
    pub maintenance_checked_window: Option<usize>,
    /// Moment of the last search for an upcoming window.
    pub last_next_find_attempt_ms: i64,
    pub hold: HoldTotals,
}

impl Session {
    /// The running and the upcoming window are in the portfolio, and what is tracked is
    /// in order.
    pub open spec fn wf(self) -> bool {
        &&& self.current_window matches Some(n) ==> self.portfolio.has(n)
        &&& self.next_window matches Some(n) ==> self.portfolio.has(n)
        &&& self.spot_series.wf()
        &&& self.mid_cross_tracker.valid()
    }

    /// A session with a bank and nothing else yet.
    pub fn new(asset: &str, strategy: &str, starting_bank: Num) -> (r: Self)
        ensures
            r.wf(),
            r.asset@ == asset@ && r.strategy@ == strategy@,
            r.portfolio.starting_bank == starting_bank,
            r.portfolio.available_cash == starting_bank,
            r.portfolio.windows@.len() == 0,
            r.current_window is None && r.next_window is None,
            r.exclude_slugs@.len() == 0 && r.next_window_number == 0,
            r.lines() == Seq::<Seq<char>>::empty(),
            r.spot_price is None && !r.shutdown_pending,
            r.spot_series.samples@.len() == 0 && r.spot_series.max_samples == 180,
            r.spot_series.smoothing_period_sec == Num::uint(12),
            r.llm_forecasts@.len() == 0 && r.llm_forecast_attempted@.len() == 0,
            r.llm_forecast_scored@.len() == 0 && r.llm_correct == 0 && r.llm_wrong == 0,
            r.mid_cross_tracker@ == Map::<usize, MidCrossWindowState>::empty(),
            r.trade_tape.prints@.len() == 0,
            r.ptb_locked_windows@.len() == 0,
            !r.maintenance.blocks_trading() && r.maintenance.label@ == "OK"@,
            r.maintenance_checked_window is None && r.last_next_find_attempt_ms == 0,
            r.hold == (HoldTotals {
                market_wins: 0,
                market_losses: 0,
                salvage_escapes: 0,
                salvage_wins: 0,
            }),
    {
        Session {
            asset: asset.to_owned(),
            strategy: strategy.to_owned(),
            portfolio: Portfolio::new(starting_bank),
            current_window: None,
            next_window: None,
            exclude_slugs: Vec::new(),
            next_window_number: 0,
            system_logs: no_lines(),
            spot_price: None,
            shutdown_pending: false,
            spot_series: SpotSeries::new(180, Num::uint(12)),
            llm_forecasts: Vec::new(),
            llm_forecast_attempted: Vec::new(),
            llm_forecast_scored: Vec::new(),
            llm_correct: 0,
            llm_wrong: 0,
            mid_cross_tracker: MidCrossTracker::new(),
            trade_tape: TradeTapeTracker::new(),
            ptb_locked_windows: Vec::new(),
            maintenance: MaintenanceStatus::default(),
            maintenance_checked_window: None,
            last_next_find_attempt_ms: 0,
            hold: HoldTotals::default(),
        }
    }

    /// The window of a number.
    pub open spec fn window(self, n: usize) -> WindowState {
        self.portfolio.windows@[self.portfolio.place_of(n)]
    }

    pub open spec fn lines(self) -> Seq<Seq<char>> {
        texts(self.system_logs@)
    }

    /// Whether `t` is `self` after a line of a feed.
    pub open spec fn logged(self, t: Session, msg: Seq<char>) -> bool {
        &&& t == (Session { system_logs: t.system_logs, ..self })
        &&& t.lines() == capped(self.lines().push(msg))
    }

    /// A line of a feed.
    pub fn on_log(&mut self, msg: String)
        requires
            old(self).wf(),
        ensures
            final(self).wf(),
            old(self).logged(*final(self), msg@),
    {
        log_capped(&mut self.system_logs, msg);
    }

    /// Whether `t` is `self` after a request to stop.
    pub open spec fn stopped(self, t: Session) -> bool {
        &&& t == (Session {
            shutdown_pending: true,
            system_logs: t.system_logs,
            ..self
        })
        &&& t.lines() == if self.shutdown_pending {
            self.lines()
        } else {
            self.lines().push(
                "[SYSTEM] SOFT SHUTDOWN INITIATED - NEXT window buys are now disabled!"@,
            )
        }
    }

    /// A request to stop: from then on nothing new is entered. A second one changes
    /// nothing.
    pub fn on_shutdown(&mut self)
        requires
            old(self).wf(),
        ensures
            final(self).wf(),
            old(self).stopped(*final(self)),
    {
        if !self.shutdown_pending {
            self.shutdown_pending = true;
            push_line(
                &mut self.system_logs,
                "[SYSTEM] SOFT SHUTDOWN INITIATED - NEXT window buys are now disabled!".to_owned(),
            );
        }
    }

    /// Whether a session that is to stop can end: no window is live or entered.
    pub open spec fn idle(self) -> bool {
        forall|i: int|
            0 <= i < self.portfolio.windows@.len() ==> (#[trigger] self.portfolio.windows@[i]).status@
                != "LIVE"@ && self.portfolio.windows@[i].status@ != "ENTERED_PRE_START"@
    }

    pub fn can_exit(&self) -> (r: bool)
        ensures
            r == (self.shutdown_pending && self.idle()),
    {
        if !self.shutdown_pending {
            return false;
        }
        let mut i: usize = 0;
        while i < self.portfolio.windows.len()
            invariant
                i <= self.portfolio.windows@.len(),
                forall|j: int|
                    0 <= j < i ==> (#[trigger] self.portfolio.windows@[j]).status@ != "LIVE"@
                        && self.portfolio.windows@[j].status@ != "ENTERED_PRE_START"@,
            decreases self.portfolio.windows@.len() - i,
        {
            let status: &str = self.portfolio.windows[i].status.as_str();
            if same_text(status, "LIVE") || same_text(status, "ENTERED_PRE_START") {
                return false;
            }
            i = i + 1;
        }
        true
    }

    /// The capture of a price to beat that a spot leads to in the running window.
    pub open spec fn capture(self, spot: Num, timestamp_ms: i64) -> Option<(Num, Seq<char>)> {
        match self.current_window {
            Some(n) => capture_of(
                self.ptb_locked_windows@.contains(n),
                self.window(n).market,
                rfc3339_millis_of(self.window(n).market.start_time@),
                spot,
                timestamp_ms,
            ),
            None => None,
        }
    }

    /// Whether `t` is `self` with the running window's price to beat taken from the feed,
    /// where it is to be taken.
    pub open spec fn captured(self, t: Session, spot: Num, timestamp_ms: i64) -> bool {
        match self.capture(spot, timestamp_ms) {
            None => t == self,
            Some((ptb, msg)) => {
                let n = self.current_window->0;
                let i = self.portfolio.place_of(n);
                let v = t.portfolio.windows@[i];
                &&& t == (Session {
                    system_logs: t.system_logs,
                    ptb_locked_windows: t.ptb_locked_windows,
                    portfolio: t.portfolio,
                    ..self
                })
                &&& t.lines() == self.lines().push(msg)
                &&& t.ptb_locked_windows@ == self.ptb_locked_windows@.push(n)
                &&& t.portfolio == (Portfolio { windows: t.portfolio.windows, ..self.portfolio })
                &&& t.portfolio.windows@ == self.portfolio.windows@.update(i, v)
                &&& v == (WindowState {
                    market: MarketWindow { price_to_beat: Some(ptb), ..self.window(n).market },
                    ..self.window(n)
                })
            },
        }
    }

    fn capture_ptb(&mut self, spot: Num, timestamp_ms: i64)
        requires
            old(self).wf(),
        ensures
            final(self).wf(),
            old(self).captured(*final(self), spot, timestamp_ms),
    {
        let n: usize = match self.current_window {
            Some(n) => n,
            None => {
                return;
            },
        };
        let i: usize = self.portfolio.find(n);
        let locked: bool = has_number(&self.ptb_locked_windows, n);
        let ghost before = self.portfolio.windows@;
        match evaluate_ptb_capture(locked, &self.portfolio.windows[i].market, spot, timestamp_ms) {
            Some((ptb, msg)) => {
                push_line(&mut self.system_logs, msg);
                self.ptb_locked_windows.push(n);
                self.portfolio.windows[i].market.price_to_beat = Some(ptb);
                proof {
                    assert(self.portfolio.windows@ =~= before.update(
                        i as int,
                        self.portfolio.windows@[i as int],
                    ));
                    lemma_same_numbers(before, self.portfolio.windows@);
                }
            },
            None => {},
        }
    }

    /// Whether `t` is `self` after a spot price, and `r` the window whose platform status is to be
    /// polled.
    pub open spec fn spot_ticked(
        self,
        t: Session,
        price: Num,
        timestamp: i64,
        decay: Num,
        r: Option<usize>,
    ) -> bool {
        &&& t.spot_price == Some(price)
        &&& self.spot_series.ticked(
            t.spot_series,
            normalize_event_timestamp_ms(timestamp),
            price,
            decay,
        )
        &&& self.captured(
            Session {
                spot_price: self.spot_price,
                spot_series: self.spot_series,
                maintenance_checked_window: self.maintenance_checked_window,
                ..t
            },
            price,
            normalize_event_timestamp_ms(timestamp),
        )
        &&& r == match self.current_window {
            Some(n) => if n != 0 && self.maintenance_checked_window != Some(n) {
                Some(n)
            } else {
                None
            },
            None => None,
        }
        &&& t.maintenance_checked_window == if r is Some {
            r
        } else {
            self.maintenance_checked_window
        }
    }

    /// A spot price: it becomes the session's, feeds the series and may set the price to
    /// beat. The result names the window whose platform status is to be polled now: once
    /// per window, from the first one on.
    pub fn on_spot_tick(&mut self, price: Num, timestamp: i64, decay: Num) -> (r: Option<usize>)
        requires
            old(self).wf(),
            old(self).spot_series.reaches(normalize_event_timestamp_ms(timestamp)),
        ensures
            final(self).wf(),
            old(self).spot_ticked(*final(self), price, timestamp, decay, r),
    {
        let timestamp_ms: i64 = normalize_event_timestamp_ms(timestamp);
        self.capture_ptb(price, timestamp_ms);
        self.spot_price = Some(price);
        self.spot_series.observe(timestamp_ms, price, decay);
        match self.current_window {
            Some(n) => {
                let checked: bool = match self.maintenance_checked_window {
                    Some(m) => m == n,
                    None => false,
                };
                if n != 0 && !checked {
                    self.maintenance_checked_window = Some(n);
                    Some(n)
                } else {
                    None
                }
            },
            None => None,
        }
    }

    /// The polled platform status of a window. Trouble pauses trading and is logged; so is
    /// a check that failed, which pauses nothing.
    pub fn on_status(&mut self, window_number: usize, status: MaintenanceStatus)
        requires
            old(self).wf(),
        ensures
            final(self).wf(),
            *final(self) == (Session {
                maintenance: status,
                system_logs: final(self).system_logs,
                ..*old(self)
            }),
            final(self).lines() == if status.blocks_trading() {
                old(self).lines().push(
                    filled(
                        "[STATUS] Polymarket {} — trading paused for window #{}"@,
                        seq![status.label@, dec_text(window_number as int)],
                    ),
                )
            } else if !status.checked {
                old(self).lines().push(
                    filled(
                        "[STATUS] Polymarket status check failed for window #{} — trading allowed"@,
                        seq![dec_text(window_number as int)],
                    ),
                )
            } else {
                old(self).lines()
            },
    {
        let number: String = uint_text(window_number as u64);
        if status.blocks_trading() {
            push_line(
                &mut self.system_logs,
                fill2(
                    "[STATUS] Polymarket {} — trading paused for window #{}",
                    status.label.as_str(),
                    number.as_str(),
                ),
            );
        } else if !status.checked {
            push_line(
                &mut self.system_logs,
                fill1(
                    "[STATUS] Polymarket status check failed for window #{} — trading allowed",
                    number.as_str(),
                ),
            );
        }
        self.maintenance = status;
    }
}

/// Windows keep their places while they keep their numbers.
pub proof fn lemma_same_numbers(a: Seq<WindowState>, b: Seq<WindowState>)
    requires
        a.len() == b.len(),
        forall|i: int|
            0 <= i < a.len() ==> (#[trigger] a[i]).window_number == (#[trigger] b[i]).window_number,
    ensures
        forall|n: usize| place(a, n) == place(b, n),
{
    assert forall|n: usize| place(a, n) == place(b, n) by {
        lemma_place_same(a, b, n);
    }
}

/// Whether a strategy does not trade the window that was already running at the start.
pub open spec fn warms_up(strategy: Seq<char>) -> bool {
    strategy == "dynamic_grid_e"@ || strategy == "cheap_hold_h"@ || strategy == "j_endgame"@
}

pub fn is_warmup_strategy(strategy: &str) -> (r: bool)
    ensures
        r == warms_up(strategy@),
{
    same_text(strategy, "dynamic_grid_e") || same_text(strategy, "cheap_hold_h") || same_text(
        strategy,
        "j_endgame",
    )
}

/// Seconds from a moment to the end of a window; none where the end is unknown.
pub open spec fn secs_until(end_ms: Option<i64>, timestamp: int) -> Option<i64> {
    match end_ms {
        Some(end) => Some(trunc_div(end - timestamp, 1000) as i64),
        None => None,
    }
}

pub fn seconds_until(end_ms: Option<i64>, timestamp: i64) -> (r: Option<i64>)
    requires
        end_ms matches Some(t) ==> i64::MIN <= t - timestamp <= i64::MAX,
    ensures
        r == secs_until(end_ms, timestamp as int),
{
    match end_ms {
        Some(end) => Some(div_toward_zero(end - timestamp, 1000)),
        None => None,
    }
}

/// Seconds from a moment to a market's end; none are left where the end is unknown.
pub fn seconds_to_end(market: &MarketWindow, now_ms: i64) -> (r: i64)
    requires
        spans_fit(now_ms),
    ensures
        r == match secs_until(rfc3339_millis_of(market.end_time@), now_ms as int) {
            Some(secs) => secs,
            None => 0,
        },
{
    match seconds_until(rfc3339_millis(market.end_time.as_str()), now_ms) {
        Some(secs) => secs,
        None => 0,
    }
}

/// What a tick of a running market leads to.
#[derive(Debug)]
pub struct MarketStep {
    /// A lead change to record.
    pub event: Option<MidCrossEvent>,
    /// Seconds to the end with which the strategy runs; none where it does not run.
    pub run: Option<i64>,
    /// Whether its signals are carried out.
    pub execute: bool,
}

pub open spec fn mid_cross_line(e: MidCrossEvent) -> Seq<char> {
    filled(
        "[MID CROSS] #{} {}→{} {} ATR={} @{}%"@,
        seq![
            dec_text(e.cross_count as int),
            opt_lead(e.from_side, "?"@),
            lead_text(e.to_side),
            if e.is_significant {
                "sig=yes"@
            } else {
                "sig=no"@
            },
            fixed_of(e.current_atr, 1),
            fixed_of(e.time_pct, 1),
        ],
    )
}

fn mid_cross_log(e: &MidCrossEvent) -> (r: String)
    ensures
        r@ == mid_cross_line(*e),
{
    let count: String = uint_text(e.cross_count as u64);
    let from: String = lead_or(e.from_side, "?");
    let atr: String = fixed(e.current_atr, 1);
    let pct: String = fixed(e.time_pct, 1);
    fill6(
        "[MID CROSS] #{} {}→{} {} ATR={} @{}%",
        count.as_str(),
        from.as_str(),
        e.to_side.as_str(),
        if e.is_significant {
            "sig=yes"
        } else {
            "sig=no"
        },
        atr.as_str(),
        pct.as_str(),
    )
}

impl Session {
    /// Whether the endgame strategy runs on a tick: it is the configured one, the window
    /// is not the one that was running at the start, and the platform is not in trouble.
    pub open spec fn j_runs(self, window_number: usize) -> bool {
        self.strategy@ == "j_endgame"@ && window_number != 0 && !self.maintenance.blocks_trading()
    }

    /// Seconds to the end with which the endgame strategy runs on a spot tick; none where
    /// it does not run or nothing is left.
    pub fn j_endgame_live_tick(&self, window_number: usize, market: &MarketWindow, timestamp: i64) -> (r:
        Option<i64>)
        requires
            spans_fit(timestamp),
        ensures
            r == match secs_until(rfc3339_millis_of(market.end_time@), timestamp as int) {
                Some(secs) => if self.j_runs(window_number) && secs > 0 {
                    Some(secs)
                } else {
                    None
                },
                None => None,
            },
    {
        if !same_text(self.strategy.as_str(), "j_endgame") || window_number == 0
            || self.maintenance.blocks_trading() {
            return None;
        }
        match seconds_until(rfc3339_millis(market.end_time.as_str()), timestamp) {
            Some(secs) => if secs > 0 {
                Some(secs)
            } else {
                None
            },
            None => None,
        }
    }

    /// Whether `t` is `self` with a window's prices set, and the window there.
    pub open spec fn priced(
        self,
        t: Session,
        window_number: usize,
        market: MarketView,
        prices: PricesView,
    ) -> bool {
        let i = self.portfolio.place_of(window_number);
        let v = t.portfolio.windows@[i];
        &&& t == (Session { portfolio: t.portfolio, ..self })
        &&& t.portfolio == (Portfolio { windows: t.portfolio.windows, ..self.portfolio })
        &&& t.portfolio.place_of(window_number) == i
        &&& v.prices@ == prices
        &&& if self.portfolio.has(window_number) {
            &&& t.portfolio.windows@ == self.portfolio.windows@.update(i, v)
            &&& v == (WindowState { prices: v.prices, role: v.role, ..self.window(window_number) })
            &&& v.role@ == self.window(window_number).role@
        } else {
            &&& t.portfolio.windows@.len() == self.portfolio.windows@.len() + 1
            &&& t.portfolio.windows@.drop_last() == self.portfolio.windows@
            &&& v.window_number == window_number
            &&& v.role@ == Seq::<char>::empty()
            &&& v.status@ == "WAITING_ENTRY"@
            &&& v.market@ == market
            &&& v.spent == Num::zero() && v.cash_returned == Num::zero()
            &&& v.up_shares == Num::zero() && v.down_shares == Num::zero()
            &&& v.trades@.len() == 0
        }
    }

    fn set_prices(&mut self, window_number: usize, market: &MarketWindow, prices: &PricesState)
        requires
            old(self).wf(),
        ensures
            final(self).wf(),
            final(self).portfolio.has(window_number),
            old(self).priced(*final(self), window_number, market@, prices@),
    {
        let ghost p0 = self.portfolio;
        let i: usize = self.portfolio.get_or_create_window_state(window_number, "", market);
        let ghost p1 = self.portfolio;
        self.portfolio.windows[i].prices = copy_prices(prices);
        proof {
            reveal_strlit("");
            assert(""@ =~= Seq::<char>::empty());
            lemma_same_numbers(p1.windows@, self.portfolio.windows@);
            lemma_kept(p0, p1, window_number, ""@, market@);
            if p0.has(window_number) {
                assert(self.portfolio.windows@ =~= p0.windows@.update(
                    i as int,
                    self.portfolio.windows@[i as int],
                ));
            } else {
                assert(self.portfolio.windows@.drop_last() =~= p0.windows@);
            }
        }
    }

    /// Whether `t` is `self` after a tick of a market, and `r` what it leads to.
    pub open spec fn market_ticked(
        self,
        t: Session,
        window_number: usize,
        role: Seq<char>,
        market: MarketWindow,
        prices: PricesState,
        timestamp: i64,
        current_atr: Num,
        r: MarketStep,
    ) -> bool {
        &&& ({
            let run = if role == "CURRENT"@ {
                secs_until(rfc3339_millis_of(market.end_time@), timestamp as int)
            } else {
                None
            };
            &&& r.run == run
            &&& r.execute == (run is Some && !(warms_up(self.strategy@) && window_number
                == 0))
            &&& self.priced(
                Session {
                    system_logs: self.system_logs,
                    mid_cross_tracker: self.mid_cross_tracker,
                    current_window: self.current_window,
                    ..t
                },
                window_number,
                market@,
                prices@,
            )
            &&& match run {
                None => {
                    &&& r.event is None
                    &&& t.system_logs == self.system_logs
                    &&& t.mid_cross_tracker == self.mid_cross_tracker
                    &&& t.current_window == self.current_window
                },
                Some(secs) => {
                    let pct = elapsed_pct(market_span(market), secs);
                    let s = self.mid_cross_tracker.window(window_number);
                    let up = mid_of(true, prices);
                    let down = mid_of(false, prices);
                    &&& t.current_window == Some(window_number)
                    &&& if pct.lt(mid_cross_arm_time_pct()) {
                        r.event is None && t.mid_cross_tracker@ == self.mid_cross_tracker@
                    } else {
                        &&& t.mid_cross_tracker@ == self.mid_cross_tracker@.insert(
                            window_number,
                            s.after(up, down, pct, current_atr),
                        )
                        &&& reports(r.event, s, up, down, pct, secs, current_atr)
                    }
                    &&& t.lines() == match r.event {
                        Some(e) => if e.event@ == "mid_cross"@ {
                            capped(self.lines().push(mid_cross_line(e)))
                        } else {
                            self.lines()
                        },
                        None => self.lines(),
                    }
                },
            }
        })
    }

    /// A tick of a market. The window takes on the prices. In the running window the lead
    /// is tracked and the strategy is to run, unless the end is unknown.
    pub fn on_market_tick(
        &mut self,
        window_number: usize,
        role: &str,
        market: &MarketWindow,
        prices: &PricesState,
        timestamp: i64,
        current_atr: Num,
    ) -> (r: MarketStep)
        requires
            old(self).wf(),
            spans_fit(timestamp),
            old(self).mid_cross_tracker.window(window_number).cross_count < u32::MAX,
        ensures
            final(self).wf(),
            old(self).market_ticked(
                *final(self),
                window_number,
                role@,
                *market,
                *prices,
                timestamp,
                current_atr,
                r,
            ),
    {
        self.set_prices(window_number, market, prices);
        if !same_text(role, "CURRENT") {
            return MarketStep { event: None, run: None, execute: false };
        }
        match seconds_until(rfc3339_millis(market.end_time.as_str()), timestamp) {
            None => MarketStep { event: None, run: None, execute: false },
            Some(secs_to_end) => {
                let event: Option<MidCrossEvent> = self.mid_cross_tracker.observe_tick(
                    window_number,
                    market,
                    prices,
                    secs_to_end,
                    current_atr,
                    self.spot_price,
                    SpotSignalSnapshot::default(),
                    timestamp,
                );
                if let Some(e) = event {
                    if same_text(e.event, "mid_cross") {
                        let line: String = mid_cross_log(&e);
                        log_capped(&mut self.system_logs, line);
                    }
                }
                self.current_window = Some(window_number);
                MarketStep {
                    event,
                    run: Some(secs_to_end),
                    execute: !(is_warmup_strategy(self.strategy.as_str()) && window_number == 0),
                }
            },
        }
    }

    /// Whether `t` is `self` after a print, and `r` the seconds to the end with which the strategy
    /// runs.
    pub open spec fn printed(
        self,
        t: Session,
        window_number: usize,
        role: Seq<char>,
        is_buy: bool,
        timestamp: i64,
        r: Option<i64>,
    ) -> bool {
        &&& r == if is_buy && role == "CURRENT"@ && self.strategy@ == "j_endgame"@
            && window_number != 0 && self.current_window is Some {
            secs_until(
                rfc3339_millis_of(
                    self.window(self.current_window->0).market.end_time@,
                ),
                timestamp as int,
            )
        } else {
            None
        }
        &&& ({
            let taken = is_buy && role == "CURRENT"@ && self.strategy@ == "j_endgame"@
                && window_number != 0 && self.current_window is Some;
            &&& !taken ==> t == self
            &&& taken ==> {
                &&& t == (Session {
                    portfolio: t.portfolio,
                    current_window: t.current_window,
                    ..self
                })
                &&& t.current_window == if r is Some {
                    Some(window_number)
                } else {
                    self.current_window
                }
                &&& self.portfolio.with_window(
                    t.portfolio,
                    window_number,
                    "CURRENT"@,
                    self.window(self.current_window->0).market@,
                )
            }
        })
    }

    /// Seconds to the end with which the strategy runs on a print: on a buy in the running
    /// window, for the endgame strategy, and not in the window that was running at the
    /// start. The window becomes the running one.
    pub fn on_trade_print(
        &mut self,
        window_number: usize,
        role: &str,
        is_buy: bool,
        timestamp: i64,
    ) -> (r: Option<i64>)
        requires
            old(self).wf(),
            spans_fit(timestamp),
        ensures
            final(self).wf(),
            old(self).printed(*final(self), window_number, role@, is_buy, timestamp, r),
    {
        if !is_buy || !same_text(role, "CURRENT") || !same_text(self.strategy.as_str(), "j_endgame")
            || window_number == 0 {
            return None;
        }
        let current: usize = match self.current_window {
            Some(n) => n,
            None => {
                return None;
            },
        };
        let i: usize = self.portfolio.find(current);
        let market: MarketWindow = copy_market(&self.portfolio.windows[i].market);
        let ghost p0 = self.portfolio;
        self.portfolio.get_or_create_window_state(window_number, "CURRENT", &market);
        proof {
            lemma_kept(p0, self.portfolio, window_number, "CURRENT"@, market@);
        }
        let secs: Option<i64> = seconds_until(rfc3339_millis(market.end_time.as_str()), timestamp);
        if secs.is_some() {
            self.current_window = Some(window_number);
        }
        secs
    }
}

/// A window that is there stays there when another one is added or takes on a role.
pub proof fn lemma_kept(p: Portfolio, t: Portfolio, number: usize, role: Seq<char>, market: MarketView)
    requires
        p.with_window(t, number, role, market),
    ensures
        t.has(number),
        forall|n: usize| p.has(n) ==> t.has(n) && t.place_of(n) == p.place_of(n),
{
    lemma_place(p.windows@, number);
    if p.has(number) {
        lemma_same_numbers(p.windows@, t.windows@);
    } else {
        assert forall|n: usize| p.has(n) implies t.has(n) && t.place_of(n) == p.place_of(n) by {
            lemma_place_prefix(p.windows@, t.windows@.last(), n);
            assert(t.windows@ =~= p.windows@.push(t.windows@.last()));
        }
    }
}

proof fn lemma_place_prefix(a: Seq<WindowState>, w: WindowState, n: usize)
    requires
        place(a, n) < a.len(),
    ensures
        place(a.push(w), n) == place(a, n),
    decreases a.len(),
{
    if a.len() > 0 && a[0].window_number != n {
        assert(a.push(w)[0] == a[0]);
        assert(a.push(w).drop_first() == a.drop_first().push(w));
        lemma_place_prefix(a.drop_first(), w, n);
    } else if a.len() > 0 {
        assert(a.push(w)[0] == a[0]);
    }
}

/// Whether `b` is the portfolio `a` after one signal for a window, and whether that was
/// carried out.
pub open spec fn carries_out(
    a: Portfolio,
    b: Portfolio,
    number: usize,
    sig: OrderSignal,
    done: bool,
) -> bool {
    if sig.is_buy {
        &&& done == a.can_buy(number, sig.side@, sig.price)
        &&& if done {
            a.bought(
                b,
                number,
                sig.side@,
                sig.amount,
                sig.amount / sig.price,
                sig.price,
                sig.reason@,
            )
        } else {
            b == a
        }
    } else {
        &&& done == a.can_sell(number, sig.side@, sig.price)
        &&& if done {
            let sold = sig.amount.min(held(a.windows@[a.place_of(number)], sig.side@));
            a.sold(b, number, sig.side@, sold, sold * sig.price, sig.price, sig.reason@)
        } else {
            b == a
        }
    }
}

/// Whether `steps` are the portfolios between signals that are carried out in order.
pub open spec fn runs_through(
    steps: Seq<Portfolio>,
    number: usize,
    signals: Seq<OrderSignal>,
    done: Seq<bool>,
) -> bool {
    &&& steps.len() == signals.len() + 1
    &&& done.len() == signals.len()
    &&& forall|i: int|
        0 <= i < signals.len() ==> #[trigger] carries_out(
            steps[i],
            steps[i + 1],
            number,
            signals[i],
            done[i],
        )
}

proof fn lemma_trade_keeps_places(a: Portfolio, b: Portfolio, number: usize, sig: OrderSignal, done: bool)
    requires
        carries_out(a, b, number, sig, done),
    ensures
        b.windows@.len() == a.windows@.len(),
        forall|n: usize| b.place_of(n) == a.place_of(n),
{
    if done {
        lemma_place(a.windows@, number);
        let i = a.place_of(number);
        assert(a.windows@[i].window_number == b.windows@[i].window_number);
        lemma_same_numbers(a.windows@, b.windows@);
    }
}

impl Session {
    /// Carries out a strategy's signals in a window, one after the other, and stamps the
    /// trades with the moment; the result says of each whether it was executed.
    pub fn execute_strategy_signals(
        &mut self,
        window_number: usize,
        signals: &Vec<OrderSignal>,
        now_ms: i64,
    ) -> (r: Vec<bool>)
        requires
            old(self).wf(),
        ensures
            final(self).wf(),
            *final(self) == (Session { portfolio: final(self).portfolio, ..*old(self) }),
            exists|steps: Seq<Portfolio>|
                {
                    &&& #[trigger] runs_through(steps, window_number, signals@, r@)
                    &&& steps[0] == old(self).portfolio.at(now_ms)
                    &&& steps.last() == final(self).portfolio
                },
    {
        self.portfolio.clock_ms = now_ms;
        let mut done: Vec<bool> = Vec::new();
        let ghost mut steps: Seq<Portfolio> = seq![self.portfolio];
        let ghost before = *self;
        let mut i: usize = 0;
        while i < signals.len()
            invariant
                i <= signals.len(),
                done@.len() == i,
                self.wf(),
                *self == (Session { portfolio: self.portfolio, ..before }),
                runs_through(steps, window_number, signals@.take(i as int), done@),
                steps[0] == before.portfolio,
                steps.last() == self.portfolio,
            decreases signals.len() - i,
        {
            let sig: &OrderSignal = &signals[i];
            let ghost a = self.portfolio;
            let executed: bool = if sig.is_buy {
                self.portfolio.execute_buy(
                    window_number,
                    sig.side.as_str(),
                    sig.amount,
                    sig.price,
                    sig.reason.as_str(),
                ).is_some()
            } else {
                self.portfolio.execute_sell(
                    window_number,
                    sig.side.as_str(),
                    sig.amount,
                    sig.price,
                    sig.reason.as_str(),
                ).is_some()
            };
            let ghost flags = done@;
            done.push(executed);
            proof {
                assert(carries_out(a, self.portfolio, window_number, *sig, executed));
                lemma_trade_keeps_places(a, self.portfolio, window_number, *sig, executed);
                let grown = steps.push(self.portfolio);
                assert forall|j: int| 0 <= j < i + 1 implies #[trigger] carries_out(
                    grown[j],
                    grown[j + 1],
                    window_number,
                    signals@.take(i + 1)[j],
                    done@[j],
                ) by {
                    if j < i {
                        assert(carries_out(
                            steps[j],
                            steps[j + 1],
                            window_number,
                            signals@.take(i as int)[j],
                            flags[j],
                        ));
                    }
                }
                steps = grown;
            }
            i = i + 1;
        }
        assert(signals@.take(i as int) =~= signals@);
        assert(runs_through(steps, window_number, signals@, done@));
        done
    }

    /// What the second's check of the upcoming window leads to.
    pub open spec fn next_check(self, now_ms: i64, pre: PreStartConfig, atr: Num, min_atr: Num) -> NextStep {
        match self.next_window {
            None => NextStep::Wait,
            Some(n) => next_step(
                self.window(n).status@ == "WAITING_ENTRY"@,
                rfc3339_millis_of(self.window(n).market.start_time@),
                now_ms as int,
                pre,
                self.shutdown_pending,
                atr,
                min_atr,
            ),
        }
    }

    /// Checks the upcoming window. One that is too quiet is logged, once.
    pub fn monitor_next(&mut self, now_ms: i64, pre: &PreStartConfig, atr: Num, min_atr: Num) -> (r:
        NextStep)
        requires
            old(self).wf(),
            spans_fit(now_ms),
        ensures
            final(self).wf(),
            r == old(self).next_check(now_ms, *pre, atr, min_atr),
            *final(self) == (Session { system_logs: final(self).system_logs, ..*old(self) }),
            final(self).lines() == if r == NextStep::TooQuiet {
                let line = quiet_line(old(self).next_window->0 as int, atr, min_atr);
                if old(self).lines().contains(line) {
                    old(self).lines()
                } else {
                    old(self).lines().push(line)
                }
            } else {
                old(self).lines()
            },
    {
        let n: usize = match self.next_window {
            Some(n) => n,
            None => {
                return NextStep::Wait;
            },
        };
        let i: usize = self.portfolio.find(n);
        let w: &WindowState = &self.portfolio.windows[i];
        let waiting: bool = same_text(w.status.as_str(), "WAITING_ENTRY");
        let start: Option<i64> = rfc3339_millis(w.market.start_time.as_str());
        let step: NextStep = check_next(
            waiting,
            start,
            now_ms,
            pre,
            self.shutdown_pending,
            atr,
            min_atr,
        );
        if step == NextStep::TooQuiet {
            let number: String = uint_text(n as u64);
            let shown_atr: String = fixed(atr, 4);
            let shown_min: String = fixed(min_atr, 4);
            let line: String = fill3(
                "[STRATEGY] Skipping Window #{}: Volatility too low (ATR: ${} < Min: ${})",
                number.as_str(),
                shown_atr.as_str(),
                shown_min.as_str(),
            );
            if !has_line(&self.system_logs, line.as_str()) {
                push_line(&mut self.system_logs, line);
            }
        }
        step
    }

    /// Carries out an entry plan in the upcoming window: both buys, where it was accepted,
    /// stamped with the moment, and the window counts as entered. Either way the plan's
    /// line is logged.
    pub fn enter(&mut self, plan: EntryPlan, entry: &EntrySignal, now_ms: i64)
        requires
            old(self).wf(),
            old(self).next_window is Some,
        ensures
            final(self).wf(),
            *final(self) == (Session {
                system_logs: final(self).system_logs,
                portfolio: final(self).portfolio,
                ..*old(self)
            }),
            final(self).lines() == old(self).lines().push(plan.log@),
            !plan.accepted ==> final(self).portfolio == old(self).portfolio,
            plan.accepted ==> exists|one: Portfolio, two: Portfolio|
                enters(
                    old(self).portfolio.at(now_ms),
                    one,
                    two,
                    final(self).portfolio,
                    old(self).next_window->0,
                    plan,
                    *entry,
                ),
    {
        let n: usize = match self.next_window {
            Some(n) => n,
            None => {
                return;
            },
        };
        push_line(&mut self.system_logs, plan.log);
        if !plan.accepted {
            return;
        }
        self.portfolio.clock_ms = now_ms;
        let ghost p0 = self.portfolio;
        self.portfolio.execute_buy(
            n,
            "UP",
            plan.buy_up_usd,
            entry.up_ask,
            entry.reason.as_str(),
        );
        let ghost p1 = self.portfolio;
        self.portfolio.execute_buy(
            n,
            "DOWN",
            plan.buy_down_usd,
            entry.down_ask,
            entry.reason.as_str(),
        );
        let ghost p2 = self.portfolio;
        proof {
            assert(buys(p0, p1, n, "UP"@, plan.buy_up_usd, entry.up_ask, entry.reason@));
            assert(buys(p1, p2, n, "DOWN"@, plan.buy_down_usd, entry.down_ask, entry.reason@));
            lemma_buy_keeps_places(p0, p1, n, "UP"@, plan.buy_up_usd, entry.up_ask, entry.reason@);
            lemma_buy_keeps_places(
                p1,
                p2,
                n,
                "DOWN"@,
                plan.buy_down_usd,
                entry.down_ask,
                entry.reason@,
            );
        }
        self.set_status(n, "ENTERED_PRE_START");
        assert(p0 == old(self).portfolio.at(now_ms));
        assert(enters(old(self).portfolio.at(now_ms), p1, p2, self.portfolio, n, plan, *entry));
    }

    fn set_status(&mut self, n: usize, status: &str)
        requires
            old(self).wf(),
            old(self).portfolio.has(n),
        ensures
            final(self).wf(),
            *final(self) == (Session { portfolio: final(self).portfolio, ..*old(self) }),
            restatused(old(self).portfolio, final(self).portfolio, n, status@),
            forall|m: usize| final(self).portfolio.place_of(m) == old(self).portfolio.place_of(m),
    {
        let i: usize = self.portfolio.find(n);
        let ghost before = self.portfolio.windows@;
        self.portfolio.windows[i].status = status.to_owned();
        proof {
            assert(self.portfolio.windows@ =~= before.update(
                i as int,
                self.portfolio.windows@[i as int],
            ));
            lemma_same_numbers(before, self.portfolio.windows@);
        }
    }

    /// The running window that is to be force-closed, with the seconds to its end: one that
    /// is live or skipped and more than ten seconds past its end.
    pub open spec fn overdue(self, now_ms: i64) -> Option<(usize, i64)> {
        match self.current_window {
            None => None,
            Some(n) => {
                let w = self.window(n);
                match secs_until(rfc3339_millis_of(w.market.end_time@), now_ms as int) {
                    Some(secs) => if is_open_status(w.status@) && secs < -10 {
                        Some((n, secs))
                    } else {
                        None
                    },
                    None => None,
                }
            },
        }
    }

    /// Looks for a running window past its end and logs that it is force-closed.
    pub fn safety_close(&mut self, now_ms: i64) -> (r: Option<(usize, i64)>)
        requires
            old(self).wf(),
            spans_fit(now_ms),
        ensures
            final(self).wf(),
            r == old(self).overdue(now_ms),
            *final(self) == (Session { system_logs: final(self).system_logs, ..*old(self) }),
            final(self).lines() == match r {
                Some((n, secs)) => old(self).lines().push(
                    filled(
                        "[SAFETY CLOSE] Window #{} past end time ({}s). Force closing."@,
                        seq![dec_text(n as int), int_text_of(secs as int)],
                    ),
                ),
                None => old(self).lines(),
            },
    {
        let n: usize = match self.current_window {
            Some(n) => n,
            None => {
                return None;
            },
        };
        let i: usize = self.portfolio.find(n);
        let w: &WindowState = &self.portfolio.windows[i];
        let open: bool = same_text(w.status.as_str(), "LIVE") || same_text(
            w.status.as_str(),
            "SKIPPED",
        );
        let secs: i64 = match seconds_until(rfc3339_millis(w.market.end_time.as_str()), now_ms) {
            Some(s) => s,
            None => {
                return None;
            },
        };
        if !open || secs >= -10 {
            return None;
        }
        let number: String = uint_text(n as u64);
        let shown: String = int_text(secs);
        push_line(
            &mut self.system_logs,
            fill2(
                "[SAFETY CLOSE] Window #{} past end time ({}s). Force closing.",
                number.as_str(),
                shown.as_str(),
            ),
        );
        Some((n, secs))
    }

    /// Whether to search for an upcoming window now: there is none, and the last search is
    /// ten seconds ago. The search is then noted.
    pub fn next_search_due(&mut self, now_ms: i64) -> (r: bool)
        requires
            old(self).wf(),
        ensures
            final(self).wf(),
            r == (old(self).next_window is None && now_ms - old(self).last_next_find_attempt_ms
                >= 10_000),
            *final(self) == (Session {
                last_next_find_attempt_ms: if r {
                    now_ms
                } else {
                    old(self).last_next_find_attempt_ms
                },
                ..*old(self)
            }),
    {
        if self.next_window.is_some() {
            return false;
        }
        if now_ms as i128 - self.last_next_find_attempt_ms as i128 >= 10_000 {
            self.last_next_find_attempt_ms = now_ms;
            true
        } else {
            false
        }
    }
}

/// Whether `b` is the portfolio `a` after a buy, or unchanged where it cannot be booked.
pub open spec fn buys(
    a: Portfolio,
    b: Portfolio,
    n: usize,
    side: Seq<char>,
    usd: Num,
    price: Num,
    reason: Seq<char>,
) -> bool {
    if a.can_buy(n, side, price) {
        a.bought(b, n, side, usd, usd / price, price, reason)
    } else {
        b == a
    }
}

/// Whether an entry leads from `a` over `one` and `two` to `b`: UP is bought, DOWN is
/// bought, and the window counts as entered.
pub open spec fn enters(
    a: Portfolio,
    one: Portfolio,
    two: Portfolio,
    b: Portfolio,
    n: usize,
    plan: EntryPlan,
    entry: EntrySignal,
) -> bool {
    &&& buys(a, one, n, "UP"@, plan.buy_up_usd, entry.up_ask, entry.reason@)
    &&& buys(one, two, n, "DOWN"@, plan.buy_down_usd, entry.down_ask, entry.reason@)
    &&& restatused(two, b, n, "ENTERED_PRE_START"@)
}

proof fn lemma_buy_keeps_places(
    a: Portfolio,
    b: Portfolio,
    n: usize,
    side: Seq<char>,
    usd: Num,
    price: Num,
    reason: Seq<char>,
)
    requires
        buys(a, b, n, side, usd, price, reason),
    ensures
        b.windows@.len() == a.windows@.len(),
        forall|m: usize| b.place_of(m) == a.place_of(m),
{
    if a.can_buy(n, side, price) {
        lemma_place(a.windows@, n);
        let i = a.place_of(n);
        assert(a.windows@[i].window_number == b.windows@[i].window_number);
        lemma_same_numbers(a.windows@, b.windows@);
    }
}

/// Whether `b` is the portfolio `a` with one window's status set.
pub open spec fn restatused(a: Portfolio, b: Portfolio, n: usize, status: Seq<char>) -> bool {
    let i = a.place_of(n);
    let v = b.windows@[i];
    &&& b == (Portfolio { windows: b.windows, ..a })
    &&& b.windows@ == a.windows@.update(i, v)
    &&& v == (WindowState { status: v.status, ..a.windows@[i] })
    &&& v.status@ == status
}

/// Whether a window still runs.
pub open spec fn is_open_status(status: Seq<char>) -> bool {
    status == "LIVE"@ || status == "SKIPPED"@
}

pub open spec fn quiet_line(number: int, atr: Num, min_atr: Num) -> Seq<char> {
    filled(
        "[STRATEGY] Skipping Window #{}: Volatility too low (ATR: ${} < Min: ${})"@,
        seq![dec_text(number), fixed_of(atr, 4), fixed_of(min_atr, 4)],
    )
}

/// Whether a log has a line.
pub fn has_line(logs: &Vec<String>, line: &str) -> (r: bool)
    ensures
        r == texts(logs@).contains(line@),
{
    let mut i: usize = 0;
    while i < logs.len()
        invariant
            i <= logs.len(),
            forall|j: int| 0 <= j < i ==> texts(logs@)[j] != line@,
        decreases logs.len() - i,
    {
        if same_text(logs[i].as_str(), line) {
            assert(texts(logs@)[i as int] == line@);
            return true;
        }
        i = i + 1;
    }
    false
}

/// What became of a promoted window.
#[derive(Debug)]
pub struct Promotion {
    pub window_number: usize,
    /// Whether it runs live; otherwise it is skipped.
    pub entered: bool,
    pub status_before: String,
}

/// What the question for a forecast leads to.
#[derive(Debug, Clone, Copy, PartialEq, Eq, Structural)]
pub enum ForecastStep {
    /// Forecasts are off, or this window was already tried without success.
    No,
    /// There is one already.
    Known,
    /// There is nobody to ask: the attempt is recorded as disabled.
    NobodyToAsk,
    /// Ask now.
    Ask,
}

/// What a closed window leaves behind.
#[derive(Debug)]
pub struct ClosedWindow {
    pub meta: WindowCloseMeta,
    pub winner: &'static str,
    pub pnl: Num,
    pub spent: Num,
    /// The window's statistics, where it counts for the hold strategy.
    pub hold: Option<HCloseStats>,
    /// The forecast's result, where it is scored now: whether it was right.
    pub forecast_correct: Option<bool>,
    /// The window's lead changes, where there is something to record.
    pub lead_summary: Option<MidCrossWindowSummary>,
}

/// Whether there is a forecast for a window.
pub open spec fn has_forecast(forecasts: Seq<(usize, LlmForecast)>, n: usize) -> bool {
    exists|i: int| 0 <= i < forecasts.len() && (#[trigger] forecasts[i]).0 == n
}

/// The first forecast for a window.
pub open spec fn forecast_for(forecasts: Seq<(usize, LlmForecast)>, n: usize) -> Option<LlmForecast>
    decreases forecasts.len(),
{
    if forecasts.len() == 0 {
        None
    } else if forecasts[0].0 == n {
        Some(forecasts[0].1)
    } else {
        forecast_for(forecasts.skip(1), n)
    }
}

/// The place of the first forecast for a window.
pub fn find_forecast(forecasts: &Vec<(usize, LlmForecast)>, n: usize) -> (r: Option<usize>)
    ensures
        match (r, forecast_for(forecasts@, n)) {
            (Some(i), Some(f)) => i < forecasts@.len() && forecasts@[i as int].1 == f
                && forecasts@[i as int].0 == n,
            (None, None) => true,
            _ => false,
        },
        r is Some <==> has_forecast(forecasts@, n),
{
    let mut i: usize = 0;
    assert(forecasts@.skip(0) == forecasts@);
    while i < forecasts.len()
        invariant
            i <= forecasts.len(),
            forecast_for(forecasts@, n) == forecast_for(forecasts@.skip(i as int), n),
            forall|j: int| 0 <= j < i ==> (#[trigger] forecasts@[j]).0 != n,
        decreases forecasts.len() - i,
    {
        assert(forecasts@.skip(i as int)[0] == forecasts@[i as int]);
        assert(forecasts@.skip(i as int).skip(1) == forecasts@.skip(i + 1));
        if forecasts[i].0 == n {
            return Some(i);
        }
        i = i + 1;
    }
    None
}

pub open spec fn promote_line(n: int, slug: Seq<char>, entered: bool) -> Seq<char> {
    filled(
        if entered {
            "[Lifecycle] PROMOTE NEXT WINDOW #{} ({}) TO CURRENT (LIVE)"@
        } else {
            "[Lifecycle] PROMOTE NEXT WINDOW #{} ({}) TO CURRENT (SKIPPED)"@
        },
        seq![dec_text(n), slug],
    )
}

pub open spec fn forecast_line(n: int, f: LlmForecast) -> Seq<char> {
    filled(
        "[LLM] Forecast Window #{}: {} {} ({})"@,
        seq![dec_text(n), f.side@, fixed_of(f.confidence, 2), f.signal_strength@],
    )
}

pub open spec fn result_line(n: int, side: Seq<char>, winner: Seq<char>) -> Seq<char> {
    filled(
        "[LLM] Result Window #{}: forecast {} | winner {} | {}"@,
        seq![
            dec_text(n),
            side,
            winner,
            if side == winner {
                "RIGHT"@
            } else {
                "WRONG"@
            },
        ],
    )
}

impl Session {
    /// Whether the upcoming window is entered: it was bought before its start, or the
    /// strategy trades within the window.
    pub open spec fn next_is_entered(self) -> bool {
        self.window(self.next_window->0).status@ == "ENTERED_PRE_START"@ || self.strategy@
            == "j_endgame"@
    }

    /// Whether `t` is `self` with the upcoming window promoted: it runs, live or skipped,
    /// every other running window is past, and there is no upcoming one.
    pub open spec fn promoted(self, t: Session) -> bool {
        let n = self.next_window->0;
        let k = self.portfolio.place_of(n);
        let entered = self.next_is_entered();
        &&& t == (Session {
            portfolio: t.portfolio,
            system_logs: t.system_logs,
            current_window: Some(n),
            next_window: None,
            next_window_number: t.next_window_number,
            ..self
        })
        &&& t.next_window_number == self.next_window_number + 1
        &&& t.lines() == self.lines().push(
            promote_line(n as int, self.window(n).market.slug@, entered),
        )
        &&& t.portfolio == (Portfolio {
            entered_windows: if entered {
                one_more(self.portfolio.entered_windows)
            } else {
                self.portfolio.entered_windows
            },
            skipped_windows: if entered {
                self.portfolio.skipped_windows
            } else {
                one_more(self.portfolio.skipped_windows)
            },
            windows: t.portfolio.windows,
            ..self.portfolio
        })
        &&& t.portfolio.windows@.len() == self.portfolio.windows@.len()
        &&& forall|i: int|
            0 <= i < t.portfolio.windows@.len() ==> {
                let w = self.portfolio.windows@[i];
                let v = #[trigger] t.portfolio.windows@[i];
                &&& v == (WindowState { role: v.role, status: v.status, ..w })
                &&& v.role@ == if i == k {
                    "CURRENT"@
                } else if w.role@ == "CURRENT"@ {
                    "PAST"@
                } else {
                    w.role@
                }
                &&& v.status@ == if i == k {
                    if entered {
                        "LIVE"@
                    } else {
                        "SKIPPED"@
                    }
                } else {
                    w.status@
                }
            }
    }

    /// The running window that a promotion overlaps, with the seconds to its end.
    pub fn overlapping(&mut self, now_ms: i64) -> (r: Option<(usize, i64)>)
        requires
            old(self).wf(),
            spans_fit(now_ms),
        ensures
            final(self).wf(),
            *final(self) == (Session { system_logs: final(self).system_logs, ..*old(self) }),
            r == match old(self).current_window {
                Some(n) => if old(self).next_window is Some && is_open_status(
                    old(self).window(n).status@,
                ) {
                    Some(
                        (
                            n,
                            match secs_until(
                                rfc3339_millis_of(old(self).window(n).market.end_time@),
                                now_ms as int,
                            ) {
                                Some(s) => s,
                                None => 0,
                            },
                        ),
                    )
                } else {
                    None
                },
                None => None,
            },
            final(self).lines() == match r {
                Some((n, _)) => old(self).lines().push(
                    filled(
                        "[Lifecycle] Force closing overlapping CURRENT Window #{}"@,
                        seq![dec_text(n as int)],
                    ),
                ),
                None => old(self).lines(),
            },
    {
        if self.next_window.is_none() {
            return None;
        }
        let n: usize = match self.current_window {
            Some(n) => n,
            None => {
                return None;
            },
        };
        let i: usize = self.portfolio.find(n);
        let w: &WindowState = &self.portfolio.windows[i];
        if !same_text(w.status.as_str(), "LIVE") && !same_text(w.status.as_str(), "SKIPPED") {
            return None;
        }
        let secs: i64 = match seconds_until(rfc3339_millis(w.market.end_time.as_str()), now_ms) {
            Some(s) => s,
            None => 0,
        };
        let number: String = uint_text(n as u64);
        push_line(
            &mut self.system_logs,
            fill1("[Lifecycle] Force closing overlapping CURRENT Window #{}", number.as_str()),
        );
        Some((n, secs))
    }

    /// Promotes the upcoming window to the running one, and takes its price to beat from
    /// the feed where there is a spot.
    pub fn promote_next_to_current(&mut self, now_ms: i64) -> (r: Option<Promotion>)
        requires
            old(self).wf(),
            old(self).next_window_number < usize::MAX,
        ensures
            final(self).wf(),
            match r {
                None => old(self).next_window is None && *final(self) == *old(self),
                Some(p) => {
                    &&& old(self).next_window == Some(p.window_number)
                    &&& p.entered == old(self).next_is_entered()
                    &&& p.status_before@ == old(self).window(p.window_number).status@
                    &&& exists|mid: Session|
                        #[trigger] old(self).promoted(mid) && match old(self).spot_price {
                            Some(spot) => mid.captured(*final(self), spot, now_ms),
                            None => *final(self) == mid,
                        }
                },
            },
    {
        let n: usize = match self.next_window {
            Some(n) => n,
            None => {
                return None;
            },
        };
        let ghost before = *self;
        let ghost p0 = self.portfolio;
        let k: usize = self.portfolio.find(n);
        let status_before: String = self.portfolio.windows[k].status.as_str().to_owned();
        let entered: bool = same_text(status_before.as_str(), "ENTERED_PRE_START") || same_text(
            self.strategy.as_str(),
            "j_endgame",
        );
        self.portfolio.retire_current();
        let ghost p1 = self.portfolio;
        proof {
            lemma_same_numbers(p0.windows@, p1.windows@);
        }
        let number: String = uint_text(n as u64);
        if entered {
            self.portfolio.entered_windows = add_one(self.portfolio.entered_windows);
            push_line(
                &mut self.system_logs,
                fill2(
                    "[Lifecycle] PROMOTE NEXT WINDOW #{} ({}) TO CURRENT (LIVE)",
                    number.as_str(),
                    self.portfolio.windows[k].market.slug.as_str(),
                ),
            );
        } else {
            self.portfolio.skipped_windows = add_one(self.portfolio.skipped_windows);
            push_line(
                &mut self.system_logs,
                fill2(
                    "[Lifecycle] PROMOTE NEXT WINDOW #{} ({}) TO CURRENT (SKIPPED)",
                    number.as_str(),
                    self.portfolio.windows[k].market.slug.as_str(),
                ),
            );
        }
        self.portfolio.windows[k].role = "CURRENT".to_owned();
        self.portfolio.windows[k].status =
        if entered {
            "LIVE".to_owned()
        } else {
            "SKIPPED".to_owned()
        };
        proof {
            lemma_same_numbers(p1.windows@, self.portfolio.windows@);
        }
        self.current_window = Some(n);
        self.next_window = None;
        self.next_window_number = self.next_window_number + 1;
        let ghost mid = *self;
        assert(before.promoted(mid));
        if let Some(spot) = self.spot_price {
            self.capture_ptb(spot, now_ms);
        }
        Some(Promotion { window_number: n, entered, status_before })
    }

    /// Takes in the window that runs at the start, or that there is none. Strategies that
    /// warm up skip it.
    pub fn on_active_market(&mut self, found: Option<&MarketWindow>)
        requires
            old(self).wf(),
        ensures
            final(self).wf(),
            final(self).next_window_number == 1,
            match found {
                None => {
                    &&& *final(self) == (Session {
                        next_window_number: 1,
                        system_logs: final(self).system_logs,
                        ..*old(self)
                    })
                    &&& final(self).lines() == old(self).lines().push(
                        "No active window found on Polymarket right now."@,
                    )
                },
                Some(m) => {
                    let warm = warms_up(old(self).strategy@);
                    &&& *final(self) == (Session {
                        next_window_number: 1,
                        current_window: Some(0),
                        system_logs: final(self).system_logs,
                        exclude_slugs: final(self).exclude_slugs,
                        portfolio: final(self).portfolio,
                        ..*old(self)
                    })
                    &&& texts(final(self).exclude_slugs@) == texts(old(self).exclude_slugs@).push(
                        m.slug@,
                    )
                    &&& final(self).lines() == {
                        let one = old(self).lines().push(
                            filled("FOUND ACTIVE CURRENT WINDOW: {}"@, seq![m.slug@]),
                        );
                        if warm {
                            one.push(
                                "[Strategy E] Window #0 is warmup only — trading starts at window #1"@,
                            )
                        } else {
                            one
                        }
                    }
                    &&& exists|p: Portfolio|
                        {
                            &&& #[trigger] old(self).portfolio.with_window(p, 0, "CURRENT"@, m@)
                            &&& restatused(
                                p,
                                Portfolio {
                                    skipped_windows: old(self).portfolio.skipped_windows,
                                    ..final(self).portfolio
                                },
                                0,
                                if warm {
                                    "SKIPPED"@
                                } else {
                                    "LIVE"@
                                },
                            )
                        }
                    &&& final(self).portfolio.skipped_windows == if warm {
                        one_more(old(self).portfolio.skipped_windows)
                    } else {
                        old(self).portfolio.skipped_windows
                    }
                },
            },
    {
        self.next_window_number = 1;
        let m: &MarketWindow = match found {
            Some(m) => m,
            None => {
                push_line(
                    &mut self.system_logs,
                    "No active window found on Polymarket right now.".to_owned(),
                );
                return;
            },
        };
        push_line(
            &mut self.system_logs,
            fill1("FOUND ACTIVE CURRENT WINDOW: {}", m.slug.as_str()),
        );
        push_line(&mut self.exclude_slugs, m.slug.as_str().to_owned());
        let warm: bool = is_warmup_strategy(self.strategy.as_str());
        let ghost p0 = self.portfolio;
        self.portfolio.get_or_create_window_state(0, "CURRENT", m);
        let ghost p1 = self.portfolio;
        proof {
            lemma_kept(p0, p1, 0, "CURRENT"@, m@);
        }
        if warm {
            self.set_status(0, "SKIPPED");
            self.portfolio.skipped_windows = add_one(self.portfolio.skipped_windows);
            push_line(
                &mut self.system_logs,
                "[Strategy E] Window #0 is warmup only — trading starts at window #1".to_owned(),
            );
        } else {
            self.set_status(0, "LIVE");
        }
        self.current_window = Some(0);
        assert(p0.with_window(p1, 0, "CURRENT"@, m@));
    }

    /// The moment after which an upcoming window is searched, with a line in the log; none
    /// where there is one already. It is the running window's start, or now.
    pub fn start_next_search(&mut self, now_ms: i64) -> (r: Option<i64>)
        requires
            old(self).wf(),
        ensures
            final(self).wf(),
            *final(self) == (Session { system_logs: final(self).system_logs, ..*old(self) }),
            r == if old(self).next_window is Some {
                None
            } else {
                Some(
                    match old(self).current_window {
                        Some(n) => match rfc3339_millis_of(old(self).window(n).market.start_time@) {
                            Some(t) => t,
                            None => now_ms,
                        },
                        None => now_ms,
                    },
                )
            },
            final(self).lines() == if r is Some {
                old(self).lines().push(
                    filled(
                        "Searching for NEXT WINDOW #{}..."@,
                        seq![dec_text(old(self).next_window_number as int)],
                    ),
                )
            } else {
                old(self).lines()
            },
    {
        if self.next_window.is_some() {
            return None;
        }
        let after: i64 = match self.current_window {
            Some(n) => {
                let i: usize = self.portfolio.find(n);
                match rfc3339_millis(self.portfolio.windows[i].market.start_time.as_str()) {
                    Some(t) => t,
                    None => now_ms,
                }
            },
            None => now_ms,
        };
        let number: String = uint_text(self.next_window_number as u64);
        push_line(
            &mut self.system_logs,
            fill1("Searching for NEXT WINDOW #{}...", number.as_str()),
        );
        Some(after)
    }

    /// Takes in the upcoming window that a search found, or that it found none.
    pub fn on_next_market(&mut self, found: Option<&MarketWindow>)
        requires
            old(self).wf(),
        ensures
            final(self).wf(),
            match found {
                None => {
                    &&& *final(self) == (Session {
                        system_logs: final(self).system_logs,
                        ..*old(self)
                    })
                    &&& final(self).lines() == old(self).lines().push(
                        "No upcoming NEXT window found. Retrying in 10s..."@,
                    )
                },
                Some(m) => {
                    let n = old(self).next_window_number;
                    &&& *final(self) == (Session {
                        next_window: Some(n),
                        system_logs: final(self).system_logs,
                        exclude_slugs: final(self).exclude_slugs,
                        portfolio: final(self).portfolio,
                        ..*old(self)
                    })
                    &&& texts(final(self).exclude_slugs@) == texts(old(self).exclude_slugs@).push(
                        m.slug@,
                    )
                    &&& final(self).lines() == old(self).lines().push(
                        filled("FOUND NEXT WINDOW #{}: {}"@, seq![dec_text(n as int), m.slug@]),
                    )
                    &&& old(self).portfolio.with_window(final(self).portfolio, n, "NEXT"@, m@)
                },
            },
    {
        let m: &MarketWindow = match found {
            Some(m) => m,
            None => {
                push_line(
                    &mut self.system_logs,
                    "No upcoming NEXT window found. Retrying in 10s...".to_owned(),
                );
                return;
            },
        };
        let n: usize = self.next_window_number;
        let number: String = uint_text(n as u64);
        push_line(
            &mut self.system_logs,
            fill2("FOUND NEXT WINDOW #{}: {}", number.as_str(), m.slug.as_str()),
        );
        push_line(&mut self.exclude_slugs, m.slug.as_str().to_owned());
        let ghost p0 = self.portfolio;
        self.portfolio.get_or_create_window_state(n, "NEXT", m);
        proof {
            lemma_kept(p0, self.portfolio, n, "NEXT"@, m@);
        }
        self.next_window = Some(n);
    }

    /// What the question for a forecast of a window leads to.
    pub open spec fn forecast_step(self, enabled: bool, available: bool, n: usize) -> ForecastStep {
        if !enabled {
            ForecastStep::No
        } else if has_forecast(self.llm_forecasts@, n) {
            ForecastStep::Known
        } else if self.llm_forecast_attempted@.contains(n) {
            ForecastStep::No
        } else if !available {
            ForecastStep::NobodyToAsk
        } else {
            ForecastStep::Ask
        }
    }

    /// Whether to ask for a forecast of a window. Each window is tried once.
    pub fn get_or_request_llm_forecast(&mut self, enabled: bool, available: bool, n: usize) -> (r:
        ForecastStep)
        requires
            old(self).wf(),
        ensures
            final(self).wf(),
            r == old(self).forecast_step(enabled, available, n),
            *final(self) == (Session {
                llm_forecast_attempted: final(self).llm_forecast_attempted,
                ..*old(self)
            }),
            final(self).llm_forecast_attempted@ == if r is NobodyToAsk || r is Ask {
                old(self).llm_forecast_attempted@.push(n)
            } else {
                old(self).llm_forecast_attempted@
            },
    {
        if !enabled {
            return ForecastStep::No;
        }
        if find_forecast(&self.llm_forecasts, n).is_some() {
            return ForecastStep::Known;
        }
        if has_number(&self.llm_forecast_attempted, n) {
            return ForecastStep::No;
        }
        self.llm_forecast_attempted.push(n);
        if available {
            ForecastStep::Ask
        } else {
            ForecastStep::NobodyToAsk
        }
    }

    /// Takes in the answer to a request for a forecast.
    pub fn on_forecast(&mut self, n: usize, answer: Result<LlmForecast, String>)
        requires
            old(self).wf(),
        ensures
            final(self).wf(),
            *final(self) == (Session {
                system_logs: final(self).system_logs,
                llm_forecasts: final(self).llm_forecasts,
                ..*old(self)
            }),
            match answer {
                Ok(f) => {
                    &&& final(self).llm_forecasts@ == old(self).llm_forecasts@.push((n, f))
                    &&& final(self).lines() == old(self).lines().push(forecast_line(n as int, f))
                },
                Err(e) => {
                    &&& final(self).llm_forecasts == old(self).llm_forecasts
                    &&& final(self).lines() == old(self).lines().push(
                        filled(
                            "[LLM] Forecast Window #{} failed: {}"@,
                            seq![dec_text(n as int), e@],
                        ),
                    )
                },
            },
    {
        let number: String = uint_text(n as u64);
        match answer {
            Ok(f) => {
                let confidence: String = fixed(f.confidence, 2);
                push_line(
                    &mut self.system_logs,
                    fill4(
                        "[LLM] Forecast Window #{}: {} {} ({})",
                        number.as_str(),
                        f.side.as_str(),
                        confidence.as_str(),
                        f.signal_strength.as_str(),
                    ),
                );
                self.llm_forecasts.push((n, f));
            },
            Err(e) => {
                push_line(
                    &mut self.system_logs,
                    fill2("[LLM] Forecast Window #{} failed: {}", number.as_str(), e.as_str()),
                );
            },
        }
    }

    /// Whether a window's forecast is to be scored: not yet scored, there is one, and the
    /// window has a winner.
    pub open spec fn scores(self, n: usize, winner: Seq<char>) -> bool {
        !self.llm_forecast_scored@.contains(n) && forecast_for(self.llm_forecasts@, n) is Some
            && winner.len() > 0
    }

    /// Scores a window's forecast against its winner, once. The result says whether it was
    /// right.
    pub fn record_llm_result(&mut self, n: usize, winner: &str) -> (r: Option<bool>)
        requires
            old(self).wf(),
        ensures
            final(self).wf(),
            r is Some <==> old(self).scores(n, winner@),
            match r {
                None => *final(self) == *old(self),
                Some(correct) => {
                    let side = forecast_for(old(self).llm_forecasts@, n)->0.side@;
                    &&& correct == (side == winner@)
                    &&& *final(self) == (Session {
                        system_logs: final(self).system_logs,
                        llm_forecast_scored: final(self).llm_forecast_scored,
                        llm_correct: if correct {
                            one_more(old(self).llm_correct)
                        } else {
                            old(self).llm_correct
                        },
                        llm_wrong: if correct {
                            old(self).llm_wrong
                        } else {
                            one_more(old(self).llm_wrong)
                        },
                        ..*old(self)
                    })
                    &&& final(self).llm_forecast_scored@ == old(self).llm_forecast_scored@.push(n)
                    &&& final(self).lines() == old(self).lines().push(
                        result_line(n as int, side, winner@),
                    )
                },
            },
    {
        if has_number(&self.llm_forecast_scored, n) || winner.unicode_len() == 0 {
            return None;
        }
        let i: usize = match find_forecast(&self.llm_forecasts, n) {
            Some(i) => i,
            None => {
                return None;
            },
        };
        let correct: bool = same_text(self.llm_forecasts[i].1.side.as_str(), winner);
        if correct {
            self.llm_correct = add_one(self.llm_correct);
        } else {
            self.llm_wrong = add_one(self.llm_wrong);
        }
        self.llm_forecast_scored.push(n);
        let number: String = uint_text(n as u64);
        push_line(
            &mut self.system_logs,
            fill4(
                "[LLM] Result Window #{}: forecast {} | winner {} | {}",
                number.as_str(),
                self.llm_forecasts[i].1.side.as_str(),
                winner,
                if correct {
                    "RIGHT"
                } else {
                    "WRONG"
                },
            ),
        );
        Some(correct)
    }

    /// The log after a close, before the forecast is scored: windows of the hold strategy
    /// that were traded are reported.
    pub open spec fn close_lines(
        self,
        n: usize,
        closed: WindowState,
        entry_side: Seq<char>,
        winner: Seq<char>,
    ) -> Seq<Seq<char>> {
        if self.counts_hold(n) {
            capped(
                self.lines().push(
                    h_close_line(
                        n as int,
                        entry_side,
                        winner,
                        close_stats(closed.trades@, entry_side, winner),
                        closed.cash_returned - closed.spent,
                    ),
                ),
            )
        } else {
            self.lines()
        }
    }

    /// Whether a closed window counts for the hold strategy: it runs, and money was spent.
    pub open spec fn counts_hold(self, n: usize) -> bool {
        self.strategy@ == "cheap_hold_h"@ && self.window(n).spent.gt(Num::zero())
    }

    /// Closes a window with a status at a moment: its figures are taken, the portfolio
    /// settles it, the hold strategy counts it, its forecast is scored and its lead is no
    /// longer tracked.
    pub fn close_window_tracked(
        &mut self,
        n: usize,
        status: &str,
        secs_to_end: i64,
        atr: Num,
        now_ms: i64,
    ) -> (r: ClosedWindow)
        requires
            old(self).wf(),
            old(self).portfolio.has(n),
        ensures
            final(self).wf(),
            ({
                let w = old(self).window(n);
                let closed = final(self).window(n);
                let snap = if old(self).mid_cross_tracker@.contains_key(n) {
                    old(self).mid_cross_tracker@[n].to_snapshot()
                } else {
                    MidCrossSnapshot::blank()
                };
                let summary = if old(self).mid_cross_tracker@.contains_key(n) {
                    old(self).mid_cross_tracker@[n].to_summary()
                } else {
                    MidCrossWindowSummary::blank()
                };
                let lines = old(self).close_lines(n, closed, r.meta.entry_side@, r.winner@);
                &&& is_close_meta(
                    r.meta,
                    old(self).strategy@,
                    w,
                    old(self).spot_price,
                    atr,
                    snap,
                    secs_to_end,
                )
                &&& r.winner@ == winner_of(old(self).spot_price, w.market.price_to_beat)
                &&& old(self).portfolio.at(now_ms).closed(
                    final(self).portfolio,
                    n,
                    status@,
                    r.winner@,
                )
                &&& r.hold == if old(self).counts_hold(n) {
                    Some(close_stats(closed.trades@, r.meta.entry_side@, r.winner@))
                } else {
                    None
                }
                &&& final(self).hold == match r.hold {
                    Some(h) => old(self).hold.with(h),
                    None => old(self).hold,
                }
                &&& r.pnl == closed.cash_returned - closed.spent
                &&& r.spent == w.spent
                &&& final(self).mid_cross_tracker@ == old(self).mid_cross_tracker@.remove(n)
                &&& r.lead_summary == if summary.cross_count > 0 || summary.final_side is Some {
                    Some(summary)
                } else {
                    None
                }
                &&& r.forecast_correct is Some <==> old(self).scores(n, r.winner@)
                &&& *final(self) == (Session {
                    portfolio: final(self).portfolio,
                    system_logs: final(self).system_logs,
                    mid_cross_tracker: final(self).mid_cross_tracker,
                    llm_forecast_scored: final(self).llm_forecast_scored,
                    hold: final(self).hold,
                    llm_correct: if r.forecast_correct == Some(true) {
                        one_more(old(self).llm_correct)
                    } else {
                        old(self).llm_correct
                    },
                    llm_wrong: if r.forecast_correct == Some(false) {
                        one_more(old(self).llm_wrong)
                    } else {
                        old(self).llm_wrong
                    },
                    ..*old(self)
                })
                &&& match r.forecast_correct {
                    Some(correct) => {
                        let side = forecast_for(old(self).llm_forecasts@, n)->0.side@;
                        &&& correct == (side == r.winner@)
                        &&& final(self).llm_forecast_scored@ == old(self).llm_forecast_scored@.push(
                            n,
                        )
                        &&& final(self).lines() == lines.push(
                            result_line(n as int, side, r.winner@),
                        )
                    },
                    None => {
                        &&& final(self).llm_forecast_scored == old(self).llm_forecast_scored
                        &&& final(self).lines() == lines
                    },
                }
            }),
    {
        let ghost before = *self;
        let i: usize = self.portfolio.find(n);
        let snap: MidCrossSnapshot = self.mid_cross_tracker.snapshot(n);
        let meta: WindowCloseMeta = build_window_close_meta(
            self.strategy.as_str(),
            &self.portfolio.windows[i],
            self.spot_price,
            atr,
            &snap,
            secs_to_end,
        );
        let winner: &'static str = close_winner(
            self.spot_price,
            self.portfolio.windows[i].market.price_to_beat,
        );
        let spent: Num = self.portfolio.windows[i].spent;
        self.portfolio.clock_ms = now_ms;
        let ghost p0 = self.portfolio;
        self.portfolio.close_window(n, status, winner);
        proof {
            lemma_place(p0.windows@, n);
            assert(p0.windows@[i as int].window_number
                == self.portfolio.windows@[i as int].window_number);
            lemma_same_numbers(p0.windows@, self.portfolio.windows@);
        }
        let pnl: Num = self.portfolio.windows[i].cash_returned - self.portfolio.windows[i].spent;
        let mut hold: Option<HCloseStats> = None;
        if same_text(self.strategy.as_str(), "cheap_hold_h") && spent.gt(Num::zero()) {
            let h: HCloseStats = derive_h_close_stats(
                self.portfolio.windows[i].trades.as_slice(),
                meta.entry_side.as_str(),
                winner,
            );
            self.hold.count(&h);
            hold = Some(h);
            let line: String = h_close_log(
                n,
                &self.portfolio.windows[i].trades,
                meta.entry_side.as_str(),
                winner,
                pnl,
            );
            log_capped(&mut self.system_logs, line);
        }
        let forecast_correct: Option<bool> = self.record_llm_result(n, winner);
        let summary: MidCrossWindowSummary = self.mid_cross_tracker.finalize_window(n);
        let lead_summary: Option<MidCrossWindowSummary> = if summary.cross_count > 0
            || summary.final_side.is_some() {
            Some(summary)
        } else {
            None
        };
        self.mid_cross_tracker.remove_window(n);
        ClosedWindow { meta, winner, pnl, spent, hold, forecast_correct, lead_summary }
    }
}

/// What an event asks for.
#[derive(Debug)]
pub enum EventStep {
    Nothing,
    /// A spot tick: the window whose platform status is to be polled.
    Spot(Option<usize>),
    /// A market tick.
    Market(MarketStep),
    /// A print: the seconds to the end with which the strategy runs.
    Print(Option<i64>),
}

impl Session {
    /// The session with a buy on the tape; a sale leaves it as it is.
    pub open spec fn taped(
        self,
        t: Session,
        window_number: usize,
        side: Seq<char>,
        usd: Num,
        is_buy: bool,
        timestamp: i64,
        tape_window_ms: i64,
    ) -> bool {
        if is_buy {
            &&& t == (Session { trade_tape: t.trade_tape, ..self })
            &&& t.trade_tape.prints@ == from_moment(
                self.trade_tape.prints@.push(
                    TapePrint { window_number, up: side == "UP"@, usd, timestamp },
                ),
                timestamp - tape_window_ms,
            )
        } else {
            t == self
        }
    }

    /// Whether an event can be handled: its moment can be subtracted from, and a window's
    /// lead changes can still be counted.
    pub open spec fn accepts(self, event: MarketEvent) -> bool {
        match event {
            MarketEvent::Log(_) => true,
            MarketEvent::ShutdownRequested => true,
            MarketEvent::SpotTick { asset: _, price: _, timestamp } => {
                self.spot_series.reaches(normalize_event_timestamp_ms(timestamp))
            },
            MarketEvent::MarketTick { window_number, role: _, market: _, prices: _, timestamp } => {
                spans_fit(timestamp) && self.mid_cross_tracker.window(window_number).cross_count
                    < u32::MAX
            },
            MarketEvent::TradePrint {
                window_number: _,
                role: _,
                side: _,
                price: _,
                usd: _,
                is_buy: _,
                timestamp,
            } => spans_fit(timestamp),
        }
    }

    /// Whether `t` is `self` after an event, and `r` what it asks for.
    pub open spec fn processed(
        self,
        t: Session,
        event: MarketEvent,
        decay: Num,
        atr: Num,
        tape_window_ms: i64,
        r: EventStep,
    ) -> bool {
        match event {
            MarketEvent::Log(msg) => r is Nothing && self.logged(t, msg@),
            MarketEvent::ShutdownRequested => r is Nothing && self.stopped(t),
            MarketEvent::SpotTick { asset: _, price, timestamp } => {
                r matches EventStep::Spot(poll) && self.spot_ticked(
                    t,
                    price,
                    timestamp,
                    decay,
                    poll,
                )
            },
            MarketEvent::MarketTick { window_number, role, market, prices, timestamp } => {
                r matches EventStep::Market(step) && self.market_ticked(
                    t,
                    window_number,
                    role@,
                    market,
                    prices,
                    timestamp,
                    atr,
                    step,
                )
            },
            MarketEvent::TradePrint {
                window_number,
                role,
                side,
                price: _,
                usd,
                is_buy,
                timestamp,
            } => {
                r matches EventStep::Print(secs) && exists|mid: Session|
                    {
                        &&& #[trigger] self.taped(
                            mid,
                            window_number,
                            side@,
                            usd,
                            is_buy,
                            timestamp,
                            tape_window_ms,
                        )
                        &&& mid.printed(t, window_number, role@, is_buy, timestamp, secs)
                    }
            },
        }
    }

    /// Handles an event of a feed. `decay` is the weight that the smoothed velocity keeps
    /// over the span of a spot tick.
    pub fn process_event(&mut self, event: MarketEvent, decay: Num, atr: Num, tape_window_ms: i64) -> (r:
        EventStep)
        requires
            old(self).wf(),
            old(self).accepts(event),
        ensures
            final(self).wf(),
            old(self).processed(*final(self), event, decay, atr, tape_window_ms, r),
    {
        match event {
            MarketEvent::Log(msg) => {
                self.on_log(msg);
                EventStep::Nothing
            },
            MarketEvent::ShutdownRequested => {
                self.on_shutdown();
                EventStep::Nothing
            },
            MarketEvent::SpotTick { asset: _, price, timestamp } => {
                EventStep::Spot(self.on_spot_tick(price, timestamp, decay))
            },
            MarketEvent::MarketTick { window_number, role, market, prices, timestamp } => {
                EventStep::Market(
                    self.on_market_tick(
                        window_number,
                        role.as_str(),
                        &market,
                        &prices,
                        timestamp,
                        atr,
                    ),
                )
            },
            MarketEvent::TradePrint {
                window_number,
                role,
                side,
                price: _,
                usd,
                is_buy,
                timestamp,
            } => {
                let ghost before = *self;
                if is_buy {
                    self.trade_tape.record_buy(
                        window_number,
                        side.as_str(),
                        usd,
                        timestamp,
                        tape_window_ms,
                    );
                }
                assert(before.taped(
                    *self,
                    window_number,
                    side@,
                    usd,
                    is_buy,
                    timestamp,
                    tape_window_ms,
                ));
                EventStep::Print(
                    self.on_trade_print(window_number, role.as_str(), is_buy, timestamp),
                )
            },
        }
    }
}

} // verus!
