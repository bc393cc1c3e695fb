use gem_endgame::client::{ContractPrices, MarketEvent, MarketWindow, PricesState, TokenInfo, TokensMap};
use gem_endgame::config::{PreStartConfig, SessionConfig};
use gem_endgame::entry::{allocate_entry_usd, entry_budget, plan_entry, NextStep};
use gem_endgame::maintenance::MaintenanceStatus;
use gem_endgame::num::Num;
use gem_endgame::session::{evaluate_ptb_capture, seconds_to_end, EventStep, ForecastStep, Session};
use gem_endgame::spot_series::{normalize_event_timestamp_ms, SpotSeries};
use gem_endgame::strategy::{EntryMode, EntrySignal, LlmForecast, OrderSignal, OrderType, StrategyEngine, StrategyKind};
use gem_endgame::trade_tape::{winner_stats, TradeTapeTracker};

fn n(x: f64) -> Num {
    Num::from_bits(x.to_bits())
}

fn f(x: Num) -> f64 {
    f64::from_bits(x.to_bits())
}

/// Midnight of 21 June 2026.
const START: i64 = 1_782_000_000_000;

fn market(slug: &str, start: &str, end: &str, ptb: Option<f64>) -> MarketWindow {
    MarketWindow {
        id: "m".into(),
        slug: slug.into(),
        question: "q".into(),
        asset: "BTC".into(),
        interval: "5m".into(),
        start_time: start.into(),
        end_time: end.into(),
        price_to_beat: ptb.map(n),
        tokens: TokensMap {
            up: TokenInfo { token_id: "1".into(), outcome_name: "Up".into() },
            down: TokenInfo { token_id: "2".into(), outcome_name: "Down".into() },
        },
    }
}

fn first() -> MarketWindow {
    market("w0", "2026-06-21T00:00:00Z", "2026-06-21T00:05:00Z", None)
}

fn second() -> MarketWindow {
    market("w1", "2026-06-21T00:05:00Z", "2026-06-21T00:10:00Z", None)
}

fn prices(up: f64, down: f64) -> PricesState {
    PricesState {
        up: ContractPrices::top(n(up - 0.01), n(up)),
        down: ContractPrices::top(n(down - 0.01), n(down)),
    }
}

fn session(strategy: &str) -> Session {
    Session::new("BTC", strategy, n(100.0))
}

fn running(strategy: &str) -> Session {
    let mut s = session(strategy);
    s.on_active_market(Some(&first()));
    s.on_next_market(Some(&second()));
    s
}

fn pre() -> PreStartConfig {
    PreStartConfig {
        enabled: true,
        min_seconds_before_start: 5,
        max_seconds_before_start: 120,
        min_side_ask: n(0.0),
        max_side_ask: n(1.0),
    }
}

fn budget() -> SessionConfig {
    SessionConfig {
        starting_bank: n(100.0),
        min_window_budget: n(5.0),
        max_window_budget: n(20.0),
        window_budget_pct: n(10.0),
    }
}

fn entry(mode: EntryMode) -> EntrySignal {
    EntrySignal {
        up_ask: n(0.5),
        down_ask: n(0.4),
        budget_multiplier: n(1.0),
        cheaper_side_ratio: n(0.6),
        mode,
        reason: "entry".into(),
    }
}

fn forecast(side: &str) -> LlmForecast {
    LlmForecast {
        side: side.into(),
        confidence: n(0.625),
        signal_strength: "weak".into(),
        reason_short: "r".into(),
        key_drivers: vec![],
        risk_note: "n".into(),
    }
}

#[test]
fn the_log_keeps_thirty_lines() {
    let mut s = session("j_endgame");
    for i in 0..40 {
        s.process_event(MarketEvent::Log(format!("line {}", i)), n(0.0), n(0.0), 5_000);
    }
    assert_eq!(s.system_logs.len(), 30);
    assert_eq!(s.system_logs[29], "line 39");
    assert_eq!(s.system_logs[0], "line 10");
}

#[test]
fn shutdown_is_announced_once() {
    let mut s = running("simple_both");
    assert!(!s.can_exit());
    s.process_event(MarketEvent::ShutdownRequested, n(0.0), n(0.0), 5_000);
    let lines = s.system_logs.len();
    s.process_event(MarketEvent::ShutdownRequested, n(0.0), n(0.0), 5_000);
    assert_eq!(s.system_logs.len(), lines);
    assert!(s.shutdown_pending);
    assert!(!s.can_exit());
    s.close_window_tracked(0, "CLOSED_TIME", 0, n(30.0), 5_000);
    assert!(s.can_exit());
    let step = s.monitor_next(START + 250_000, &pre(), n(30.0), n(10.0));
    assert_eq!(step, NextStep::Wait);
}

#[test]
fn warmup_strategies_skip_the_window_that_already_runs() {
    let s = running("j_endgame");
    assert_eq!(s.portfolio.windows[0].status, "SKIPPED");
    assert_eq!(s.portfolio.skipped_windows, 1);
    assert_eq!(s.current_window, Some(0));
    assert_eq!(s.next_window, Some(1));
    assert_eq!(s.exclude_slugs, vec!["w0", "w1"]);
    let s = running("simple_both");
    assert_eq!(s.portfolio.windows[0].status, "LIVE");
    let mut none = session("j_endgame");
    none.on_active_market(None);
    assert_eq!(none.next_window_number, 1);
    assert_eq!(none.current_window, None);
    none.on_next_market(None);
    assert_eq!(none.system_logs[1], "No upcoming NEXT window found. Retrying in 10s...");
}

#[test]
fn the_price_to_beat_is_taken_once() {
    let mut s = running("j_endgame");
    s.on_spot_tick(n(60_000.0), START - 1, n(0.0));
    assert!(s.portfolio.windows[0].market.price_to_beat.is_none());
    s.on_spot_tick(n(60_010.0), START, n(0.0));
    assert_eq!(s.portfolio.windows[0].market.price_to_beat.map(f), Some(60_010.0));
    assert_eq!(s.ptb_locked_windows, vec![0]);
    assert!(s.system_logs.last().unwrap().contains("Captured exact open price from Chainlink WS: $60010.00"));
    s.on_spot_tick(n(61_000.0), START + 1_000, n(0.0));
    assert_eq!(s.portfolio.windows[0].market.price_to_beat.map(f), Some(60_010.0));
    let odd = market("w", "2026-06-21T00:00:00Z", "2026-06-21T00:05:00Z", Some(35.0));
    let (ptb, msg) = evaluate_ptb_capture(false, &odd, n(60_000.0), START).unwrap();
    assert_eq!(f(ptb), 60_000.0);
    assert!(msg.contains("Replaced implausible PTB"));
    assert!(evaluate_ptb_capture(true, &odd, n(60_000.0), START).is_none());
    assert!(evaluate_ptb_capture(false, &odd, n(0.0), START).is_none());
    let fine = market("w", "2026-06-21T00:00:00Z", "2026-06-21T00:05:00Z", Some(59_000.0));
    assert!(evaluate_ptb_capture(false, &fine, n(60_000.0), START).is_none());
    let lost = market("w", "no time", "", None);
    assert!(evaluate_ptb_capture(false, &lost, n(60_000.0), START).is_none());
}

#[test]
fn the_platform_is_polled_once_per_window() {
    let mut s = running("j_endgame");
    assert_eq!(s.on_spot_tick(n(60_000.0), START, n(0.0)), None);
    s.promote_next_to_current(START + 300_000).unwrap();
    assert_eq!(s.on_spot_tick(n(60_000.0), START + 300_000, n(0.0)), Some(1));
    assert_eq!(s.on_spot_tick(n(60_000.0), START + 301_000, n(0.0)), None);
    let bad = MaintenanceStatus { ok: false, checked: true, label: "INCIDENT!".into() };
    s.on_status(1, bad);
    assert_eq!(s.system_logs.last().unwrap(), "[STATUS] Polymarket INCIDENT! — trading paused for window #1");
    assert_eq!(s.j_endgame_live_tick(1, &second(), START + 310_000), None);
    s.on_status(1, MaintenanceStatus::unknown());
    assert_eq!(
        s.system_logs.last().unwrap(),
        "[STATUS] Polymarket status check failed for window #1 — trading allowed"
    );
    assert_eq!(s.j_endgame_live_tick(1, &second(), START + 310_000), Some(290));
    assert_eq!(s.j_endgame_live_tick(0, &second(), START + 310_000), None);
    assert_eq!(s.j_endgame_live_tick(1, &second(), START + 600_000), None);
}

#[test]
fn market_ticks_move_prices_and_track_the_lead() {
    let mut s = running("simple_both");
    let step = s.on_market_tick(0, "CURRENT", &first(), &prices(0.63, 0.38), START + 60_000, n(30.0));
    assert_eq!(step.run, Some(240));
    assert!(step.execute);
    assert_eq!(step.event.unwrap().event, "armed_init");
    assert_eq!(f(s.portfolio.windows[0].prices.up.ask), 0.63);
    let step = s.on_market_tick(0, "CURRENT", &first(), &prices(0.38, 0.63), START + 61_000, n(30.0));
    assert_eq!(step.event.unwrap().event, "mid_cross");
    assert_eq!(s.system_logs.last().unwrap(), "[MID CROSS] #1 UP→DOWN sig=yes ATR=30.0 @20.3%");
    let step = s.on_market_tick(1, "NEXT", &second(), &prices(0.5, 0.5), START + 62_000, n(30.0));
    assert!(step.run.is_none() && !step.execute && step.event.is_none());
    assert_eq!(f(s.portfolio.windows[1].prices.down.ask), 0.5);
    let mut warm = running("j_endgame");
    let step = warm.on_market_tick(0, "CURRENT", &first(), &prices(0.5, 0.5), START, n(30.0));
    assert!(!step.execute);
}

#[test]
fn prints_reach_the_tape_and_the_strategy() {
    let mut s = running("j_endgame");
    s.promote_next_to_current(START + 300_000).unwrap();
    let print = |is_buy: bool, side: &str, at: i64| MarketEvent::TradePrint {
        window_number: 1,
        role: "CURRENT".into(),
        side: side.into(),
        price: n(0.9),
        usd: n(10.0),
        is_buy,
        timestamp: at,
    };
    match s.process_event(print(true, "UP", START + 400_000), n(0.0), n(30.0), 5_000) {
        EventStep::Print(secs) => assert_eq!(secs, Some(200)),
        _ => unreachable!(),
    }
    match s.process_event(print(false, "UP", START + 401_000), n(0.0), n(30.0), 5_000) {
        EventStep::Print(secs) => assert_eq!(secs, None),
        _ => unreachable!(),
    }
    s.process_event(print(true, "DOWN", START + 404_000), n(0.0), n(30.0), 5_000);
    let tape = s.trade_tape.snapshot(1, START + 404_000, 5_000);
    assert_eq!((f(tape.up_buy_usd), tape.up_buy_count), (10.0, 1));
    assert_eq!((f(tape.down_buy_usd), tape.down_buy_count), (10.0, 1));
    let later = s.trade_tape.snapshot(1, START + 406_000, 5_000);
    assert_eq!(later.up_buy_count, 0);
    assert_eq!(winner_stats(&later, "DOWN").1, 1);
    let mut other = TradeTapeTracker::new();
    other.record_buy(2, "UP", n(1.0), 10, 5);
    assert_eq!(other.snapshot(1, 10, 5).up_buy_count, 0);
}

#[test]
fn signals_are_carried_out_in_order() {
    let mut s = running("simple_both");
    let signals = vec![
        OrderSignal::sell("UP", OrderType::Market, n(1.0), n(0.5), "nothing held"),
        OrderSignal::buy("UP", OrderType::Market, n(10.0), n(0.5), "buy"),
        OrderSignal::sell("UP", OrderType::Market, n(50.0), n(0.25), "sell all"),
    ];
    assert_eq!(s.execute_strategy_signals(0, &signals, 3_000), vec![false, true, true]);
    assert_eq!(f(s.portfolio.available_cash), 95.0);
    assert_eq!(s.portfolio.windows[0].trades.len(), 2);
    assert!(s.portfolio.windows[0].trades.iter().all(|t| t.timestamp == 3_000));
}

#[test]
fn budgets_and_splits() {
    assert_eq!(f(entry_budget(n(100.0), n(100.0), &budget(), n(1.0))), 10.0);
    assert_eq!(f(entry_budget(n(10.0), n(100.0), &budget(), n(1.0))), 5.0);
    assert_eq!(f(entry_budget(n(1000.0), n(100.0), &budget(), n(9.0))), 30.0);
    assert_eq!(f(entry_budget(n(100.0), n(6.0), &budget(), n(1.0))), 6.0);
    assert_eq!(f(entry_budget(n(100.0), n(4.0), &budget(), n(1.0))), 0.0);
    let (up, down) = allocate_entry_usd(n(10.0), n(0.5), n(0.5), n(0.6));
    assert_eq!((f(up), f(down)), (5.0, 5.0));
    let (up, down) = allocate_entry_usd(n(10.0), n(0.4), n(0.6), n(0.6));
    assert!((f(up) + f(down) - 10.0).abs() < 1e-9);
    assert!((f(down) - 4.8).abs() < 1e-9);
    assert_eq!(f(allocate_entry_usd(n(0.0), n(0.4), n(0.6), n(0.6)).0), 0.0);
    assert_eq!(f(allocate_entry_usd(n(1.0), n(0.4), n(-0.6), n(0.6)).1), 0.0);
}

#[test]
fn entries_stay_within_the_cash() {
    let plan = plan_entry(3, n(100.0), n(100.0), &budget(), &entry(EntryMode::OneSide("UP".into())));
    assert!(plan.accepted);
    assert_eq!(f(plan.total_cost), 10.0);
    assert_eq!(
        plan.log,
        "[STRATEGY] Pre-start entry Window #3: total $10.00 | UP $10.00 -> 20.0000 sh @ $0.50 | DOWN $0.00 -> 0.0000 sh @ $0.40"
    );
    let poor = plan_entry(3, n(100.0), n(1.0), &budget(), &entry(EntryMode::Both));
    assert!(!poor.accepted);
    assert_eq!(
        poor.log,
        "[STRATEGY] REJECTED entry for Window #3: Insufficient cash ($0.00 needed, $1.00 available)"
    );
    let odd = plan_entry(3, n(100.0), n(100.0), &budget(), &entry(EntryMode::OneSide("SIDEWAYS".into())));
    assert!(!odd.accepted);
}

#[test]
fn the_upcoming_window_is_asked_about_in_its_corridor() {
    let mut s = running("simple_both");
    assert_eq!(s.monitor_next(START + 100_000, &pre(), n(30.0), n(10.0)), NextStep::Wait);
    assert_eq!(s.monitor_next(START + 250_000, &pre(), n(30.0), n(10.0)), NextStep::Ask(50));
    let lines = s.system_logs.len();
    assert_eq!(s.monitor_next(START + 250_000, &pre(), n(3.0), n(10.0)), NextStep::TooQuiet);
    assert_eq!(s.monitor_next(START + 251_000, &pre(), n(3.0), n(10.0)), NextStep::TooQuiet);
    assert_eq!(s.system_logs.len(), lines + 1);
    assert_eq!(
        s.system_logs[lines],
        "[STRATEGY] Skipping Window #1: Volatility too low (ATR: $3.0000 < Min: $10.0000)"
    );
    assert_eq!(s.monitor_next(START + 300_000, &pre(), n(30.0), n(10.0)), NextStep::Promote);
}

#[test]
fn an_entered_window_is_promoted_live() {
    let mut s = running("simple_both");
    let signal = entry(EntryMode::Both);
    let plan = plan_entry(1, n(100.0), n(100.0), &budget(), &signal);
    let cost = f(plan.total_cost);
    s.enter(plan, &signal, 2_000);
    assert!((f(s.portfolio.available_cash) - (100.0 - cost)).abs() < 1e-9);
    assert_eq!(s.portfolio.windows[1].status, "ENTERED_PRE_START");
    let (n0, secs) = s.overlapping(START + 300_000).unwrap();
    assert_eq!((n0, secs), (0, 0));
    s.close_window_tracked(n0, "CLOSED_TIME", secs, n(30.0), 5_000);
    let p = s.promote_next_to_current(START + 300_000).unwrap();
    assert!(p.entered);
    assert_eq!(p.status_before, "ENTERED_PRE_START");
    assert_eq!(s.portfolio.windows[1].role, "CURRENT");
    assert_eq!(s.portfolio.windows[1].status, "LIVE");
    assert_eq!(s.portfolio.windows.iter().filter(|w| w.role == "CURRENT").count(), 1);
    assert_eq!((s.current_window, s.next_window, s.next_window_number), (Some(1), None, 2));
    assert!(s.promote_next_to_current(START + 300_000).is_none());
    let mut bare = running("simple_both");
    let p = bare.promote_next_to_current(START + 300_000).unwrap();
    assert!(!p.entered);
    assert_eq!(bare.portfolio.windows[1].status, "SKIPPED");
    assert_eq!(bare.portfolio.windows[0].role, "PAST");
}

#[test]
fn windows_past_their_end_are_closed() {
    let mut s = running("simple_both");
    assert_eq!(s.safety_close(START + 310_000), None);
    assert_eq!(s.safety_close(START + 311_000), Some((0, -11)));
    assert_eq!(
        s.system_logs.last().unwrap(),
        "[SAFETY CLOSE] Window #0 past end time (-11s). Force closing."
    );
    let closed = s.close_window_tracked(0, "CLOSED_TIME", -11, n(30.0), 5_000);
    assert_eq!(closed.winner, "");
    assert_eq!(closed.meta.utc_hour, 0);
    assert_eq!(f(closed.meta.time_pct_at_close), 100.0);
    assert_eq!(s.safety_close(START + 320_000), None);
}

#[test]
fn a_search_waits_ten_seconds() {
    let mut s = session("simple_both");
    assert!(s.next_search_due(20_000));
    assert!(!s.next_search_due(29_999));
    assert!(s.next_search_due(30_000));
    assert_eq!(s.start_next_search(5), Some(5));
    let mut s = running("simple_both");
    assert!(!s.next_search_due(90_000));
    assert_eq!(s.start_next_search(5), None);
    s.promote_next_to_current(START + 300_000);
    assert_eq!(s.start_next_search(5), Some(START + 300_000));
}

#[test]
fn a_close_settles_and_scores() {
    let mut s = running("cheap_hold_h");
    s.on_spot_tick(n(60_000.0), START, n(0.0));
    assert_eq!(s.get_or_request_llm_forecast(true, true, 0), ForecastStep::Ask);
    assert_eq!(s.get_or_request_llm_forecast(true, true, 0), ForecastStep::No);
    s.on_forecast(0, Ok(forecast("UP")));
    assert_eq!(s.system_logs.last().unwrap(), "[LLM] Forecast Window #0: UP 0.62 (weak)");
    assert_eq!(s.get_or_request_llm_forecast(true, true, 0), ForecastStep::Known);
    assert_eq!(s.get_or_request_llm_forecast(false, true, 0), ForecastStep::No);
    assert_eq!(s.get_or_request_llm_forecast(true, false, 5), ForecastStep::NobodyToAsk);
    s.on_forecast(5, Err("timeout_8s".into()));
    assert_eq!(s.system_logs.last().unwrap(), "[LLM] Forecast Window #5 failed: timeout_8s");
    s.portfolio.execute_buy(0, "UP", n(4.0), n(0.4), "h_entry");
    s.on_market_tick(0, "CURRENT", &first(), &prices(0.6, 0.4), START + 100_000, n(30.0));
    s.on_spot_tick(n(60_100.0), START + 299_000, n(0.5));
    let c = s.close_window_tracked(0, "CLOSED_TIME", 1, n(30.0), 5_000);
    assert_eq!(c.winner, "UP");
    assert!((f(c.pnl) - 6.0).abs() < 1e-9);
    assert_eq!(c.forecast_correct, Some(true));
    assert_eq!((s.llm_correct, s.llm_wrong), (1, 0));
    assert_eq!(c.meta.entry_side, "UP");
    assert_eq!(c.meta.entry_reason, "h_entry");
    assert!(c.lead_summary.is_some());
    let lines = &s.system_logs;
    assert_eq!(
        lines[lines.len() - 2],
        "[H] #0 entry=UP real_winner=UP market=Some(true) salvaged=false salvage_win=false pnl=+6.00"
    );
    assert_eq!(lines[lines.len() - 1], "[LLM] Result Window #0: forecast UP | winner UP | RIGHT");
    assert_eq!(s.record_llm_result(0, "UP"), None);
}

#[test]
fn the_series_smooths_and_forgets() {
    let mut s = SpotSeries::new(3, n(12.0));
    s.observe(1_782_000_000, n(100.0), n(0.0));
    assert_eq!(s.samples[0].timestamp_ms, 1_782_000_000_000);
    assert!(s.snapshot().raw_velocity_usd_per_sec.is_none());
    s.observe(1_782_000_010, n(120.0), n(0.5));
    assert_eq!(s.snapshot().raw_velocity_usd_per_sec.map(f), Some(2.0));
    assert_eq!(s.snapshot().smoothed_velocity_usd_per_sec.map(f), Some(2.0));
    assert!(s.snapshot().acceleration_usd_per_sec2.is_none());
    s.observe(1_782_000_020, n(120.0), n(0.5));
    assert_eq!(s.snapshot().smoothed_velocity_usd_per_sec.map(f), Some(1.0));
    assert_eq!(s.snapshot().acceleration_usd_per_sec2.map(f), Some(-0.1));
    assert_eq!(s.snapshot().raw_velocity_usd_per_sec.map(f), Some(1.0));
    s.observe(1_782_000_020, n(500.0), n(0.5));
    s.observe(1_782_000_030, n(-5.0), n(0.5));
    assert_eq!(s.samples.len(), 3);
    s.observe(1_782_000_040, n(140.0), n(0.5));
    assert_eq!(s.samples.len(), 3);
    assert_eq!(f(s.samples[0].price), 120.0);
    let (span, period) = s.decay_over(1_782_000_046, n(1.0)).unwrap();
    assert_eq!((f(span), f(period)), (6.0, 12.0));
    assert!(s.decay_over(1_782_000_040, n(1.0)).is_none());
    assert_eq!(normalize_event_timestamp_ms(0), 0);
    assert_eq!(normalize_event_timestamp_ms(10_000_000_000), 10_000_000_000);
}

#[test]
fn strategies_are_picked_by_name() {
    assert_eq!(StrategyEngine::new("asymmetric_ladder").active_strategy, StrategyKind::AsymmetricLadder);
    assert_eq!(StrategyEngine::new("dynamic_breakeven").active_strategy, StrategyKind::DynamicBreakEven);
    assert_eq!(StrategyEngine::new("dynamic_grid").active_strategy, StrategyKind::DynamicGrid);
    assert_eq!(StrategyEngine::new("anything").active_strategy, StrategyKind::SimpleBoth);
}

#[test]
fn a_close_notes_the_hour_of_the_start() {
    let mut s = session("simple_both");
    s.on_active_market(Some(&market("w", "2026-06-21T17:05:00Z", "2026-06-21T17:10:00Z", None)));
    assert_eq!(s.close_window_tracked(0, "CLOSED_TIME", 0, n(30.0), 5_000).meta.utc_hour, 17);
    let mut s = session("simple_both");
    s.on_active_market(Some(&market("w", "someday", "2026-06-21T17:10:00Z", None)));
    assert_eq!(s.close_window_tracked(0, "CLOSED_TIME", 0, n(30.0), 5_000).meta.utc_hour, 0);
}

#[test]
fn the_winner_is_redeemed_once() {
    let mut s = running("simple_both");
    let sides = vec![
        OrderSignal::buy("UP", OrderType::Market, n(5.0), n(0.5), "r"),
        OrderSignal::buy("DOWN", OrderType::Market, n(2.0), n(0.5), "r"),
    ];
    assert_eq!(s.execute_strategy_signals(0, &sides, 3_000), vec![true, true]);
    assert_eq!(f(s.portfolio.available_cash), 93.0);
    s.portfolio.close_window(0, "CLOSED_TIME", "UP");
    assert_eq!(f(s.portfolio.available_cash), 103.0);
    s.portfolio.close_window(0, "CLOSED_TIME", "DOWN");
    assert_eq!(f(s.portfolio.available_cash), 103.0);
}

#[test]
fn trades_carry_the_moment_of_their_booking() {
    let mut s = running("simple_both");
    let signal = entry(EntryMode::Both);
    let plan = plan_entry(1, s.portfolio.equity(), n(100.0), &budget(), &signal);
    s.enter(plan, &signal, 2_000);
    let more = vec![OrderSignal::buy("UP", OrderType::Market, n(1.0), n(0.5), "r")];
    s.execute_strategy_signals(1, &more, 3_000);
    s.spot_price = Some(n(60_100.0));
    s.portfolio.windows[1].market.price_to_beat = Some(n(60_000.0));
    s.close_window_tracked(1, "CLOSED_TIME", 0, n(30.0), 5_000);
    let stamps: Vec<i64> = s.portfolio.windows[1].trades.iter().map(|t| t.timestamp).collect();
    assert_eq!(&stamps[..3], &[2_000, 2_000, 3_000]);
    assert!(stamps.len() > 3 && stamps[3..].iter().all(|t| *t == 5_000));
}

#[test]
fn equity_counts_the_shares_of_open_windows() {
    let mut s = running("simple_both");
    assert_eq!(f(s.portfolio.equity()), 100.0);
    s.portfolio.execute_buy(0, "UP", n(10.0), n(0.5), "r");
    s.portfolio.windows[0].prices = prices(0.76, 0.26);
    assert_eq!(f(s.portfolio.equity()), 105.0);
    s.portfolio.execute_buy(1, "DOWN", n(4.0), n(0.5), "r");
    s.portfolio.windows[1].prices = prices(0.76, 0.26);
    assert_eq!(f(s.portfolio.equity()), 103.0);
    s.portfolio.windows[0].status = "CLOSED_TIME".into();
    assert_eq!(f(s.portfolio.equity()), 88.0);
}

#[test]
fn the_hold_strategy_counts_its_closed_windows() {
    let mut s = running("cheap_hold_h");
    s.on_spot_tick(n(60_000.0), START, n(0.0));
    s.portfolio.execute_buy(0, "UP", n(4.0), n(0.4), "h_entry");
    s.portfolio.execute_sell(0, "UP", n(10.0), n(0.5), "h_salvage_late");
    s.on_spot_tick(n(59_900.0), START + 299_000, n(0.5));
    let c = s.close_window_tracked(0, "CLOSED_TIME", 1, n(30.0), 5_000);
    let h = c.hold.unwrap();
    assert_eq!((h.market_win, h.salvaged, h.salvage_win), (Some(false), true, true));
    assert_eq!((s.hold.market_wins, s.hold.market_losses), (0, 1));
    assert_eq!((s.hold.salvage_escapes, s.hold.salvage_wins), (1, 1));
    let c = s.close_window_tracked(1, "CLOSED_TIME", 1, n(30.0), 5_000);
    assert!(c.hold.is_none());
    assert_eq!(s.hold.market_losses, 1);
    let mut other = running("simple_both");
    other.portfolio.execute_buy(0, "UP", n(4.0), n(0.4), "h_entry");
    assert!(other.close_window_tracked(0, "CLOSED_TIME", 1, n(30.0), 5_000).hold.is_none());
}

#[test]
fn seconds_to_the_end_of_a_market() {
    assert_eq!(seconds_to_end(&first(), START), 300);
    assert_eq!(seconds_to_end(&first(), START + 300_500), 0);
    assert_eq!(seconds_to_end(&first(), START + 302_500), -2);
    assert_eq!(seconds_to_end(&market("w", "x", "someday", None), START), 0);
}
