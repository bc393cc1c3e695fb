use gem_endgame::client::{ContractPrices, MarketWindow, PricesState, TokenInfo, TokensMap};
use gem_endgame::config::{
    Config, ExecutionConfig, JEndgameConfig, LlmConfig, PreStartConfig, SellStrategyConfig, SessionConfig,
};
use gem_endgame::dashboard::window_to_snapshot;
use gem_endgame::j_fees::compare_endgame_clips;
use gem_endgame::maintenance::MaintenanceStatus;
use gem_endgame::num::Num;
use gem_endgame::render_block::render_window_block;
use gem_endgame::render_strategy::StrategyPanel;
use gem_endgame::startup::{fee_model_line, llm_disabled, llm_ready, parse_args, run_log_dir, unsupported_message, Start};
use gem_endgame::terminal::{render_dashboard, resolve_display_window, DashboardView};
use gem_endgame::trader::{Portfolio, TradeRecord, WindowState};

fn n(x: f64) -> Num {
    Num::from_bits(x.to_bits())
}

fn f(x: Num) -> f64 {
    f64::from_bits(x.to_bits())
}

/// Midnight of 21 June 2026.
const START: i64 = 1_782_000_000_000;

fn market() -> MarketWindow {
    MarketWindow {
        id: "m".into(),
        slug: "w0".into(),
        question: "q".into(),
        asset: "BTC".into(),
        interval: "5m".into(),
        start_time: "2026-06-21T00:00:00Z".into(),
        end_time: "2026-06-21T00:05:00Z".into(),
        price_to_beat: Some(n(60_000.0)),
        tokens: TokensMap {
            up: TokenInfo { token_id: "1".into(), outcome_name: "Up".into() },
            down: TokenInfo { token_id: "2".into(), outcome_name: "Down".into() },
        },
    }
}

fn portfolio() -> Portfolio {
    let mut port = Portfolio::new(n(100.0));
    port.get_or_create_window_state(1, "CURRENT", &market());
    port.windows[0].prices = PricesState {
        up: ContractPrices::top(n(0.5), n(0.75)),
        down: ContractPrices::top(n(0.25), n(0.5)),
    };
    port
}

fn config(strategy: &str) -> Config {
    Config {
        strategy: strategy.into(),
        llm: LlmConfig::default(),
        min_btc_atr: n(1.0),
        min_eth_atr: n(2.0),
        session: SessionConfig {
            starting_bank: n(100.0),
            min_window_budget: n(1.0),
            max_window_budget: n(10.0),
            window_budget_pct: n(0.1),
        },
        pre_start_entry: PreStartConfig {
            enabled: false,
            min_seconds_before_start: 5,
            max_seconds_before_start: 120,
            min_side_ask: n(0.0),
            max_side_ask: n(1.0),
        },
        sell_strategy: SellStrategyConfig { exit_bid: n(0.99) },
        asymmetric_ladder: None,
        dynamic_breakeven: None,
        exit_before_end_seconds: 5,
        force_close_at_end: true,
        execution: ExecutionConfig::default(),
        j_endgame: JEndgameConfig::default(),
    }
}

fn panel() -> StrategyPanel {
    StrategyPanel {
        state: None,
        j_directional_allowed: false,
        j_flip_hedge_armed: false,
        j_tape_hot: false,
        h_phase: "WAIT".into(),
        h_cheap_side: false,
        h_gap_allows: false,
    }
}

fn plain(lines: &[String]) -> Vec<String> {
    let mut out = Vec::new();
    for line in lines {
        let mut text = String::new();
        let mut inside = false;
        for c in line.chars() {
            if c == '\x1b' {
                inside = true;
            } else if inside {
                inside = c != 'm';
            } else {
                text.push(c);
            }
        }
        out.push(text);
    }
    out
}

fn block(win: bool, label: &str) -> Vec<String> {
    let port = portfolio();
    plain(&render_window_block(
        if win { Some(&port.windows[0]) } else { None },
        label,
        Some(n(60_010.0)),
        n(20.0),
        &panel(),
        None,
        None,
        None,
        &config("j_endgame"),
        None,
        n(100.0),
        &MaintenanceStatus::default(),
        START + 60_000,
    ))
}

#[test]
fn a_block_without_a_window_waits() {
    let lines = block(false, "NEXT");
    assert_eq!(lines.len(), 3);
    assert_eq!(lines[0], "--- NEXT WINDOW ---");
    assert_eq!(lines[1], "Waiting for market stream...");
}

#[test]
fn a_block_shows_window_and_quotes() {
    let lines = block(true, "CURRENT");
    assert_eq!(lines[0], "--- CURRENT WINDOW #1 ---");
    assert_eq!(lines[1], "Slug: w0");
    assert_eq!(lines[2], "Start: 2026-06-21 00:00:00");
    assert!(lines.iter().any(|l| l == "UP   YES Bid/Ask: 0.50 / 0.75  [75.0%]"));
    assert!(lines.iter().any(|l| l == "Combined Ask:    1.25"));
    assert!(!lines.iter().any(|l| l.contains("NO DATA")));
}

#[test]
fn the_live_window_goes_before_its_role() {
    let mut port = portfolio();
    let mut other = market();
    other.slug = "w1".into();
    port.get_or_create_window_state(2, "NEXT", &other);
    let next = port.windows[1].clone();
    let shown = |live: Option<&WindowState>, role: &str| resolve_display_window(&port, live, role);
    assert_eq!(shown(Some(&next), "CURRENT").unwrap().market.slug, "w1");
    assert_eq!(shown(None, "CURRENT").unwrap().market.slug, "w0");
    assert_eq!(shown(None, "NEXT").unwrap().window_number, 2);
    assert!(shown(None, "CLOSED").is_none());
}

#[test]
fn the_shown_window_takes_its_position_from_the_portfolio() {
    let mut port = portfolio();
    let mut live = port.windows[0].clone();
    live.role = "CURRENT".into();
    live.cash_returned = n(3.5);
    live.trades.push(TradeRecord {
        timestamp: START,
        trade_type: "BUY".into(),
        side: "UP".into(),
        reason: "r".into(),
        price: n(0.5),
        shares: n(2.0),
        usd_value: n(1.0),
        available_cash_after: n(99.0),
    });
    port.windows[0].role = "PAST".into();
    port.windows[0].status = "CLOSED_WIN".into();
    port.windows[0].spent = n(7.0);
    port.windows[0].up_shares = n(8.0);
    port.windows[0].down_shares = n(9.0);
    port.windows[0].market.price_to_beat = Some(n(123.0));
    port.windows[0].prices.up = ContractPrices::top(n(0.91), n(0.93));
    let d = resolve_display_window(&port, Some(&live), "CURRENT").unwrap();
    assert_eq!(d.role, "CURRENT");
    assert_eq!(d.trades.len(), live.trades.len());
    assert_eq!(d.trades[d.trades.len() - 1].reason, "r");
    assert_eq!(f(d.cash_returned), 3.5);
    assert_eq!(d.status, "CLOSED_WIN");
    assert_eq!((f(d.spent), f(d.up_shares), f(d.down_shares)), (7.0, 8.0, 9.0));
    assert_eq!(d.market.price_to_beat.map(f), Some(123.0));
    assert_eq!(f(d.prices.up.ask), 0.93);
    live.window_number = 9;
    live.market.slug = "alone".into();
    live.status = "LIVE".into();
    let alone = resolve_display_window(&port, Some(&live), "CURRENT").unwrap();
    assert_eq!(alone.window_number, 9);
    assert_eq!((alone.market.slug.as_str(), alone.status.as_str()), ("alone", "LIVE"));
}

#[test]
fn the_dashboard_holds_both_blocks_and_the_log() {
    let view = DashboardView {
        strategy: "j_endgame".into(),
        asset: "BTC".into(),
        interval: "5m".into(),
        llm_enabled: false,
        llm_model: "m".into(),
        llm_location: "global".into(),
        llm_correct: 0,
        llm_wrong: 0,
        shutdown_pending: false,
        started_at_ms: START,
        now_ms: START + 61_000,
        atr: n(20.0),
        spot_price: Some(n(60_010.0)),
        entered_windows: 1,
        skipped_windows: 0,
        closed_windows: 1,
        wins: 1,
        losses: 0,
        h_market_wins: 0,
        h_market_losses: 0,
        h_salvage_escapes: 0,
        h_salvage_wins: 0,
        starting_bank: n(100.0),
        available_cash: n(90.0),
        equity: n(101.0),
        realized_pnl: n(1.0),
        summary: "none yet".into(),
    };
    let lines = plain(&render_dashboard(
        &view,
        &vec!["left".to_string()],
        &vec!["right".to_string()],
        &vec!["[X] first".to_string()],
    ));
    let at = |t: &str| lines.iter().position(|l| l.trim() == t).unwrap();
    assert!(lines[1].contains("STRATEGY: J ENDGAME"));
    assert!(at("left") < at("right"));
    assert!(at("right") < at("SYSTEM EVENT LOG:"));
    assert!(lines.iter().any(|l| l.contains("[X] first")));
}

#[test]
fn window_snapshots_value_the_holdings() {
    let mut port = portfolio();
    port.windows[0].up_shares = n(4.0);
    port.windows[0].down_shares = n(2.0);
    port.windows[0].spent = n(3.0);
    let s = window_to_snapshot(&port.windows[0], Some(n(60_600.0)), START + 75_000);
    assert_eq!((s.window_start_ms, s.window_end_ms), (START, START + 300_000));
    assert_eq!(s.time_left_sec, 225);
    assert_eq!(f(s.time_elapsed_pct), 25.0);
    assert_eq!(f(s.est_value), 2.5);
    assert_eq!(f(s.unrealized_pnl), -0.5);
    assert_eq!(f(s.paired_floor), 2.0);
    assert_eq!(f(s.breakeven_gap), -1.0);
    assert_eq!(f(s.up_chance_pct), 75.0);
    assert_eq!(s.spot_distance.map(f), Some(600.0));
    assert_eq!(s.spot_distance_pct.map(f), Some(1.0));
}

#[test]
fn arguments_name_asset_and_interval() {
    let args = |v: &[&str]| v.iter().map(|s| s.to_string()).collect::<Vec<String>>();
    assert!(matches!(parse_args(&args(&["gem", "-h"])), Start::Help));
    match parse_args(&args(&["gem", "eth", "15M"])) {
        Start::Run { asset, interval } => assert_eq!((asset.as_str(), interval.as_str()), ("ETH", "15m")),
        _ => unreachable!(),
    }
    match parse_args(&args(&["gem"])) {
        Start::Run { asset, interval } => assert_eq!((asset.as_str(), interval.as_str()), ("BTC", "5m")),
        _ => unreachable!(),
    }
    match parse_args(&args(&["gem", "zzz"])) {
        Start::Unsupported(a) => assert!(unsupported_message(&a).contains("ZZZ")),
        _ => unreachable!(),
    }
    assert_eq!(run_log_dir("r1", "BTC", "5m", "j_endgame"), "logs/runs/r1_btc_5m_j_endgame");
    assert_eq!(llm_disabled("no key"), "[LLM] Disabled | no key");
    assert!(llm_ready("m", "global").ends_with("model: m | location: global"));
}

#[test]
fn the_fee_line_shows_what_a_dollar_nets() {
    let c = compare_endgame_clips(n(1.0), n(0.0));
    assert!(fee_model_line(n(0.0), &c).starts_with("[J] Fee model $1 clip (0bps): buy@98 net $0.0204"));
}

#[test]
fn floors_follow_the_asset() {
    let c = config("j_endgame");
    assert_eq!(f(c.min_atr_for("eth")), 2.0);
    assert_eq!(f(c.min_atr_for("SOL")), 1.0);
}
