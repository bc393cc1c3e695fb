use gem_endgame::cex_micro::CexMicroSnapshot;
use gem_endgame::client::{ContractPrices, MarketWindow, PricesState, TokenInfo, TokensMap};
use gem_endgame::config::{
    Config, ExecutionConfig, JEndgameConfig, LlmConfig, PreStartConfig, SellStrategyConfig, SessionConfig,
};
use gem_endgame::endgame::{idle_panel, runs_endgame, Endgame, EndgameWindow, StrategyTick};
use gem_endgame::mid_cross_tracker::{LeadSide, MidCrossSnapshot};
use gem_endgame::num::Num;
use gem_endgame::strategy::{OrderSignal, OrderType, SpotSignalSnapshot, TradeTapeSnapshot};
use gem_endgame::strategy_j::EndgameTier;
use gem_endgame::trader::WindowState;

fn n(x: f64) -> Num {
    Num::from_bits(x.to_bits())
}

fn f(x: Num) -> f64 {
    f64::from_bits(x.to_bits())
}

fn config() -> Config {
    let mut j = JEndgameConfig::default();
    j.fee_rate_bps = Some(n(0.0));
    j.min_buy_interval_ms = 2_000;
    Config {
        strategy: "j_endgame".into(),
        llm: LlmConfig::default(),
        min_btc_atr: n(0.0),
        min_eth_atr: n(0.0),
        session: SessionConfig {
            starting_bank: n(100.0),
            min_window_budget: n(0.0),
            max_window_budget: n(500.0),
            window_budget_pct: n(100.0),
        },
        pre_start_entry: PreStartConfig {
            enabled: false,
            min_seconds_before_start: 5,
            max_seconds_before_start: 120,
            min_side_ask: n(0.0),
            max_side_ask: n(1.0),
        },
        sell_strategy: SellStrategyConfig { exit_bid: n(0.65) },
        asymmetric_ladder: None,
        dynamic_breakeven: None,
        exit_before_end_seconds: 0,
        force_close_at_end: false,
        execution: ExecutionConfig::default(),
        j_endgame: j,
    }
}

fn window() -> WindowState {
    WindowState {
        window_number: 4,
        role: "CURRENT".into(),
        status: "LIVE".into(),
        market: MarketWindow {
            id: "m".into(),
            slug: "s".into(),
            question: "q".into(),
            asset: "BTC".into(),
            interval: "5m".into(),
            start_time: "2026-06-21T00:00:00Z".into(),
            end_time: "2026-06-21T00:05:00Z".into(),
            price_to_beat: Some(n(60_000.0)),
            tokens: TokensMap {
                up: TokenInfo { token_id: "1".into(), outcome_name: "Up".into() },
                down: TokenInfo { token_id: "2".into(), outcome_name: "Down".into() },
            },
        },
        spent: n(0.0),
        cash_returned: n(0.0),
        up_shares: n(0.0),
        down_shares: n(0.0),
        initial_up_shares: n(0.0),
        initial_down_shares: n(0.0),
        trades: vec![],
        prices: PricesState {
            up: ContractPrices::top(n(0.78), n(0.8)),
            down: ContractPrices::top(n(0.2), n(0.22)),
        },
    }
}

fn tick<'a>(config: &'a Config, win: &'a WindowState, spot: Option<f64>, now_ms: i64) -> StrategyTick<'a> {
    StrategyTick {
        config,
        win_state: win,
        spot_price: spot.map(n),
        secs_to_end: 40,
        current_atr: n(20.0),
        spot_signal: SpotSignalSnapshot {
            smoothed_velocity_usd_per_sec: Some(n(5.0)),
            ..SpotSignalSnapshot::default()
        },
        mid_cross: MidCrossSnapshot {
            current_side: Some(LeadSide::Up),
            lead_gap: n(0.6),
            ..MidCrossSnapshot::default()
        },
        cex: CexMicroSnapshot { buy_sell_imbalance_3s: n(0.8), ..CexMicroSnapshot::default() },
        tape: TradeTapeSnapshot {
            up_buy_usd: n(90.0),
            down_buy_usd: n(10.0),
            up_buy_count: 9,
            down_buy_count: 1,
        },
        cash: n(500.0),
        now_ms,
    }
}

#[test]
fn a_composite_buy_is_ordered_booked_and_followed_by_a_pause() {
    let (cfg, win) = (config(), window());
    let mut s = Endgame::new();
    assert!(s.get_strategy_state(4).is_none());
    let orders = s.process_live_tick(&tick(&cfg, &win, Some(60_200.0), 10_000));
    assert_eq!(orders.len(), 1);
    let sig = &orders[0];
    assert!(sig.is_buy);
    assert_eq!((sig.side.as_str(), f(sig.price)), ("UP", 0.8));
    assert_eq!(sig.order_type, OrderType::Market);
    assert_eq!(sig.reason, "j_final_seal_taker_up");
    assert!(f(sig.amount) > 0.0);
    assert_eq!(s.windows[&4].planned, Some((EndgameTier::FinalSeal, 10_000)));
    assert_eq!(s.windows[&4].bought_ms, None);

    s.notify_order_executed(4, sig);
    assert_eq!(s.windows[&4].bought_ms, Some(10_000));
    assert_eq!(s.windows[&4].deployed.primary_side.as_deref(), Some("UP"));
    assert_eq!(f(s.windows[&4].deployed.rescue_spent_usd), f(sig.amount));
    assert_eq!(s.windows[&4].deployed.clips_filled, 1);
    let state = s.get_strategy_state(4).unwrap();
    assert_eq!((state.h_entry_side.as_deref(), state.h_entry_done), (Some("UP"), true));

    assert!(s.process_live_tick(&tick(&cfg, &win, Some(60_200.0), 11_999)).is_empty());
    assert_eq!(s.windows[&4].planned, Some((EndgameTier::FinalSeal, 10_000)));
    let mut fresh = EndgameWindow::new();
    fresh.bought_ms = Some(10_000);
    assert!(fresh.on_tick(&tick(&cfg, &win, Some(60_200.0), 11_999)).is_none());
    assert!(fresh.on_tick(&tick(&cfg, &win, Some(60_200.0), 12_000)).is_some());
}

#[test]
fn other_tiers_book_apart_and_start_no_pause() {
    let mut w = EndgameWindow::new();
    w.planned = Some((EndgameTier::FlipHedge, 10));
    w.on_executed(&OrderSignal::buy("DOWN", OrderType::Market, n(2.0), n(0.2), "r"));
    assert_eq!(w.bought_ms, None);
    assert_eq!(f(w.deployed.hedge_spent_usd), 2.0);
    assert!(w.deployed.primary_side.is_none());
}

#[test]
fn without_a_price_nothing_is_ordered() {
    let (cfg, mut win) = (config(), window());
    let mut s = Endgame::new();
    assert!(s.process_live_tick(&tick(&cfg, &win, None, 10_000)).is_empty());
    win.market.price_to_beat = None;
    assert!(s.process_live_tick(&tick(&cfg, &win, Some(60_200.0), 10_000)).is_empty());
    assert!(s.windows.is_empty());
}

#[test]
fn the_panel_shows_the_window() {
    let (cfg, win) = (config(), window());
    let mut s = Endgame::new();
    let p = s.panel(&tick(&cfg, &win, Some(60_200.0), 10_000));
    assert!(p.state.is_none() && p.j_tape_hot && p.j_directional_allowed && !p.j_flip_hedge_armed);
    let p = s.panel(&tick(&cfg, &win, None, 10_000));
    assert!(!p.j_tape_hot && !p.j_directional_allowed);
    s.notify_order_executed(4, &OrderSignal::buy("UP", OrderType::Market, n(8.0), n(0.8), "r"));
    let turned = StrategyTick {
        mid_cross: MidCrossSnapshot { significant_cross_count: 9, cross_count: 9, ..MidCrossSnapshot::default() },
        ..tick(&cfg, &win, Some(59_800.0), 10_000)
    };
    let p = s.panel(&turned);
    assert!(p.state.is_some() && p.j_flip_hedge_armed);
    assert_eq!(idle_panel().h_phase, "flat");
    assert!(runs_endgame("j_endgame"));
    assert!(!runs_endgame("simple_both"));
}
