use gem_endgame::cex_micro::CexMicroSnapshot;
use gem_endgame::client::{ContractPrices, MarketWindow, PricesState, TokenInfo, TokensMap};
use gem_endgame::config::{
    Config, ExecutionConfig, JEndgameConfig, LlmConfig, PreStartConfig, SellStrategyConfig, SessionConfig,
};
use gem_endgame::j_controller::{
    detect_phase, effective_conf_enter, endgame_confidence, flip_hedge_budget_cap, plan_discount_reload,
    plan_endgame_composite, plan_flip_hedge_rescue, plan_insurance, plan_j_tick, plan_j_window, ramp, redeem_pnl_if_wins,
    tail_cut_exposure_cap_usd, usd_to_close_profit_gap, JWindowPhase,
};
use gem_endgame::mid_cross_tracker::{LeadSide, MidCrossSnapshot};
use gem_endgame::num::Num;
use gem_endgame::strategy::{SpotSignalSnapshot, TradeTapeSnapshot};
use gem_endgame::strategy_j::{buy_due, directional_entry_allowed, order_reason, tape_hot, EndgameTier, JWindowState};
use gem_endgame::trader::WindowState;

fn n(x: f64) -> Num {
    Num::from_bits(x.to_bits())
}

fn f(x: Num) -> f64 {
    f64::from_bits(x.to_bits())
}

fn j_cfg() -> JEndgameConfig {
    let mut c = JEndgameConfig::default();
    c.insurance_enabled = true;
    c.insurance_max_ask = n(0.18);
    c.insurance_max_ptb_dist_pct = n(0.05);
    c.target_profit_usd = n(1.0);
    c
}

fn full_cfg(mut j: JEndgameConfig) -> Config {
    j.fee_rate_bps = Some(n(0.0));
    Config {
        strategy: "j_endgame".into(),
        llm: LlmConfig::default(),
        min_btc_atr: n(0.0),
        min_eth_atr: n(0.0),
        session: SessionConfig {
            starting_bank: n(100.0),
            min_window_budget: n(0.0),
            max_window_budget: n(500.0),
            window_budget_pct: n(100.0),
        },
        pre_start_entry: PreStartConfig {
            enabled: false,
            min_seconds_before_start: 5,
            max_seconds_before_start: 120,
            min_side_ask: n(0.0),
            max_side_ask: n(1.0),
        },
        sell_strategy: SellStrategyConfig { exit_bid: n(0.65) },
        asymmetric_ladder: None,
        dynamic_breakeven: None,
        exit_before_end_seconds: 0,
        force_close_at_end: false,
        execution: ExecutionConfig::default(),
        j_endgame: j,
    }
}

#[test]
fn insurance_picks_cheap_underdog_near_ptb() {
    let prices = PricesState {
        up: ContractPrices {
            ask: n(0.74),
            ..ContractPrices::top(n(0.72), n(0.74))
        },
        down: ContractPrices {
            ask: n(0.17),
            ..ContractPrices::top(n(0.15), n(0.17))
        },
    };
    let plan = plan_insurance(
        &j_cfg(),
        &JWindowState::default(),
        n(15.0),
        n(60_010.0),
        n(60_000.0),
        &prices,
        &MidCrossSnapshot::default(),
        n(0.0),
        n(30.0),
    )
    .expect("insurance");
    assert_eq!(plan.tier, EndgameTier::Insurance);
    assert_eq!(plan.side.as_deref(), Some("DOWN"));
    assert!((f(plan.clip_usd) - 1.0).abs() < 1e-9);
}

fn win_state_zero() -> WindowState {
    WindowState {
        window_number: 1,
        role: "CURRENT".into(),
        status: "LIVE".into(),
        market: MarketWindow {
            id: "t".into(),
            slug: "t".into(),
            question: "t".into(),
            asset: "BTC".into(),
            interval: "5m".into(),
            start_time: String::new(),
            end_time: String::new(),
            price_to_beat: Some(n(60_000.0)),
            tokens: TokensMap {
                up: TokenInfo {
                    token_id: "u".into(),
                    outcome_name: "Up".into(),
                },
                down: TokenInfo {
                    token_id: "d".into(),
                    outcome_name: "Down".into(),
                },
            },
        },
        spent: n(0.0),
        cash_returned: n(0.0),
        up_shares: n(0.0),
        down_shares: n(0.0),
        initial_up_shares: n(0.0),
        initial_down_shares: n(0.0),
        trades: vec![],
        prices: PricesState {
            up: ContractPrices {
                ask: n(0.92),
                ..ContractPrices::top(n(0.90), n(0.92))
            },
            down: ContractPrices::top(n(0.07), n(0.08)),
        },
    }
}

#[test]
fn confidence_zero_below_gap_floor() {
    let mut c = JEndgameConfig::default();
    c.final_seal_min_gap_z = n(0.8);
    c.full_size_gap_z = n(2.5);
    // gz below floor => coin flip => no edge, regardless of other signals.
    let conf = endgame_confidence(
        &c,
        "UP",
        n(0.2),
        &SpotSignalSnapshot::default(),
        &MidCrossSnapshot::default(),
        &CexMicroSnapshot::default(),
        &TradeTapeSnapshot::default(),
    );
    assert_eq!(f(conf), 0.0);
}

#[test]
fn confidence_vetoed_when_book_leads_opposite() {
    let mut c = JEndgameConfig::default();
    c.final_seal_min_gap_z = n(0.8);
    c.full_size_gap_z = n(2.5);
    c.book_contradict_gap = n(0.04);
    let mc = MidCrossSnapshot {
        current_side: Some(LeadSide::Down),
        lead_gap: n(0.30),
        ..Default::default()
    };
    // Winner UP but the book firmly leads DOWN => veto.
    let conf = endgame_confidence(
        &c,
        "UP",
        n(3.0),
        &SpotSignalSnapshot::default(),
        &mc,
        &CexMicroSnapshot::default(),
        &TradeTapeSnapshot::default(),
    );
    assert_eq!(f(conf), 0.0);
}

#[test]
fn composite_target_exposure_throttles_and_stops() {
    let j = {
        let mut c = JEndgameConfig::default();
        c.conf_enter = n(0.5);
        c.max_rescue_usd = n(60.0);
        c.max_usd_per_window = n(60.0);
        c.probe_clip_usd = n(1.0);
        c.first_clip_usd = n(8.0);
        c.min_increment_usd = n(5.0);
        c.max_clip_usd = n(25.0);
        c.tail_cap_ask94_usd = n(60.0);
        c.final_seal_max_ask = n(0.99);
        c.taker_max_ask = n(0.99);
        c
    };
    let cfg = full_cfg(j);
    let win = win_state_zero();

    // Below conf_enter => no buy at all (0 buys for coin-flip windows).
    let mut state = JWindowState::default();
    assert!(
        plan_endgame_composite(&cfg, &state, &win, "UP", n(0.92), n(0.5), n(0.49), n(65.0), n(500.0))
            .is_none()
    );

    // conf 0.75 => eff 0.5 => target 30; first clip capped at first_clip_usd=8.
    let p1 = plan_endgame_composite(&cfg, &state, &win, "UP", n(0.92), n(1.0), n(0.75), n(65.0), n(500.0))
        .expect("first add");
    assert!((f(p1.clip_usd) - 8.0).abs() < 1e-9, "clip={}", f(p1.clip_usd));
    state.rescue_spent_usd = state.rescue_spent_usd + p1.clip_usd;

    // Same confidence again: increment 22, but min_increment=5 and ramped max_clip.
    let p2 = plan_endgame_composite(&cfg, &state, &win, "UP", n(0.92), n(1.0), n(0.75), n(70.0), n(500.0))
        .expect("second add");
    assert!(f(p2.clip_usd) >= 5.0, "clip={}", f(p2.clip_usd));
    state.rescue_spent_usd = n(30.0);

    // At target, flat confidence => nothing more (no per-tick spam).
    assert!(
        plan_endgame_composite(&cfg, &state, &win, "UP", n(0.92), n(1.0), n(0.75), n(70.0), n(500.0))
            .is_none()
    );

    // Confidence rises to full => target 60, buys the next increment.
    let p3 = plan_endgame_composite(&cfg, &state, &win, "UP", n(0.92), n(1.0), n(1.0), n(75.0), n(500.0))
        .expect("third add on stronger signal");
    assert!(f(p3.clip_usd) > 0.0);

    // Ask too expensive => skip even with full confidence.
    assert!(
        plan_endgame_composite(&cfg, &state, &win, "UP", n(0.999), n(1.0), n(1.0), n(75.0), n(500.0))
            .is_none()
    );
}

#[test]
fn expensive_ask_blocks_weak_gap_fresh_entry() {
    let j = {
        let mut c = JEndgameConfig::default();
        c.expensive_ask_threshold = n(0.94);
        c.expensive_min_gap_z = n(1.35);
        c.conf_enter = n(0.5);
        c.final_seal_max_ask = n(0.99);
        c
    };
    let cfg = full_cfg(j);
    let win = win_state_zero();
    let state = JWindowState::default();
    assert!(
        plan_endgame_composite(&cfg, &state, &win, "DOWN", n(0.98), n(-1.14), n(0.8), n(63.0), n(500.0))
            .is_none(),
        "w90-like weak gap @ expensive ask should not enter fresh"
    );
}

#[test]
fn tail_cut_blocks_fresh_entry_above_97c() {
    let j = {
        let mut c = JEndgameConfig::default();
        c.conf_enter = n(0.5);
        c.target_profit_usd = n(1.0);
        c.max_rescue_usd = n(75.0);
        c.first_clip_usd = n(8.0);
        c.final_seal_max_ask = n(0.99);
        c
    };
    let cfg = full_cfg(j);
    let win = win_state_zero();
    let state = JWindowState::default();
    assert!(
        plan_endgame_composite(&cfg, &state, &win, "UP", n(0.99), n(2.0), n(0.8), n(65.0), n(500.0)).is_none(),
        "fresh @0.99 should not open a costly tail position"
    );
}

#[test]
fn tail_cut_caps_expensive_primary_exposure() {
    let j = {
        let mut c = JEndgameConfig::default();
        c.conf_enter = n(0.5);
        c.max_rescue_usd = n(75.0);
        c.max_usd_per_window = n(80.0);
        c.probe_clip_usd = n(1.0);
        c.first_clip_usd = n(8.0);
        c.tail_cap_ask97_usd = n(14.0);
        c.final_seal_max_ask = n(0.99);
        c.taker_max_ask = n(0.99);
        c
    };
    let cfg = full_cfg(j);
    let win = win_state_zero();
    let open = JWindowState::default();
    let first = plan_endgame_composite(&cfg, &open, &win, "UP", n(0.96), n(2.0), n(1.0), n(80.0), n(500.0))
        .expect("first high-ask clip");
    assert!(f(first.clip_usd) <= 8.0 + 1e-9, "clip={}", f(first.clip_usd));

    let capped = JWindowState {
        rescue_spent_usd: n(14.0),
        ..Default::default()
    };
    assert!(
        plan_endgame_composite(&cfg, &capped, &win, "UP", n(0.96), n(2.0), n(1.0), n(80.0), n(500.0))
            .is_none(),
        "0.96 ask must stop at tailCapAsk97Usd"
    );
}

#[test]
fn discount_reload_adds_primary_when_discounted_and_still_winner() {
    let j = {
        let mut c = JEndgameConfig::default();
        c.max_rescue_usd = n(75.0);
        c.max_usd_per_window = n(80.0);
        c.probe_clip_usd = n(1.0);
        c.discount_reload_enabled = true;
        c.discount_reload_max_ask = n(0.74);
        c.discount_reload_min_drop = n(0.12);
        c.discount_reload_min_gap_z = n(1.10);
        c.discount_reload_clip_usd = n(4.0);
        c.discount_reload_max_usd = n(12.0);
        c.discount_reload_max_clips = 2;
        c
    };
    let cfg = full_cfg(j);
    let mut win = win_state_zero();
    win.spent = n(8.0);
    win.up_shares = n(8.0 / 0.98);
    let state = JWindowState {
        rescue_spent_usd: n(8.0),
        primary_side: Some("UP".to_string()),
        clips_filled: 1,
        ..Default::default()
    };

    let plan =
        plan_discount_reload(&cfg, &state, &win, "UP", n(0.70), n(1.35), n(500.0)).expect("reload");
    assert_eq!(plan.tier, EndgameTier::DiscountReload);
    assert_eq!(plan.side.as_deref(), Some("UP"));
    assert!((f(plan.clip_usd) - 4.0).abs() < 1e-9, "clip={}", f(plan.clip_usd));
}

#[test]
fn discount_reload_does_not_average_losing_primary() {
    let cfg = full_cfg(JEndgameConfig::default());
    let mut win = win_state_zero();
    win.spent = n(8.0);
    win.up_shares = n(8.0 / 0.98);
    let state = JWindowState {
        rescue_spent_usd: n(8.0),
        primary_side: Some("UP".to_string()),
        clips_filled: 1,
        ..Default::default()
    };

    assert!(
        plan_discount_reload(&cfg, &state, &win, "DOWN", n(0.70), n(-1.35), n(500.0)).is_none(),
        "reload must not buy more UP after UP is no longer the spot/PTB winner"
    );
}

#[test]
fn discount_reload_respects_reload_budget() {
    let j = {
        let mut c = JEndgameConfig::default();
        c.discount_reload_max_usd = n(12.0);
        c.discount_reload_max_clips = 2;
        c
    };
    let cfg = full_cfg(j);
    let mut win = win_state_zero();
    win.spent = n(20.0);
    win.up_shares = n(20.0 / 0.98);
    let state = JWindowState {
        rescue_spent_usd: n(20.0),
        discount_reload_spent_usd: n(12.0),
        discount_reload_clips: 2,
        primary_side: Some("UP".to_string()),
        clips_filled: 3,
        ..Default::default()
    };

    assert!(plan_discount_reload(&cfg, &state, &win, "UP", n(0.70), n(1.35), n(500.0)).is_none());
}

#[test]
fn safe_gap_fires_value_entry_at_cheap_ask() {
    // Log-like: gap_z ~1.94, UP ask 0.88, minimal book/flow — should enter.
    let j = {
        let mut c = JEndgameConfig::default();
        c.conf_enter = n(0.58);
        c.full_size_gap_z = n(1.8);
        c.final_seal_min_gap_z = n(0.8);
        c.max_rescue_usd = n(75.0);
        c.max_usd_per_window = n(80.0);
        c.probe_clip_usd = n(1.0);
        c.max_clip_usd = n(35.0);
        c.cheap_max_ask = n(0.88);
        c.final_seal_max_ask = n(0.99);
        c.taker_max_ask = n(0.99);
        c
    };
    let cfg = full_cfg(j);
    let win = win_state_zero();
    let conf = endgame_confidence(
        &cfg.j_endgame,
        "UP",
        n(1.94),
        &SpotSignalSnapshot::default(),
        &MidCrossSnapshot::default(),
        &CexMicroSnapshot::default(),
        &TradeTapeSnapshot::default(),
    );
    assert!(
        f(conf) + 1e-9 >= f(effective_conf_enter(&cfg.j_endgame, n(0.88), n(1.94))),
        "conf={} should pass value entry at gz=1.94 ask=0.88",
        f(conf)
    );
    let plan = plan_endgame_composite(
        &cfg,
        &JWindowState::default(),
        &win,
        "UP",
        n(0.88),
        n(1.94),
        conf,
        n(65.0),
        n(500.0),
    )
    .expect("value entry on safe gap");
    assert!(f(plan.clip_usd) <= 8.0 + 1e-9, "first clip={}", f(plan.clip_usd));
}

#[test]
fn composite_aborts_impossible_profit_gap_at_high_ask() {
    // Reproduce log economics: $2 insurance lost, need target +$1 at ask 0.99.
    let j = {
        let mut c = JEndgameConfig::default();
        c.conf_enter = n(0.5);
        c.target_profit_usd = n(1.0);
        c.max_rescue_usd = n(75.0);
        c.max_usd_per_window = n(80.0);
        c.probe_clip_usd = n(1.0);
        c.max_clip_usd = n(25.0);
        c.final_seal_max_ask = n(0.99);
        c.taker_max_ask = n(0.99);
        c.fee_rate_bps = Some(n(0.0));
        c
    };
    let cfg = full_cfg(j);
    let mut win = win_state_zero();
    win.spent = n(2.0);
    win.down_shares = n(7.14);
    let state = JWindowState {
        insurance_spent_usd: n(2.0),
        insurance_clips: 1,
        ..Default::default()
    };
    // Need roughly $300 to go from -2 to +1 at 0.99. With a $75 rescue cap,
    // this is a controlled no-trade instead of chasing an unreachable target.
    assert!(
        plan_endgame_composite(&cfg, &state, &win, "UP", n(0.99), n(2.0), n(0.8), n(65.0), n(500.0)).is_none()
    );
}

#[test]
fn composite_allows_affordable_profit_gap() {
    let j = {
        let mut c = JEndgameConfig::default();
        c.conf_enter = n(0.5);
        c.target_profit_usd = n(1.0);
        c.max_rescue_usd = n(75.0);
        c.max_usd_per_window = n(80.0);
        c.probe_clip_usd = n(1.0);
        c.max_clip_usd = n(25.0);
        c.final_seal_max_ask = n(0.90);
        c.taker_max_ask = n(0.90);
        c.fee_rate_bps = Some(n(0.0));
        c
    };
    let cfg = full_cfg(j);
    let mut win = win_state_zero();
    win.spent = n(10.0);
    win.up_shares = n(10.0);
    let plan = plan_endgame_composite(
        &cfg,
        &JWindowState::default(),
        &win,
        "UP",
        n(0.90),
        n(2.0),
        n(0.8),
        n(65.0),
        n(500.0),
    )
    .expect("affordable rescue gap");
    assert!(f(plan.clip_usd) > 0.0);
}

#[test]
fn flip_hedge_budget_scales_with_primary_exposure() {
    let mut j = j_cfg();
    j.flip_tier_usd = n(4.0);
    j.flip_hedge_exposure_ratio = n(0.25);
    j.flip_tier_max_usd = n(8.0);
    let cfg = full_cfg(j);
    let state_small = JWindowState {
        rescue_spent_usd: n(20.0),
        primary_side: Some("DOWN".to_string()),
        ..Default::default()
    };
    assert!((f(flip_hedge_budget_cap(&cfg, &state_small)) - 5.0).abs() < 1e-9);
    let state_large = JWindowState {
        rescue_spent_usd: n(70.0),
        primary_side: Some("DOWN".to_string()),
        ..Default::default()
    };
    assert!((f(flip_hedge_budget_cap(&cfg, &state_large)) - 8.0).abs() < 1e-9);
}

#[test]
fn bank_sizing_follows_the_bank() {
    let mut cfg = full_cfg(JEndgameConfig::default());
    cfg.session.max_window_budget = n(0.0);
    cfg.j_endgame.bank_sizing_enabled = true;
    assert!((f(cfg.session.starting_bank) - 100.0).abs() < 1e-9);
    assert!((f(cfg.session.min_window_budget) - 0.0).abs() < 1e-9);
    assert!((f(cfg.session.max_window_budget) - 0.0).abs() < 1e-9);
    assert!((f(cfg.session.window_budget_pct) - 100.0).abs() < 1e-9);
    assert!((f(cfg.j_endgame.effective_max_usd_per_window(&cfg.session)) - 16.0).abs() < 1e-9);
    assert!((f(cfg.j_endgame.effective_max_rescue_usd(&cfg.session)) - 15.0).abs() < 1e-9);
    assert!((f(cfg.j_endgame.effective_first_clip_usd(&cfg.session)) - 1.6).abs() < 1e-9);
    assert!((f(cfg.j_endgame.effective_max_clip_usd(&cfg.session)) - 7.0).abs() < 1e-9);
    assert!((f(cfg.j_endgame.effective_discount_reload_clip_usd(&cfg.session)) - 2.0).abs() < 1e-9);
    assert!((f(cfg.j_endgame.conf_enter) - 0.58).abs() < 1e-9);
}

#[test]
fn the_ramp_is_a_share() {
    assert_eq!(f(ramp(n(0.0), n(1.0), n(3.0))), 0.0);
    assert_eq!(f(ramp(n(2.0), n(1.0), n(3.0))), 0.5);
    assert_eq!(f(ramp(n(9.0), n(1.0), n(3.0))), 1.0);
}

#[test]
fn phases_follow_the_clock() {
    let mut c = JEndgameConfig::default();
    c.insurance_enabled = false;
    let armed = MidCrossSnapshot { armed: true, ..Default::default() };
    assert_eq!(detect_phase(n(1.0), 295, &c, &MidCrossSnapshot::default()), JWindowPhase::Warmup);
    assert_eq!(detect_phase(n(99.0), 0, &c, &armed), JWindowPhase::FinalSeal);
    assert_eq!(detect_phase(n(20.0), 100_000, &c, &armed), JWindowPhase::MidWindow);
}

#[test]
fn a_broken_thesis_is_hedged_before_anything_else() {
    let mut j = j_cfg();
    j.flip_hedge_enabled = true;
    j.flip_min_gap_z = n(0.1);
    j.flip_max_ask = n(0.99);
    let cfg = full_cfg(j);
    let state = JWindowState {
        rescue_spent_usd: n(20.0),
        primary_side: Some("DOWN".to_string()),
        ..Default::default()
    };
    let win = win_state_zero();
    let mc = MidCrossSnapshot {
        armed: true,
        current_side: Some(LeadSide::Up),
        cross_count: 9,
        significant_cross_count: 9,
        ..Default::default()
    };
    let hedge = plan_flip_hedge_rescue(
        &cfg, &state, "UP", n(60_100.0), n(60_000.0), n(2.0), &win.prices, &mc,
    );
    let plan = plan_j_window(
        &cfg, &state, &win, &win.prices, n(60_100.0), n(60_000.0), 20, n(93.0), n(30.0), n(0.0), &mc, true,
        n(0.0), n(500.0),
    );
    let hedge = hedge.expect("hedge");
    assert_eq!(hedge.tier, EndgameTier::FlipHedge);
    assert_eq!(hedge.side.as_deref(), Some("UP"));
    assert_eq!(plan.expect("plan").tier, EndgameTier::FlipHedge);
}

#[test]
fn the_entry_bar_keeps_its_limits() {
    let cfg = full_cfg(JEndgameConfig::default());
    let top = f(cfg.j_endgame.conf_enter);
    for ask in [0.01, 0.5, 0.88, 0.99] {
        for gz in [-9.0, -1.4, 0.0, 0.7, 2.5] {
            let bar = f(effective_conf_enter(&cfg.j_endgame, n(ask), n(gz)));
            assert!((0.40..=top).contains(&bar));
        }
    }
    assert_eq!(f(effective_conf_enter(&cfg.j_endgame, n(0.99), n(0.0))), top);
}

#[test]
fn no_confidence_buys_nothing() {
    let cfg = full_cfg(JEndgameConfig::default());
    let win = win_state_zero();
    let state = JWindowState::default();
    for ask in [0.2, 0.88, 0.95] {
        assert!(plan_endgame_composite(&cfg, &state, &win, "UP", n(ask), n(3.0), n(0.0), n(90.0), n(500.0)).is_none());
    }
}

#[test]
fn the_profit_gap_is_closed_after_the_fee() {
    let mut win = win_state_zero();
    win.spent = n(10.0);
    win.up_shares = n(10.0);
    let r = usd_to_close_profit_gap(&win, "UP", n(0.9), n(1.0), n(70.0));
    let after = redeem_pnl_if_wins(win.up_shares + r / n(0.9), win.down_shares, win.spent + r, "UP", n(70.0));
    assert!((f(after) - 1.0).abs() < 1e-6);
    assert_eq!(f(usd_to_close_profit_gap(&win, "UP", n(0.9), n(-1.0), n(70.0))), 0.0);
    let mut hole = win_state_zero();
    hole.spent = n(2.0);
    let r = usd_to_close_profit_gap(&hole, "DOWN", n(0.99), n(1.0), n(0.0));
    assert!((f(r) - 297.0).abs() < 1e-6);
    let after = redeem_pnl_if_wins(hole.up_shares, r / n(0.99), hole.spent + r, "DOWN", n(0.0));
    assert!(f(after) >= 1.0 - 1e-6);
}

#[test]
fn a_cheaper_ask_or_a_safer_gap_lowers_the_bar() {
    let cfg = JEndgameConfig::default();
    let bar = |ask: f64, gz: f64| f(effective_conf_enter(&cfg, n(ask), n(gz)));
    for pair in [0.05, 0.3, 0.5, 0.7, 0.9, 0.99].windows(2) {
        for gap in [0.0, 0.5, 1.0, 1.5, 2.0, 3.0].windows(2) {
            assert!(bar(pair[0], gap[1]) <= bar(pair[1], gap[0]));
            assert!(bar(pair[0], -gap[1]) <= bar(pair[1], gap[0]));
        }
    }
    assert!(bar(0.05, 3.0) < bar(0.99, 0.0));
}

#[test]
fn a_safe_gap_is_trusted() {
    let cfg = JEndgameConfig::default();
    let quiet = SpotSignalSnapshot::default();
    let c = endgame_confidence(
        &cfg,
        "UP",
        n(f(cfg.full_size_gap_z) * 0.8),
        &quiet,
        &MidCrossSnapshot::default(),
        &CexMicroSnapshot::default(),
        &TradeTapeSnapshot::default(),
    );
    assert!(f(c) >= 0.58);
}

#[test]
fn a_clip_stays_within_the_window() {
    let mut j = j_cfg();
    j.conf_enter = n(0.5);
    j.max_usd_per_window = n(12.0);
    let cfg = full_cfg(j);
    let mut win = win_state_zero();
    win.spent = n(9.0);
    win.up_shares = n(20.0);
    let plan = plan_endgame_composite(
        &cfg,
        &JWindowState::default(),
        &win,
        "UP",
        n(0.6),
        n(2.0),
        n(0.95),
        n(65.0),
        n(500.0),
    )
    .unwrap();
    assert!(f(plan.clip_usd) > 0.0 && 9.0 + f(plan.clip_usd) <= 12.0);
}

#[test]
fn a_low_bar_matters_only_where_it_is_used() {
    let mut j = j_cfg();
    j.conf_enter = n(0.1);
    let cfg = full_cfg(j);
    let none = plan_endgame_composite(
        &cfg,
        &JWindowState::default(),
        &win_state_zero(),
        "UP",
        n(0.0),
        n(2.0),
        n(0.9),
        n(65.0),
        n(500.0),
    );
    assert!(none.is_none());
}

#[test]
fn fills_move_the_counters_of_their_tier() {
    let mut s = JWindowState::default();
    s.note_fill(Some(EndgameTier::FinalSeal), "UP", n(5.0));
    s.note_fill(Some(EndgameTier::DiscountReload), "UP", n(2.0));
    s.note_fill(Some(EndgameTier::Insurance), "DOWN", n(1.0));
    s.note_fill(Some(EndgameTier::FlipHedge), "DOWN", n(3.0));
    s.note_fill(None, "DOWN", n(4.0));
    assert_eq!(s.primary_side.as_deref(), Some("UP"));
    assert_eq!(s.clips_filled, 2);
    assert_eq!(f(s.rescue_spent_usd), 11.0);
    assert_eq!((f(s.discount_reload_spent_usd), s.discount_reload_clips), (2.0, 1));
    assert_eq!((f(s.insurance_spent_usd), s.insurance_clips), (1.0, 1));
    assert_eq!(f(s.hedge_spent_usd), 3.0);
    s.clips_filled = u16::MAX;
    s.note_fill(None, "UP", n(1.0));
    assert_eq!(s.clips_filled, u16::MAX);
    assert_eq!(order_reason(EndgameTier::FinalSeal, "DOWN"), "j_final_seal_taker_down");
}

#[test]
fn limits_of_the_endgame() {
    let mut cfg = j_cfg();
    cfg.min_ptb_dist_pct = n(0.02);
    cfg.max_sig_crosses_directional = 3;
    cfg.max_crosses_directional = 9;
    cfg.min_tape_usd = n(50.0);
    cfg.min_tape_buys = 2;
    let mut mc = MidCrossSnapshot::default();
    assert!(directional_entry_allowed(&cfg, n(60_030.0), n(60_000.0), &mc));
    assert!(!directional_entry_allowed(&cfg, n(60_003.0), n(60_000.0), &mc));
    mc.cross_count = 8;
    assert!(directional_entry_allowed(&cfg, n(60_030.0), n(60_000.0), &mc));
    mc.cross_count = 9;
    assert!(!directional_entry_allowed(&cfg, n(60_030.0), n(60_000.0), &mc));
    cfg.max_crosses_directional = 0;
    assert!(directional_entry_allowed(&cfg, n(60_030.0), n(60_000.0), &mc));
    mc.significant_cross_count = 3;
    assert!(!directional_entry_allowed(&cfg, n(60_030.0), n(60_000.0), &mc));
    cfg.min_buy_interval_ms = 3_000;
    assert!(buy_due(None, 0, &cfg));
    assert!(!buy_due(Some(10_000), 12_999, &cfg));
    assert!(buy_due(Some(10_000), 13_000, &cfg));
    assert!(buy_due(Some(i64::MIN), i64::MAX, &cfg));
    let tape = TradeTapeSnapshot { up_buy_usd: n(60.0), up_buy_count: 2, ..TradeTapeSnapshot::default() };
    assert!(tape_hot(&tape, "UP", &cfg));
    assert!(!tape_hot(&tape, "DOWN", &cfg));
}

#[test]
fn a_tick_is_planned_from_its_signals() {
    let cfg = full_cfg(j_cfg());
    let win = win_state_zero();
    let prices = PricesState {
        up: ContractPrices::top(n(0.78), n(0.8)),
        down: ContractPrices::top(n(0.2), n(0.22)),
    };
    let (spot, ptb, atr) = (n(60_200.0), n(60_000.0), n(20.0));
    let mc = MidCrossSnapshot::default();
    let (quiet, cex, tape) = (SpotSignalSnapshot::default(), CexMicroSnapshot::default(), TradeTapeSnapshot::default());
    let state = JWindowState::default();
    for secs in [200i64, 60, 20] {
        let elapsed = n(100.0 - secs as f64 / 3.0);
        let tick = plan_j_tick(
            &cfg, &state, &win, &prices, spot, ptb, secs, elapsed, atr, n(0.0), &quiet, &mc, &cex, &tape, n(500.0),
        );
        let gz = gem_endgame::strategy_j::gap_z(spot, ptb, atr, secs);
        let confidence = endgame_confidence(&cfg.j_endgame, "UP", gz, &quiet, &mc, &cex, &tape);
        let allowed = directional_entry_allowed(&cfg.j_endgame, spot, ptb, &mc);
        let same = plan_j_window(
            &cfg, &state, &win, &prices, spot, ptb, secs, elapsed, atr, n(0.0), &mc, allowed, confidence, n(500.0),
        );
        assert_eq!(tick.as_ref().map(|p| (p.tier, f(p.clip_usd))), same.as_ref().map(|p| (p.tier, f(p.clip_usd))));
    }
    let tie = plan_j_tick(
        &cfg, &state, &win, &prices, ptb, ptb, 20, n(95.0), atr, n(0.0), &quiet, &mc, &cex, &tape, n(500.0),
    );
    assert!(tie.is_none());
}

#[test]
fn a_dearer_ask_lowers_the_exposure_cap() {
    let cfg = full_cfg(j_cfg());
    let caps: Vec<f64> =
        [0.5, 0.7, 0.8, 0.9, 0.95, 0.98].iter().map(|a| f(tail_cut_exposure_cap_usd(&cfg, n(*a)))).collect();
    assert!(caps.windows(2).all(|w| w[1] <= w[0]));
    assert!(caps[0] > 0.0);
    assert_eq!(caps[5], 0.0);
}

#[test]
fn the_hedge_budget_grows_with_what_is_committed() {
    let mut j = j_cfg();
    j.flip_tier_usd = n(4.0);
    j.flip_hedge_exposure_ratio = n(0.25);
    j.flip_tier_max_usd = n(8.0);
    let cfg = full_cfg(j);
    let budget = |spent: f64| {
        let state = JWindowState { rescue_spent_usd: n(spent), ..Default::default() };
        f(flip_hedge_budget_cap(&cfg, &state))
    };
    assert_eq!((budget(0.0), budget(16.0), budget(24.0), budget(90.0)), (4.0, 4.0, 6.0, 8.0));
}

#[test]
fn confidence_is_mirrored() {
    let cfg = j_cfg();
    for velocity in [Some(3.5), Some(-2.0), None] {
        let s = SpotSignalSnapshot { smoothed_velocity_usd_per_sec: velocity.map(n), ..SpotSignalSnapshot::default() };
        let s2 =
            SpotSignalSnapshot { smoothed_velocity_usd_per_sec: velocity.map(|v| n(-v)), ..SpotSignalSnapshot::default() };
        let mc = MidCrossSnapshot { current_side: Some(LeadSide::Up), lead_gap: n(0.3), ..MidCrossSnapshot::default() };
        let mc2 = MidCrossSnapshot { current_side: Some(LeadSide::Down), ..mc };
        let cex = CexMicroSnapshot { buy_sell_imbalance_3s: n(0.4), ..CexMicroSnapshot::default() };
        let cex2 = CexMicroSnapshot { buy_sell_imbalance_3s: n(-0.4), ..cex };
        let tape = TradeTapeSnapshot { up_buy_usd: n(70.0), down_buy_usd: n(20.0), up_buy_count: 3, down_buy_count: 1 };
        let tape2 = TradeTapeSnapshot { up_buy_usd: n(20.0), down_buy_usd: n(70.0), ..tape };
        for gz in [0.5, 1.1, 1.7, 3.0] {
            let up = endgame_confidence(&cfg, "UP", n(gz), &s, &mc, &cex, &tape);
            let down = endgame_confidence(&cfg, "DOWN", n(-gz), &s2, &mc2, &cex2, &tape2);
            assert_eq!(f(up), f(down));
            assert!(gz < 1.0 || f(up) > 0.0);
        }
    }
}
