use gem_endgame::client::{ContractPrices, MarketWindow, PricesState, TokenInfo, TokensMap};
use gem_endgame::event_log::{
    csv_cell, entry_row, lifecycle_row, llm_forecast_row, mid_cross_row, mid_cross_summary_row, signal_event_row,
    ENTRY_HEADER, LIFECYCLE_HEADER, LLM_FORECAST_HEADER, MID_CROSS_HEADER, MID_CROSS_SUMMARY_HEADER, SIGNAL_HEADER,
};
use gem_endgame::live_audit::{balance_row, order_row, LiveAudit};
use gem_endgame::live_executor::{LiveAccountStatus, LiveExecutionResult, LiveFill};
use gem_endgame::mid_cross_tracker::{LeadSide, MidCrossEvent, MidCrossWindowSummary};
use gem_endgame::num::Num;
use gem_endgame::startup::{parse_args, run_log_dir, unsupported_message, Start};
use gem_endgame::strategy::{EntryMode, EntrySignal, LlmForecast, OrderSignal, OrderType, SpotSignalSnapshot};
use gem_endgame::trader::Portfolio;

fn n(x: f64) -> Num {
    Num::from_bits(x.to_bits())
}

fn f(x: Num) -> f64 {
    f64::from_bits(x.to_bits())
}

fn market(end: &str) -> MarketWindow {
    MarketWindow {
        id: "m".into(),
        slug: "slug".into(),
        question: "q".into(),
        asset: "BTC".into(),
        interval: "5m".into(),
        start_time: "2026-06-21T00:00:00Z".into(),
        end_time: end.into(),
        price_to_beat: Some(n(100.0)),
        tokens: TokensMap {
            up: TokenInfo { token_id: "1".into(), outcome_name: "Up".into() },
            down: TokenInfo { token_id: "2".into(), outcome_name: "Down".into() },
        },
    }
}

fn prices() -> PricesState {
    PricesState {
        up: ContractPrices::top(n(0.5), n(0.52)),
        down: ContractPrices::top(n(0.46), n(0.48)),
    }
}

fn columns(header: &str) -> usize {
    header.split(',').count()
}

#[test]
fn cells_read_back() {
    assert_eq!(csv_cell("plain"), "plain");
    assert_eq!(csv_cell("a,b"), "\"a,b\"");
    assert_eq!(csv_cell("say \"x\""), "\"say \"\"x\"\"\"");
    assert_eq!(csv_cell("two\nlines"), "two lines");
    assert_eq!(csv_cell("r\r"), "\"r\r\"");
    assert_eq!(csv_cell(""), "");
}

#[test]
fn entry_rows() {
    let e = EntrySignal {
        up_ask: n(0.5),
        down_ask: n(0.0),
        budget_multiplier: n(1.0),
        cheaper_side_ratio: n(0.6),
        mode: EntryMode::OneSide("UP".into()),
        reason: "a,b".into(),
    };
    let row = entry_row(7, 3, "slug", &e, None, n(31.0), n(10.0), n(10.0), n(0.0));
    assert_eq!(
        row,
        "7,3,slug,\"a,b\",one_side,UP,,0.0000,,,31.0000,0.5000,0.0000,1.0000,0.6000,10.0000,10.0000,20.00000000,0.0000,0.00000000"
    );
    assert_eq!(columns(&row.replace("a,b", "ab")), columns(ENTRY_HEADER));
}

#[test]
fn forecast_rows() {
    let fc = LlmForecast {
        side: "UP".into(),
        confidence: n(0.5),
        signal_strength: "weak".into(),
        reason_short: "why".into(),
        key_drivers: vec!["a".into(), "b".into()],
        risk_note: "risk".into(),
    };
    let row = llm_forecast_row(
        7,
        3,
        "slug",
        Some(&fc),
        "ok",
        n(31.0),
        60,
        None,
        &prices(),
        SpotSignalSnapshot::default(),
        "UP",
        Some(true),
    );
    assert_eq!(
        row,
        "7,3,slug,ok,UP,0.5000,weak,why,risk,a | b,UP,true,31.0000,60,,,,,0.5000,0.5200,0.4600,0.4800"
    );
    assert_eq!(columns(&row), columns(LLM_FORECAST_HEADER));
}

#[test]
fn signal_rows() {
    let mut p = Portfolio::new(n(100.0));
    let m = market("2026-06-21T00:05:00Z");
    p.get_or_create_window_state(1, "CURRENT", &m);
    p.execute_buy(1, "UP", n(5.0), n(0.5), "seed");
    let sig = OrderSignal::buy("UP", OrderType::Market, n(2.0), n(0.5), "why");
    let row = signal_event_row(
        7,
        1,
        &sig,
        true,
        n(30.0),
        Some(n(101.0)),
        &m,
        &prices(),
        &p.windows[0],
        150,
        SpotSignalSnapshot::default(),
    )
    .unwrap();
    assert_eq!(
        row,
        "7,1,slug,BUY,market,UP,2.00000000,usd,4.00000000,2.0000,0.5000,why,true,30.0000,150,50.00,101.0000,,,,100.0000,1.0000,1.000000,0.5000,0.5200,0.4600,0.4800,10.00000000,0.00000000,0.00000000,5.0000,0.0000,0.0000,-5.0000,5.0000,0.0000"
    );
    assert_eq!(columns(&row), columns(SIGNAL_HEADER));
    let backwards = market("2026-06-20T00:00:00Z");
    assert!(signal_event_row(
        7,
        1,
        &sig,
        true,
        n(30.0),
        None,
        &backwards,
        &prices(),
        &p.windows[0],
        150,
        SpotSignalSnapshot::default(),
    )
    .is_none());
}

#[test]
fn lead_and_lifecycle_rows() {
    let e = MidCrossEvent {
        event: "mid_cross",
        from_side: Some(LeadSide::Up),
        to_side: LeadSide::Down,
        up_mid: n(0.4),
        down_mid: n(0.6),
        lead_gap: n(0.2),
        peak_prev_gap: n(0.3),
        is_significant: true,
        cross_count: 2,
        significant_cross_count: 1,
        time_pct: n(50.0),
        secs_to_end: 150,
        current_atr: n(30.0),
    };
    let row = mid_cross_row(7, 1, "slug", &e, Some(n(101.0)), Some(n(100.0)), SpotSignalSnapshot::default());
    assert_eq!(
        row,
        "7,1,slug,mid_cross,UP,DOWN,0.4000,0.6000,0.2000,0.3000,true,2,1,50.00,150,30.0000,101.0000,100.0000,1.0000,,,"
    );
    assert_eq!(columns(&row), columns(MID_CROSS_HEADER));
    let s = MidCrossWindowSummary {
        cross_count: 2,
        significant_cross_count: 1,
        final_side: None,
        last_cross_atr: n(30.5),
    };
    let row = mid_cross_summary_row(7, 1, "slug", &s, "30.5");
    assert_eq!(row, "7,1,slug,2,1,,30.5");
    assert_eq!(columns(&row), columns(MID_CROSS_SUMMARY_HEADER));
    let m = market("2026-06-21T00:05:00Z");
    let row = lifecycle_row(7, 1, &m, "promote_live", "ENTERED_PRE_START", n(30.0), None, &prices());
    assert_eq!(
        row,
        "7,1,slug,promote_live,ENTERED_PRE_START,30.0000,,100.0000,,,0.5000,0.5200,0.4600,0.4800"
    );
    assert_eq!(columns(&row), columns(LIFECYCLE_HEADER));
}

#[test]
fn audit_rows() {
    assert_eq!(LiveAudit::new("logs/run").path, "logs/run/live_audit.sqlite3");
    assert_eq!(LiveAudit::new("logs/").path, "logs/live_audit.sqlite3");
    let account = LiveAccountStatus {
        balance_usd: n(8.0),
        ready_to_trade: true,
        window_number: Some(4),
        ..Default::default()
    };
    let row = balance_row(&account, n(10.0), n(9.0));
    assert_eq!(row.window_number, Some(4));
    assert_eq!(row.mode, "live");
    assert_eq!(f(row.pending_redeem_est), 2.0);
    assert_eq!(row.ready, 1);
    assert_eq!(f(balance_row(&account, n(5.0), n(5.0)).pending_redeem_est), 0.0);
    let sig = OrderSignal::sell("DOWN", OrderType::Limit, n(2.0), n(0.5), "why");
    let result = LiveExecutionResult {
        dry_run: true,
        executed: true,
        fill: Some(LiveFill { amount_usd: n(1.0), shares: n(2.0), avg_price: n(0.5) }),
        ..Default::default()
    };
    let row = order_row(&sig, &result);
    assert_eq!((row.mode, row.operation), ("dry-run", "SELL"));
    assert_eq!(row.order_type, "market");
    assert_eq!(row.reject_reason, None);
    assert_eq!(row.fill_shares.map(f), Some(2.0));
}

#[test]
fn arguments() {
    let args = |v: &[&str]| v.iter().map(|s| s.to_string()).collect::<Vec<String>>();
    match parse_args(&args(&["gem"])) {
        Start::Run { asset, interval } => assert_eq!((asset.as_str(), interval.as_str()), ("BTC", "5m")),
        _ => unreachable!(),
    }
    match parse_args(&args(&["gem", "eth", "15M"])) {
        Start::Run { asset, interval } => assert_eq!((asset.as_str(), interval.as_str()), ("ETH", "15m")),
        _ => unreachable!(),
    }
    assert!(matches!(parse_args(&args(&["gem", "-h"])), Start::Help));
    match parse_args(&args(&["gem", "ada"])) {
        Start::Unsupported(a) => {
            assert_eq!(unsupported_message(&a), "Unsupported asset: ADA. Supported: BTC, ETH, SOL, XRP, DOGE")
        }
        _ => unreachable!(),
    }
    assert_eq!(run_log_dir("20260621_000000", "BTC", "5m", "j_endgame"), "logs/runs/20260621_000000_btc_5m_j_endgame");
}
