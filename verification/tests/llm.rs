use gem_endgame::analytics::{audit_project, audit_project_text, audit_prompt, audit_refused, audit_report, audit_url};
use gem_endgame::client::{ContractPrices, MarketWindow, PricesState, TokenInfo, TokensMap};
use gem_endgame::json::Json;
use gem_endgame::llm::{
    build_direction_prompt, extract_json_object, forecast_document, forecast_from_wire, forecast_url, opt_num,
    project_of_key, project_of_key_text, reply_text, LlmForecastRequest, LlmForecastWire,
};
use gem_endgame::llm_context::{
    build_llm_recent_context, extract_entry_source, first_buy, max_drawdown, median_f64,
    opposite_buy_cost_after_first, ratio, redeemed_winner, tail_liquidation_usd,
};
use gem_endgame::num::Num;
use gem_endgame::strategy::{LlmForecast, SpotSignalSnapshot};
use gem_endgame::trader::{Portfolio, TradeRecord, WindowState};

fn n(x: f64) -> Num {
    Num::from_bits(x.to_bits())
}

fn f(x: Num) -> f64 {
    f64::from_bits(x.to_bits())
}

fn market() -> MarketWindow {
    MarketWindow {
        id: "m".into(),
        slug: "btc-updown-5m-1".into(),
        question: "q".into(),
        asset: "BTC".into(),
        interval: "5m".into(),
        start_time: "2026-06-21T00:00:00Z".into(),
        end_time: "2026-06-21T00:05:00Z".into(),
        price_to_beat: Some(n(60_000.0)),
        tokens: TokensMap {
            up: TokenInfo { token_id: "1".into(), outcome_name: "Up".into() },
            down: TokenInfo { token_id: "2".into(), outcome_name: "Down".into() },
        },
    }
}

fn trade(kind: &str, side: &str, shares: f64, usd: f64, reason: &str) -> TradeRecord {
    TradeRecord {
        timestamp: 0,
        trade_type: kind.into(),
        side: side.into(),
        reason: reason.into(),
        price: n(usd / shares),
        shares: n(shares),
        usd_value: n(usd),
        available_cash_after: n(0.0),
    }
}

fn window(number: usize, status: &str, spent: f64, back: f64, trades: Vec<TradeRecord>) -> WindowState {
    let mut p = Portfolio::new(n(100.0));
    let i = p.get_or_create_window_state(number, "PAST", &market());
    let mut w = p.windows.remove(i);
    w.status = status.into();
    w.spent = n(spent);
    w.cash_returned = n(back);
    w.trades = trades;
    w
}

fn forecast(side: &str) -> LlmForecast {
    LlmForecast {
        side: side.into(),
        confidence: n(0.6),
        signal_strength: "medium".into(),
        reason_short: "r".into(),
        key_drivers: vec![],
        risk_note: "n".into(),
    }
}

fn wire(side: &str, confidence: f64) -> LlmForecastWire {
    LlmForecastWire {
        side: side.into(),
        confidence: n(confidence),
        signal_strength: None,
        reason_short: None,
        key_drivers: None,
        risk_note: None,
    }
}

#[test]
fn replies_are_cleaned_up() {
    let fc = forecast_from_wire(wire(" up ", 1.7)).unwrap();
    assert_eq!(fc.side, "UP");
    assert_eq!(f(fc.confidence), 1.0);
    assert_eq!(fc.signal_strength, "unknown");
    assert_eq!(fc.reason_short, "");
    assert_eq!(f(forecast_from_wire(wire("down", -0.2)).unwrap().confidence), 0.0);
    assert_eq!(forecast_from_wire(wire(" flat", 0.5)).unwrap_err(), "Invalid LLM side:  flat");
}

#[test]
fn the_object_is_cut_out_of_a_reply() {
    assert_eq!(extract_json_object("```json {\"a\":{}} ```").as_deref(), Some("{\"a\":{}}"));
    assert_eq!(extract_json_object("} {"), None);
    assert_eq!(extract_json_object("none"), None);
    assert_eq!(forecast_document("  x {1} y"), "{1}");
    assert_eq!(forecast_document("  plain "), "plain");
    assert_eq!(reply_text(&vec![vec![" t ".into()]]).unwrap(), "t");
    assert_eq!(reply_text(&vec![vec![]]).unwrap_err(), "Vertex forecast response has no text");
}

#[test]
fn the_prompt_names_the_figures() {
    let req = LlmForecastRequest {
        asset: "BTC".into(),
        interval: "5m".into(),
        current_time_utc: "2026-06-20T23:59:00Z".into(),
        current_spot: Some(n(60_010.5)),
        current_atr: n(31.25),
        prices: PricesState {
            up: ContractPrices::top(n(0.49), n(0.51)),
            down: ContractPrices::top(n(0.48), n(0.5)),
        },
        market: market(),
        secs_to_start: 60,
        spot_signal: SpotSignalSnapshot {
            raw_velocity_usd_per_sec: Some(n(1.5)),
            smoothed_velocity_usd_per_sec: None,
            acceleration_usd_per_sec2: Some(n(-0.25)),
        },
        recent_context: build_llm_recent_context(&vec![], &vec![], 10),
    };
    let p = build_direction_prompt(&req);
    assert!(p.starts_with("You are a short-horizon directional signal assistant"));
    assert!(p.contains("A new Polymarket BTC Up/Down 5m window opens at 2026-06-21T00:00:00Z.\n"));
    assert!(p.contains("Input JSON:\n{\n\"asset\": \"BTC\",\n\"interval\": \"5m\",\n"));
    assert!(p.contains("\"secs_to_start\": 60,\n\"current_spot\": 60010.5000,\n\"atr_1m\": 31.2500,\n"));
    assert!(p.contains("\"up_bid\": 0.4900,\n\"up_ask\": 0.5100,\n\"down_bid\": 0.4800,\n\"down_ask\": 0.5000,\n"));
    assert!(p.contains("\"combined_ask\": 1.0100,\n\"raw_velocity_usd_per_sec\": 1.500000,\n"));
    assert!(p.contains("\"smoothed_velocity_usd_per_sec\": null,\n\"acceleration_usd_per_sec2\": -0.250000\n}"));
    assert!(p.ends_with("\"risk_note\": \"one sentence\"\n}"));
    assert_eq!(opt_num(None), "null");
}

#[test]
fn endpoints_and_keys() {
    assert!(forecast_url("p1", "m1").ends_with("/projects/p1/locations/us-central1/publishers/google/models/m1:generateContent"));
    assert!(audit_url("p1").ends_with("models/gemini-2.5-pro:generateContent"));
    let key = Json::Object(vec![("project_id".into(), Json::Str("p1".into()))]);
    assert_eq!(project_of_key(&key).unwrap(), "p1");
    assert_eq!(project_of_key(&Json::Null).unwrap_err(), "llm.json is missing project_id");
    assert_eq!(audit_project(&key).unwrap(), "p1");
    assert!(audit_project(&Json::Null).is_err());
    assert!(audit_prompt("a,b").ends_with(":\n\na,b"));
    assert_eq!(audit_refused("no"), "Исключение Vertex AI API: no");
    assert_eq!(audit_report(&vec![vec![" t ".into()]]).unwrap(), " t ");
    assert!(audit_report(&vec![]).is_err());
}

#[test]
fn trades_tell_sources_and_costs() {
    assert_eq!(extract_entry_source("x_source_llm_conf_0.6"), "llm");
    assert_eq!(extract_entry_source("x_source_book"), "book");
    assert_eq!(extract_entry_source("plain"), "unknown");
    let w = window(
        1,
        "CLOSED_TIME",
        10.0,
        12.0,
        vec![
            trade("BUY", "UP", 10.0, 5.0, "a_source_llm_conf_1"),
            trade("BUY", "DOWN", 5.0, 2.0, "hedge"),
            trade("BUY", "UP", 5.0, 3.0, "more"),
            trade("SELL", "DOWN", 5.0, 1.0, "weak_salvage"),
            trade("SELL", "UP", 1.0, 0.5, "grid"),
            trade("REDEEM", "UP", 14.0, 14.0, "close"),
        ],
    );
    assert_eq!(first_buy(&w).unwrap().side, "UP");
    assert_eq!(redeemed_winner(&w).as_deref(), Some("UP"));
    assert_eq!(f(opposite_buy_cost_after_first(&w, "UP")), 2.0);
    assert_eq!(f(opposite_buy_cost_after_first(&w, "")), 0.0);
    assert_eq!(f(tail_liquidation_usd(&w)), 1.0);
}

#[test]
fn small_figures() {
    assert_eq!(f(ratio(1, 4)), 0.25);
    assert_eq!(f(ratio(1, 0)), 0.0);
    assert_eq!(f(median_f64(&vec![n(3.0), n(1.0), n(2.0)])), 2.0);
    assert_eq!(f(median_f64(&vec![n(4.0), n(1.0), n(2.0), n(3.0)])), 2.5);
    assert_eq!(f(median_f64(&vec![])), 0.0);
    assert_eq!(f(max_drawdown(&vec![n(5.0), n(-3.0), n(1.0), n(-4.0), n(9.0)])), 6.0);
    assert_eq!(f(max_drawdown(&vec![])), 0.0);
}

#[test]
fn the_context_takes_the_last_closed_windows_in_order() {
    let windows = vec![
        window(
            5,
            "CLOSED_TIME",
            10.0,
            13.0,
            vec![
                trade("BUY", "UP", 10.0, 10.0, "s_source_llm_conf_1"),
                trade("REDEEM", "UP", 13.0, 13.0, "close"),
            ],
        ),
        window(2, "CLOSED_TIME", 4.0, 0.0, vec![trade("BUY", "DOWN", 8.0, 4.0, "x")]),
        window(9, "LIVE", 4.0, 0.0, vec![]),
        window(3, "CLOSED_TIME", 0.0, 0.0, vec![]),
        window(
            4,
            "CLOSED_STOP",
            6.0,
            5.0,
            vec![
                trade("BUY", "UP", 6.0, 3.0, "x"),
                trade("BUY", "DOWN", 6.0, 3.0, "hedge"),
                trade("REDEEM", "DOWN", 5.0, 5.0, "close"),
            ],
        ),
    ];
    let forecasts = vec![(5, forecast("UP")), (4, forecast("UP"))];
    let c = build_llm_recent_context(&windows, &forecasts, 2);
    assert_eq!(c.sample_size, 2);
    assert_eq!(c.rows.iter().map(|r| r.window_id).collect::<Vec<_>>(), vec![4, 5]);
    assert_eq!(f(c.avg_pnl_per_window), 1.0);
    assert_eq!(f(c.median_pnl), 1.0);
    assert_eq!(f(c.max_drawdown), 1.0);
    assert_eq!(f(c.entry_side_accuracy), 0.5);
    assert_eq!(f(c.llm_accuracy), 0.5);
    assert_eq!(f(c.runner_redeem_rate), 0.5);
    assert_eq!(f(c.hedge_cost), 3.0);
    assert_eq!(f(c.hedge_window_pnl), -1.0);
    assert_eq!((c.up_winners, c.down_winners), (1, 1));
    assert_eq!(f(c.adverse_slippage_01_pnl), 2.0 - 0.01 * 22.0);
    assert_eq!(c.rows[1].entry_source, "llm");
    let all = build_llm_recent_context(&windows, &forecasts, 10);
    assert_eq!(all.rows.iter().map(|r| r.window_id).collect::<Vec<_>>(), vec![2, 4, 5]);
    assert_eq!(build_llm_recent_context(&vec![], &forecasts, 10).sample_size, 0);
}

#[test]
fn a_key_file_names_its_project() {
    assert_eq!(project_of_key_text("{\"project_id\": \"p1\"}").unwrap(), "p1");
    assert_eq!(project_of_key_text("{\"project_id\": 7}").unwrap_err(), "llm.json is missing project_id");
    let fault = project_of_key_text("{").unwrap_err();
    assert!(fault.starts_with("EOF while parsing an object"));
    assert_eq!(audit_project_text("{\"project_id\": \"p2\"}").unwrap(), "p2");
    assert_eq!(audit_project_text("{").unwrap_err(), fault);
    assert_eq!(audit_project_text("[]").unwrap_err(), audit_project(&Json::Null).unwrap_err());
}
