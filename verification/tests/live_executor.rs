use gem_endgame::client::{MarketWindow, TokenInfo, TokensMap};
use gem_endgame::config::ExecutionConfig;
use gem_endgame::live_executor::{
    after_answer, after_failed_post, apply_live_result_to_portfolio, build_live_order_intent, clean_env_value,
    collateral_balance_usd, format_live_terminal_event, normalize_private_key, order_accepted, parse_token_id,
    should_retry_fok_reject, start_live_order, AfterAnswer, AfterFailure, LiveExecutionResult, LiveFill, LiveSecrets,
    LiveStart, PostedOrder,
};
use gem_endgame::num::Num;
use gem_endgame::strategy::{OrderOperation, OrderSignal, OrderType};
use gem_endgame::trader::Portfolio;

fn n(x: f64) -> Num {
    Num::from_bits(x.to_bits())
}

fn f(x: Num) -> f64 {
    f64::from_bits(x.to_bits())
}

fn market() -> MarketWindow {
    MarketWindow {
        id: "m1".to_string(),
        slug: "btc-updown-5m-test".to_string(),
        question: "BTC test".to_string(),
        asset: "BTC".to_string(),
        interval: "5m".to_string(),
        start_time: "2026-06-20T00:00:00Z".to_string(),
        end_time: "2026-06-20T00:05:00Z".to_string(),
        price_to_beat: Some(n(100.0)),
        tokens: TokensMap {
            up: TokenInfo {
                token_id: "11".to_string(),
                outcome_name: "Up".to_string(),
            },
            down: TokenInfo {
                token_id: "22".to_string(),
                outcome_name: "Down".to_string(),
            },
        },
    }
}

#[test]
fn market_buy_intent_uses_usd_amount_and_fok() {
    let cfg = ExecutionConfig::default();
    let sig = OrderSignal::buy("UP", OrderType::Market, n(3.0), n(0.94), "j_test");
    let intent = build_live_order_intent(&cfg, &market(), &sig).unwrap();
    assert_eq!(intent.operation, OrderOperation::Buy);
    assert_eq!(intent.clob_order_type, "fok");
    assert_eq!(intent.token_id, "11");
    assert_eq!(intent.amount_usd.map(f), Some(3.0));
    assert!(f(intent.shares) > 3.19 && f(intent.shares) < 3.20);
}

#[test]
fn live_buy_forces_market_fok_even_if_signal_says_limit() {
    let cfg = ExecutionConfig::default();
    let sig = OrderSignal::buy("DOWN", OrderType::Limit, n(1.0), n(0.99), "j_test");
    let intent = build_live_order_intent(&cfg, &market(), &sig).unwrap();
    assert_eq!(intent.strategy_order_type, OrderType::Market);
    assert_eq!(intent.clob_order_type, "fok");
    assert_eq!(intent.token_id, "22");
    assert_eq!(intent.amount_usd.map(f), Some(1.0));
    assert!(f(intent.shares) > 1.0);
}

#[test]
fn sell_intent_uses_shares_and_notional_gate() {
    let cfg = ExecutionConfig::default();
    let sig = OrderSignal::sell("UP", OrderType::Market, n(2.345), n(0.50), "j_sell");
    let intent = build_live_order_intent(&cfg, &market(), &sig).unwrap();
    assert_eq!(intent.operation, OrderOperation::Sell);
    assert_eq!(f(intent.shares), 2.34);
    assert!(f(intent.estimated_notional_usd) > 1.17);
}

#[test]
fn live_j_forces_market_even_if_signal_says_limit() {
    let cfg = ExecutionConfig::default();
    let sig = OrderSignal::sell("UP", OrderType::Limit, n(2.345), n(0.50), "j_sell");
    let intent = build_live_order_intent(&cfg, &market(), &sig).unwrap();
    assert_eq!(intent.operation, OrderOperation::Sell);
    assert_eq!(intent.strategy_order_type, OrderType::Market);
    assert_eq!(intent.clob_order_type, "fok");
    assert!(!intent.post_only);
}

#[test]
fn rejects_sub_dollar_live_buy() {
    let cfg = ExecutionConfig::default();
    let sig = OrderSignal::buy("UP", OrderType::Market, n(0.99), n(0.94), "j_test");
    let err = build_live_order_intent(&cfg, &market(), &sig).unwrap_err();
    assert!(err.message("UP", "0.99").contains("below min notional"));
}

#[test]
fn collateral_balance_converts_micro_usdc_to_usd() {
    assert!((f(collateral_balance_usd("9960311")) - 9.960311).abs() < 1e-6);
}

#[test]
fn market_matched_counts_as_executed() {
    assert!(order_accepted(true, true, false));
    assert!(!order_accepted(true, false, false));
}

#[test]
fn live_fill_terminal_event_is_visible() {
    let sig = OrderSignal::buy("DOWN", OrderType::Market, n(1.0), n(0.97), "j_test");
    let result = LiveExecutionResult {
        executed: true,
        submitted: true,
        order_id: Some("0xabcdef1234567890".to_string()),
        status: Some("matched".to_string()),
        fill: Some(LiveFill {
            amount_usd: n(1.0),
            shares: n(1.03),
            avg_price: n(0.97),
        }),
        intent: None,
        ..LiveExecutionResult::default()
    };
    let msg = format_live_terminal_event(1, &sig, &result).unwrap();
    assert!(msg.contains("[LIVE FILL]"));
    assert!(msg.contains("DOWN"));
    assert!(msg.contains("$1.00"));
}

#[test]
fn live_reject_terminal_event_shortens_fok() {
    let sig = OrderSignal::buy("DOWN", OrderType::Market, n(1.0), n(0.97), "j_test");
    let result = LiveExecutionResult {
        reject_reason: "FOK orders are fully filled or killed".to_string(),
        ..LiveExecutionResult::default()
    };
    let msg = format_live_terminal_event(1, &sig, &result).unwrap();
    assert!(msg.contains("[LIVE REJECT]"));
    assert!(msg.contains("FOK kill"));
}

#[test]
fn keys_get_their_prefix_once() {
    assert_eq!(normalize_private_key(" \"abc\" "), "0xabc");
    assert_eq!(normalize_private_key("0xabc"), "0xabc");
    assert_eq!(normalize_private_key("0Xabc"), "0Xabc");
    assert_eq!(clean_env_value(" 'v' "), "v");
}

#[test]
fn token_ids_are_decimal_numbers() {
    assert!(parse_token_id("11").is_ok());
    assert!(parse_token_id("no number").is_err());
}

#[test]
fn secrets_read_key_value_lines() {
    let s = LiveSecrets::parse("# comment\nA=1\nB = \"two\"\n\nnonsense\n");
    assert_eq!(s.get("A"), Some("1"));
    assert_eq!(s.get("B"), Some("two"));
    assert_eq!(s.get("C"), None);
}

fn answer(success: bool, matched: bool, making: &str, taking: &str, error: Option<&str>) -> PostedOrder {
    PostedOrder {
        success,
        matched,
        status: if matched { "matched".into() } else { "unmatched".into() },
        error_msg: error.map(|e| e.to_string()),
        order_id: "oid".into(),
        trade_count: 1,
        transaction_count: 1,
        making_amount: making.into(),
        taking_amount: taking.into(),
    }
}

fn live_cfg(dry_run: bool) -> ExecutionConfig {
    let mut cfg = ExecutionConfig::default();
    cfg.dry_run = dry_run;
    cfg.max_order_age_ms = 1_000;
    cfg
}

#[test]
fn orders_start_planned_sent_or_refused() {
    let sig = OrderSignal::buy("UP", OrderType::Market, n(3.0), n(0.94), "j_test");
    match start_live_order(&live_cfg(true), &market(), &sig, 0, 500, "0.94", "3") {
        LiveStart::Planned(p) => {
            assert!(p.dry_run && !p.executed);
            assert_eq!(p.reject_reason, "live dry-run: order was planned but not submitted");
        }
        _ => unreachable!(),
    }
    match start_live_order(&live_cfg(false), &market(), &sig, 0, 500, "0.94", "3") {
        LiveStart::Send(intent, tries) => assert_eq!((intent.token_id.as_str(), tries), ("11", 3)),
        _ => unreachable!(),
    }
    match start_live_order(&live_cfg(false), &market(), &sig, 0, 5_000, "0.94", "3") {
        LiveStart::Rejected(why) => {
            assert_eq!(why, "live order stale before submit: age_ms=5000 max_order_age_ms=1000")
        }
        _ => unreachable!(),
    }
}

#[test]
fn too_little_in_the_book_is_tried_again() {
    let words = "FOK orders are fully filled or killed";
    assert!(should_retry_fok_reject(words));
    assert!(matches!(after_failed_post(words, 1, 3), AfterFailure::Retry));
    match after_failed_post(words, 3, 3) {
        AfterFailure::GiveUp(why) => assert_eq!(why, "FOK orders are fully filled or killed | attempts=3/3"),
        _ => unreachable!(),
    }
    assert!(matches!(after_failed_post("no balance", 1, 3), AfterFailure::GiveUp(_)));
}

#[test]
fn answers_become_results() {
    let sig = OrderSignal::buy("UP", OrderType::Market, n(3.0), n(0.94), "j_test");
    let intent = || build_live_order_intent(&live_cfg(false), &market(), &sig).unwrap();
    match after_answer(intent(), answer(true, true, "3", "3.19", None), 1, 3) {
        AfterAnswer::Done(d) => {
            assert!(d.executed && d.submitted);
            let fill = d.fill.unwrap();
            assert_eq!((f(fill.amount_usd), f(fill.shares)), (3.0, 3.19));
            assert_eq!(d.reject_reason, "");
        }
        _ => unreachable!(),
    }
    match after_answer(intent(), answer(true, false, "", "", None), 2, 3) {
        AfterAnswer::Done(d) => {
            assert!(!d.executed);
            assert_eq!(d.reject_reason, "live order rejected status=unmatched | attempts=2/3");
        }
        _ => unreachable!(),
    }
    let killed = answer(false, false, "", "", Some("FOK couldn't be fully filled"));
    assert!(matches!(after_answer(intent(), killed, 1, 3), AfterAnswer::Retry));
}

#[test]
fn only_executed_orders_are_booked() {
    let sig = OrderSignal::buy("UP", OrderType::Market, n(3.0), n(0.94), "j_test");
    let mut port = Portfolio::new(n(10.0));
    port.get_or_create_window_state(1, "CURRENT", &market());
    let intent = build_live_order_intent(&live_cfg(false), &market(), &sig).ok();
    let mut result = LiveExecutionResult { intent, ..LiveExecutionResult::default() };
    assert!(apply_live_result_to_portfolio(&mut port, 1, &sig, &result).is_ok());
    assert_eq!(f(port.available_cash), 10.0);
    result.executed = true;
    result.fill = Some(LiveFill { amount_usd: n(3.0), shares: n(3.19), avg_price: n(0.94) });
    assert!(apply_live_result_to_portfolio(&mut port, 1, &sig, &result).is_ok());
    assert_eq!(f(port.available_cash), 7.0);
    assert_eq!(f(port.windows[0].up_shares), 3.19);
}
