use gem_endgame::client::{ContractPrices, MarketWindow, PricesState, TokenInfo, TokensMap};
use gem_endgame::j_paper_executor::{execute_j_paper_signal, JPaperReject};
use gem_endgame::num::Num;
use gem_endgame::strategy::{OrderSignal, OrderType};
use gem_endgame::trader::{Portfolio, WindowState};

fn n(x: f64) -> Num {
    Num::from_bits(x.to_bits())
}

fn f(x: Num) -> f64 {
    f64::from_bits(x.to_bits())
}

fn sample_market() -> MarketWindow {
    MarketWindow {
        id: "m".into(),
        slug: "m".into(),
        question: "m".into(),
        asset: "BTC".into(),
        interval: "5m".into(),
        start_time: "2026-06-21T00:00:00Z".into(),
        end_time: "2026-06-21T00:05:00Z".into(),
        price_to_beat: Some(n(60_000.0)),
        tokens: TokensMap {
            up: TokenInfo {
                token_id: "up".into(),
                outcome_name: "Up".into(),
            },
            down: TokenInfo {
                token_id: "down".into(),
                outcome_name: "Down".into(),
            },
        },
    }
}

fn prices(up_bid: f64, up_ask: f64, down_bid: f64, down_ask: f64) -> PricesState {
    PricesState {
        up: ContractPrices::top(n(up_bid), n(up_ask)),
        down: ContractPrices::top(n(down_bid), n(down_ask)),
    }
}

fn portfolio_with_window(bank: f64, prices: PricesState) -> Portfolio {
    let mut port = Portfolio::new(n(bank));
    let i = port.get_or_create_window_state(1, "CURRENT", &sample_market());
    port.windows[i].prices = prices;
    port
}

fn window(port: &Portfolio) -> &WindowState {
    &port.windows[port.find(1)]
}

#[test]
fn j_limit_buy_rejects_when_best_ask_is_above_limit() {
    let p = prices(0.54, 0.56, 0.43, 0.44);
    let mut port = portfolio_with_window(10.0, p.clone());
    let sig = OrderSignal::buy("UP", OrderType::Limit, n(2.0), n(0.55), "j_test_limit_buy");

    let res = execute_j_paper_signal(&mut port, 1, &p, &sig);

    assert!(!res.executed);
    assert_eq!(res.reject, Some(JPaperReject::NoExecutableAsk));
    assert_eq!(f(window(&port).up_shares), 0.0);
}

#[test]
fn j_limit_buy_fills_when_best_ask_is_at_limit() {
    let p = prices(0.54, 0.55, 0.43, 0.44);
    let mut port = portfolio_with_window(10.0, p.clone());
    let sig = OrderSignal::buy("UP", OrderType::Limit, n(2.0), n(0.55), "j_test_limit_buy");

    let res = execute_j_paper_signal(&mut port, 1, &p, &sig);

    assert!(res.executed);
    assert!(f(window(&port).up_shares) > 3.63);
    assert!((f(port.available_cash) - 8.0).abs() < 1e-9);
}

#[test]
fn j_limit_buy_fills_at_best_ask_below_limit() {
    let p = prices(0.49, 0.50, 0.49, 0.50);
    let mut port = portfolio_with_window(10.0, p.clone());
    let sig = OrderSignal::buy("UP", OrderType::Limit, n(2.0), n(0.88), "j_test_limit_buy");

    let res = execute_j_paper_signal(&mut port, 1, &p, &sig);

    assert!(res.executed);
    assert!((f(window(&port).up_shares) - 4.0).abs() < 1e-9);
    assert!((f(port.available_cash) - 8.0).abs() < 1e-9);
}

#[test]
fn j_market_buy_uses_current_ask_not_signal_price() {
    let p = prices(0.61, 0.62, 0.37, 0.38);
    let mut port = portfolio_with_window(10.0, p.clone());
    let sig = OrderSignal::buy("UP", OrderType::Market, n(2.0), n(0.88), "j_test_market_buy");

    let res = execute_j_paper_signal(&mut port, 1, &p, &sig);

    assert!(res.executed);
    assert!((f(window(&port).up_shares) - (2.0 / 0.62)).abs() < 1e-9);
    assert!((f(port.available_cash) - 8.0).abs() < 1e-9);
}

#[test]
fn j_market_sell_uses_current_bid() {
    let p = prices(0.61, 0.62, 0.38, 0.39);
    let mut port = portfolio_with_window(10.0, p.clone());
    assert!(port.execute_buy(1, "UP", n(2.0), n(0.50), "seed").is_some());
    let sig = OrderSignal::sell("UP", OrderType::Market, n(2.0), n(0.50), "j_test_market_sell");

    let res = execute_j_paper_signal(&mut port, 1, &p, &sig);

    assert!(res.executed);
    assert!((f(window(&port).cash_returned) - 1.22).abs() < 1e-9);
}

#[test]
fn j_limit_sell_rejects_when_best_bid_is_below_limit() {
    let p = prices(0.59, 0.62, 0.38, 0.39);
    let mut port = portfolio_with_window(10.0, p.clone());
    assert!(port.execute_buy(1, "UP", n(2.0), n(0.50), "seed").is_some());
    let sig = OrderSignal::sell("UP", OrderType::Limit, n(2.0), n(0.60), "j_test_limit_sell");

    let res = execute_j_paper_signal(&mut port, 1, &p, &sig);

    assert!(!res.executed);
    assert_eq!(res.reject, Some(JPaperReject::NoExecutableBid));
    assert_eq!(f(window(&port).up_shares), 4.0);
}

#[test]
fn a_rejected_signal_changes_nothing() {
    let p = prices(0.54, 0.56, 0.43, 0.44);
    let mut port = portfolio_with_window(10.0, p.clone());
    for sig in [
        OrderSignal::buy("UP", OrderType::Limit, n(2.0), n(0.55), "limit"),
        OrderSignal::buy("UP", OrderType::Market, n(0.0), n(0.55), "nothing"),
        OrderSignal::buy("UP", OrderType::Market, n(50.0), n(0.55), "too much"),
        OrderSignal::sell("UP", OrderType::Market, n(1.0), n(0.55), "none held"),
    ] {
        let res = execute_j_paper_signal(&mut port, 1, &p, &sig);
        assert!(!res.executed, "{}", sig.reason);
        assert!(res.reject.is_some());
        assert_eq!(f(port.available_cash), 10.0);
        assert!(window(&port).trades.is_empty());
    }
}

#[test]
fn closing_redeems_the_winner_and_expires_the_rest() {
    let p = prices(0.49, 0.50, 0.49, 0.50);
    let mut port = portfolio_with_window(10.0, p);
    assert!(port.execute_buy(1, "UP", n(2.0), n(0.50), "seed").is_some());
    assert!(port.execute_buy(1, "DOWN", n(1.0), n(0.50), "seed").is_some());
    port.close_window(1, "CLOSED_TIME", "UP");
    let w = window(&port);
    assert_eq!(f(port.available_cash), 11.0);
    assert_eq!(f(w.cash_returned), 4.0);
    assert_eq!(w.status, "CLOSED_TIME");
    assert_eq!(w.role, "PAST");
    assert_eq!(w.trades.len(), 4);
    assert_eq!(w.trades[2].trade_type, "REDEEM");
    assert_eq!(f(w.trades[2].price), 1.0);
    assert_eq!(w.trades[3].trade_type, "EXPIRED");
    assert_eq!(f(w.up_shares), 0.0);
    assert_eq!(f(port.overall_realized_pnl), 1.0);
    assert_eq!((port.wins, port.losses), (1, 0));
}
