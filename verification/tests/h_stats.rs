use gem_endgame::h_stats::{derive_h_close_stats, format_h_session_line};
use gem_endgame::num::Num;
use gem_endgame::trader::TradeRecord;

fn n(x: f64) -> Num {
    Num::from_bits(x.to_bits())
}

fn buy(side: &str, price: f64) -> TradeRecord {
    TradeRecord {
        timestamp: 0,
        trade_type: "BUY".into(),
        side: side.into(),
        reason: "h_entry".into(),
        price: n(price),
        shares: n(10.0),
        usd_value: n(price * 10.0),
        available_cash_after: n(0.0),
    }
}

fn salvage(side: &str, price: f64) -> TradeRecord {
    TradeRecord {
        timestamp: 1,
        trade_type: "SELL".into(),
        side: side.into(),
        reason: "h_salvage_otm".into(),
        price: n(price),
        shares: n(10.0),
        usd_value: n(price * 10.0),
        available_cash_after: n(0.0),
    }
}

#[test]
fn salvage_profit_counts_as_salvage_win() {
    let s = derive_h_close_stats(
        &[buy("DOWN", 0.40), salvage("DOWN", 0.41)],
        "DOWN",
        "UP",
    );
    assert_eq!(s.market_win, Some(false));
    assert!(s.salvaged);
    assert!(s.salvage_win);
}

#[test]
fn salvage_loss_not_salvage_win() {
    let s = derive_h_close_stats(
        &[buy("UP", 0.40), salvage("UP", 0.39)],
        "UP",
        "UP",
    );
    assert_eq!(s.market_win, Some(true));
    assert!(s.salvaged);
    assert!(!s.salvage_win);
}

#[test]
fn redeem_hold_no_salvage() {
    let s = derive_h_close_stats(
        &[buy("DOWN", 0.40)],
        "DOWN",
        "DOWN",
    );
    assert!(!s.salvaged);
    assert!(!s.salvage_win);
}

#[test]
fn session_line_counts_shares() {
    assert_eq!(
        format_h_session_line(3, 1, 4, 1),
        "H Extra: Market 3/4 (75%) | Salvaged 1/4 profitable exit (25%)"
    );
    assert_eq!(
        format_h_session_line(0, 0, 0, 0),
        "H Extra: Market 0/0 (0%) | Salvaged 0/0 profitable exit (0%)"
    );
}

#[test]
fn no_entry_side_means_no_stats() {
    let s = derive_h_close_stats(&[buy("UP", 0.4)], "", "UP");
    assert_eq!(s.market_win, None);
    assert!(s.entry_price.is_none());
}
