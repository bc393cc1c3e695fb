use gem_endgame::asset_price::{format_asset_price, format_atr, is_supported, ptb_implausible, strike_max, strike_min};
use gem_endgame::j_fees::{compare_endgame_clips, default_crypto_fee_rate_bps, endgame_buy_hold_net, leg_fee_usd};
use gem_endgame::market_parse::parse_strike_from_text;
use gem_endgame::num::Num;
use gem_endgame::orderbook::{apply_fill_to_asks, ask_depth_usd, simulate_limit_buy_fill, simulate_taker_buy_fill, BookLevel};

fn n(x: f64) -> Num {
    Num::from_bits(x.to_bits())
}

fn f(x: Num) -> f64 {
    f64::from_bits(x.to_bits())
}

fn level(price: f64, size: f64) -> BookLevel {
    BookLevel { price: n(price), size: n(size) }
}

#[test]
fn sol_ptb_35_vs_spot_140_is_implausible() {
    assert!(ptb_implausible("SOL", n(35.0), n(140.0)));
}

#[test]
fn sol_chainlink_ptb_near_spot_is_plausible() {
    assert!(!ptb_implausible("SOL", n(139.85), n(140.10)));
}

#[test]
fn format_xrp_and_doge_decimals() {
    assert_eq!(format_asset_price("XRP", n(2.345678)), "$2.345678");
    assert_eq!(format_asset_price("DOGE", n(0.123456)), "$0.123456");
}

#[test]
fn prices_take_the_decimals_of_their_asset() {
    assert_eq!(format_asset_price("btc", n(95432.5)), "$95432.50");
    assert_eq!(format_asset_price("sol", n(140.123456)), "$140.1235");
    assert_eq!(format_atr("eth", n(3.14159)), "$3.14");
}

#[test]
fn assets_are_known_in_any_case() {
    for a in ["BTC", "eth", "Sol", "XRP", "doge"] {
        assert!(is_supported(a));
    }
    assert!(!is_supported("ADA"));
    assert_eq!(f(strike_min("BTC")), 1000.0);
    assert_eq!(f(strike_max("doge")), 10.0);
}

#[test]
fn implausible_without_a_positive_price() {
    assert!(ptb_implausible("BTC", n(0.0), n(60000.0)));
    assert!(ptb_implausible("BTC", n(60000.0), n(-1.0)));
    assert!(ptb_implausible("BTC", n(999.0), n(2000.0)));
}

#[test]
fn sol_datetime_question_has_no_dollar_strike() {
    let q = "Solana Up or Down - June 18, 6:30PM-6:35PM ET";
    assert!(parse_strike_from_text(q, "SOL").is_none());
}

#[test]
fn btc_dollar_strike_parsed() {
    let q = "Bitcoin Up or Down - $95,432.50 at 3:00PM ET";
    assert_eq!(parse_strike_from_text(q, "BTC").map(f), Some(95432.50));
}

#[test]
fn xrp_datetime_question_has_no_dollar_strike() {
    let q = "XRP Up or Down - June 18, 6:35PM-6:40PM ET";
    assert!(parse_strike_from_text(q, "XRP").is_none());
}

#[test]
fn buy_98_better_than_99_after_fees() {
    let c = compare_endgame_clips(n(1.0), default_crypto_fee_rate_bps());
    assert!(f(c.buy_98_net) > f(c.buy_99_net));
    assert!(f(c.buy_98_net) > 0.0);
}

#[test]
fn scalp_loses_to_fees() {
    let c = compare_endgame_clips(n(1.0), default_crypto_fee_rate_bps());
    assert!(f(c.scalp_98_99_net) < f(c.buy_98_net));
    assert!(f(c.scalp_98_99_net) < 0.01);
}

#[test]
fn without_fees_a_winning_share_pays_a_dollar() {
    let net = f(endgame_buy_hold_net(n(0.5), n(10.0), true, n(0.0)));
    assert_eq!(net, 10.0);
    let lost = f(endgame_buy_hold_net(n(0.5), n(10.0), false, n(0.0)));
    assert_eq!(lost, -10.0);
    assert_eq!(f(leg_fee_usd(n(0.5), n(10.0), n(0.0))), 0.0);
}

#[test]
fn limit_fill_walks_asks() {
    let asks = vec![level(0.97, 2.0), level(0.98, 5.0)];
    let (shares, avg) = simulate_limit_buy_fill(&asks, n(0.98), n(1.0)).unwrap();
    assert!(f(shares) > 0.0);
    assert!(f(avg) <= 0.98);
}

#[test]
fn no_fill_if_ask_above_limit() {
    let asks = vec![level(0.99, 10.0)];
    assert!(simulate_limit_buy_fill(&asks, n(0.98), n(1.0)).is_none());
}

#[test]
fn taker_fill_takes_the_cheapest_levels_first() {
    let asks = vec![level(0.5, 2.0), level(0.6, 10.0), level(0.9, 10.0)];
    let (shares, avg) = simulate_taker_buy_fill(&asks, n(0.5), n(0.6), n(1.6)).unwrap();
    assert!((f(shares) - 3.0).abs() < 1e-9);
    assert!((f(avg) - 1.6 / 3.0).abs() < 1e-9);
}

#[test]
fn depth_sums_as_the_standard_library_does() {
    let asks = vec![level(0.1, 3.0), level(0.2, 7.0), level(0.3, 11.0), level(0.9, 5.0)];
    let want: f64 = [0.1 * 3.0, 0.2 * 7.0, 0.3 * 11.0].iter().sum();
    assert_eq!(ask_depth_usd(&asks, n(0.3)).to_bits(), want.to_bits());
    let none: Vec<f64> = vec![];
    let empty: f64 = none.iter().sum();
    assert_eq!(ask_depth_usd(&[], n(0.3)).to_bits(), empty.to_bits());
}

#[test]
fn a_fill_empties_the_levels_it_takes() {
    let mut asks = vec![level(0.5, 2.0), level(0.6, 10.0)];
    let got = apply_fill_to_asks(&mut asks, n(0.6), n(1.6));
    assert!(got.is_some());
    assert_eq!(asks.len(), 1);
    assert!((f(asks[0].size) - 9.0).abs() < 1e-9);
}

#[test]
fn dear_levels_do_not_matter() {
    let near = vec![level(0.90, 5.0), level(0.92, 5.0)];
    let mut far = near.clone();
    far.push(level(0.99, 1_000.0));
    far.push(level(0.91, 1_000.0));
    let a = simulate_limit_buy_fill(&near, n(0.95), n(50.0)).unwrap();
    let b = simulate_limit_buy_fill(&far, n(0.95), n(50.0)).unwrap();
    assert_eq!((f(a.0), f(a.1)), (f(b.0), f(b.1)));
    assert!(apply_fill_to_asks(&mut far, n(0.95), n(50.0)).is_some());
    assert_eq!(far.iter().map(|l| f(l.price)).collect::<Vec<f64>>(), vec![0.99, 0.91]);
}

#[test]
fn a_dollar_sign_counts_only_before_a_digit() {
    assert_eq!(parse_strike_from_text("Solana in $ - June 18, 6PM ET", "SOL").map(f), None);
    assert_eq!(parse_strike_from_text("Solana above $ 150", "SOL").map(f), None);
    assert_eq!(parse_strike_from_text("Solana above $150.25, June 18", "SOL").map(f), Some(150.25));
    assert_eq!(parse_strike_from_text("cost in $, then $150", "SOL").map(f), Some(150.0));
}

fn total(asks: &[BookLevel]) -> f64 {
    asks.iter().map(|l| f(l.size)).sum()
}

#[test]
fn a_fill_takes_its_shares_out_of_the_book() {
    let mut asks = vec![level(0.5, 10.0), level(0.6, 20.0), level(0.7, 30.0), level(0.9, 40.0)];
    let before = total(&asks);
    let (shares, average) = apply_fill_to_asks(&mut asks, n(0.75), n(20.0)).unwrap();
    assert!((before - total(&asks) - f(shares)).abs() < 1e-6);
    assert!(f(average) >= 0.5 && f(average) <= 0.75);
    assert!(f(average) * f(shares) <= 20.0 + 1e-9);
    assert_eq!((f(asks[asks.len() - 1].price), f(asks[asks.len() - 1].size)), (0.9, 40.0));
    let all = total(&asks);
    let (rest, _) = apply_fill_to_asks(&mut asks, n(0.75), n(1000.0)).unwrap();
    assert!((all - total(&asks) - f(rest)).abs() < 1e-6);
    assert_eq!(asks.len(), 1);
    assert!(apply_fill_to_asks(&mut asks, n(0.75), n(5.0)).is_none());
    assert_eq!(f(asks[0].size), 40.0);
}
