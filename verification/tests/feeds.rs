use gem_endgame::cex_micro::{cex_velocity_against_side, cex_vetoes_cheap_entry, BybitTradeData, BybitTradeResponse, CexMicroManager};
use gem_endgame::client::{
    apply_feed, apply_feed_text, chainlink_symbol, chainlink_tick, chainlink_tick_text, clock_offset, contract_from_book, contract_from_text, parse_ws_side, ContractPrices,
    MarketWindow, PricesState, TokenInfo, TokensMap,
};
use gem_endgame::json::{parse_json, Json};
use gem_endgame::maintenance::MaintenanceStatus;
use gem_endgame::market_parse::{
    active_market, after_listing, candidate_slugs, listed_market, market_from, next_market, order_markets, searched_markets, slug_prefix, Upcoming,
};
use gem_endgame::num::Num;
use gem_endgame::volatility::{atr_from_text, mean_true_range, Candle};

fn n(x: f64) -> Num {
    Num::from_bits(x.to_bits())
}

fn f(x: Num) -> f64 {
    f64::from_bits(x.to_bits())
}

fn s(t: &str) -> Json {
    Json::Str(t.into())
}

fn num(x: f64) -> Json {
    Json::Number(Some(n(x)), None, None)
}

fn object(entries: Vec<(&str, Json)>) -> Json {
    Json::Object(entries.into_iter().map(|(k, v)| (k.to_string(), v)).collect())
}

fn level(price: &str, size: &str) -> Json {
    object(vec![("price", s(price)), ("size", s(size))])
}

fn tokens() -> TokensMap {
    TokensMap {
        up: TokenInfo { token_id: "1".into(), outcome_name: "Up".into() },
        down: TokenInfo { token_id: "2".into(), outcome_name: "Down".into() },
    }
}

fn blank() -> PricesState {
    PricesState { up: ContractPrices::default(), down: ContractPrices::default() }
}

#[test]
fn books_replace_levels() {
    let mut p = blank();
    let book = object(vec![
        ("event_type", s("book")),
        ("asset_id", s("1")),
        ("bids", Json::Array(vec![level("0.48", "5"), level("0.5", "7")])),
        ("asks", Json::Array(vec![level("0.56", "5"), level("0.52", "7")])),
    ]);
    let e = apply_feed(&mut p, &tokens(), &Json::Array(vec![book]));
    assert!(e.updated && e.buys.is_empty());
    assert_eq!((f(p.up.bid), f(p.up.ask)), (0.5, 0.52));
    assert_eq!(f(p.up.book.asks[1].price), 0.56);
    assert_eq!(f(p.down.bid), 0.0);
    let c = contract_from_book(&object(vec![("bids", Json::Array(vec![level("0.4", "1")]))]));
    assert_eq!((f(c.bid), f(c.ask)), (0.4, 0.0));
}

#[test]
fn foreign_tokens_and_odd_documents_change_nothing() {
    let mut p = blank();
    for doc in [
        Json::Null,
        object(vec![("event_type", s("book")), ("asset_id", s("9"))]),
        object(vec![("event_type", s("other")), ("asset_id", s("1")), ("price", s("0.4"))]),
    ] {
        let e = apply_feed(&mut p, &tokens(), &doc);
        assert!(!e.updated && e.buys.is_empty());
    }
    assert_eq!(f(p.up.bid), 0.0);
    assert_eq!(parse_ws_side(&object(vec![("side", s("buy"))])).as_deref(), Some("BUY"));
}

#[test]
fn spot_ticks_of_the_right_symbol_count() {
    assert_eq!(chainlink_symbol("BTC"), "btc/usd");
    let tick = |symbol: &str, value: Json| {
        object(vec![
            ("topic", s("crypto_prices_chainlink")),
            (
                "payload",
                object(vec![
                    ("symbol", s(symbol)),
                    ("value", value),
                    ("timestamp", Json::Number(Some(n(7.0)), Some(7), Some(7))),
                ]),
            ),
        ])
    };
    let (price, at) = chainlink_tick(&tick("BTC/USD", num(60_000.5)), "BTC", 99).unwrap();
    assert_eq!((f(price), at), (60_000.5, 7));
    assert_eq!(f(chainlink_tick(&tick("btc/usd", s("61000.25")), "btc", 99).unwrap().0), 61_000.25);
    assert!(chainlink_tick(&tick("eth/usd", num(1.0)), "BTC", 99).is_none());
    assert!(chainlink_tick(&tick("btc/usd", num(-1.0)), "BTC", 99).is_none());
    assert!(chainlink_tick(&Json::Null, "BTC", 99).is_none());
}

#[test]
fn the_server_clock_gives_an_offset() {
    assert_eq!(clock_offset("Sun, 21 Jun 2026 00:00:00 GMT", 1_782_000_000_000), Some(0));
    assert_eq!(clock_offset("Sun, 21 Jun 2026 00:00:01 GMT", 1_782_000_000_000), Some(1_000));
    assert_eq!(clock_offset("yesterday", 0), None);
}

fn listing(slug: &str) -> Json {
    object(vec![
        ("slug", s(slug)),
        ("question", s("Bitcoin Up or Down - $95,432.50 at 3:00PM ET")),
        ("clobTokenIds", s("[\"11\",\"22\"]")),
        ("outcomes", s("[\"Up\",\"Down\"]")),
    ])
}

#[test]
fn listings_become_markets() {
    let m = market_from(&listing("btc-updown-5m-1782000000"), Some("\"77\""), "BTC", "5m").unwrap();
    assert_eq!(m.slug, "btc-updown-5m-1782000000");
    assert_eq!(m.tokens.up.token_id, "11");
    assert_eq!(m.tokens.down.token_id, "22");
    assert!(m.start_time.starts_with("2026-06-21T00:00:00"));
    assert!(m.end_time.starts_with("2026-06-21T00:05:00"));
    assert_eq!(m.price_to_beat.map(f), Some(95432.5));
    assert!(market_from(&listing("btc-updown-5m-1782000000"), None, "BTC", "5m").is_none());
    assert!(market_from(&Json::Null, Some("1"), "BTC", "5m").is_none());
    let swapped = object(vec![
        ("slug", s("btc-updown-5m-1782000000")),
        ("clobTokenIds", s("[\"11\",\"22\"]")),
        ("outcomes", s("[\"Down\",\"Up\"]")),
    ]);
    assert_eq!(market_from(&swapped, Some("1"), "BTC", "5m").unwrap().tokens.up.token_id, "22");
}

#[test]
fn candidates_surround_the_running_window() {
    assert_eq!(slug_prefix("BTC", "5m"), "btc-updown-5m");
    let c = candidate_slugs("BTC", "5m", 1_782_000_123_000);
    assert_eq!(c.len(), 8);
    assert_eq!(c[0], "btc-updown-5m-1781999700");
    assert_eq!(c[1], "btc-updown-5m-1782000000");
    assert_eq!(c[7], "btc-updown-5m-1782001800");
    assert_eq!(candidate_slugs("eth", "15m", 1_782_000_123_000)[2], "eth-updown-15m-1782000900");
}

fn market(slug: &str) -> MarketWindow {
    market_from(&listing(slug), Some("1"), "BTC", "5m").unwrap()
}

#[test]
fn markets_are_ordered_without_repeats() {
    let list = order_markets(vec![
        market("btc-updown-5m-1782000300"),
        market("btc-updown-5m-1782000000"),
        market("btc-updown-5m-1782000300"),
        market("btc-updown-5m-1782000600"),
    ]);
    let slugs: Vec<&str> = list.iter().map(|m| m.slug.as_str()).collect();
    assert_eq!(
        slugs,
        vec!["btc-updown-5m-1782000000", "btc-updown-5m-1782000300", "btc-updown-5m-1782000600"]
    );
    assert_eq!(active_market(&list, 1_782_000_299_999), Some(0));
    assert_eq!(active_market(&list, 1_782_000_300_000), Some(1));
    assert_eq!(active_market(&list, 1_782_000_900_000), None);
    assert_eq!(next_market(&list, 1_782_000_000_000, &[]), Some(1));
    assert_eq!(next_market(&list, 1_782_000_000_000, &["btc-updown-5m-1782000300".into()]), Some(2));
    assert_eq!(next_market(&list, 1_782_000_600_000, &[]), None);
}

#[test]
fn exchange_trades_give_speed_and_imbalance() {
    let t = |at: i64, p: &str, v: &str, side: &str| BybitTradeData {
        timestamp_ms: at,
        p: p.into(),
        v: v.into(),
        side: side.into(),
    };
    let mut m = CexMicroManager::new();
    m.ingest(
        &[t(8_000, "100", "3", "Buy"), t(9_000, "100", "1", "Sell"), t(9_500, "x", "1", "Buy")],
        10_000,
    );
    let snap = m.snapshot(Some(n(99.0)), 10_000);
    assert_eq!(f(snap.buy_sell_imbalance_3s), 0.5);
    assert_eq!(snap.trade_count_3s, 2);
    assert_eq!(f(snap.last_trade_price), 100.0);
    assert!((f(snap.lead_vs_chainlink_bps.unwrap()) - 101.0101).abs() < 1e-3);
    assert!(f(snap.trade_velocity_3s.unwrap()) > 0.0);
    assert!(!cex_velocity_against_side("UP", &snap));
    assert!(cex_velocity_against_side("DOWN", &snap));
    assert!(cex_vetoes_cheap_entry("DOWN", &snap));
}

#[test]
fn documents_are_read_from_text() {
    let d = parse_json(r#"{"a": [1, 2.5, "x", null, true], "big": 18446744073709551615}"#).unwrap();
    let items = d.get_items("a").unwrap();
    assert!(matches!(&items[0], Json::Number(Some(x), Some(1), Some(1)) if f(*x) == 1.0));
    assert!(matches!(&items[1], Json::Number(Some(x), None, None) if f(*x) == 2.5));
    assert_eq!(items[2].as_str(), Some("x"));
    assert!(matches!(items[3], Json::Null));
    assert!(matches!(items[4], Json::Bool(true)));
    assert!(matches!(d.get("big"), Some(Json::Number(Some(_), None, Some(18446744073709551615)))));
    assert!(d.get("missing").is_none());
    assert!(parse_json("{").is_none());
    assert!(parse_json("PONG").is_none());
}

#[test]
fn wire_messages_move_prices() {
    let mut p = blank();
    let book = r#"[{"event_type":"book","asset_id":"2","bids":[{"price":"0.4","size":"3"}],
        "asks":[{"price":"0.45","size":"2"}]}]"#;
    assert!(apply_feed_text(&mut p, &tokens(), book).updated);
    assert_eq!((f(p.down.bid), f(p.down.ask)), (0.4, 0.45));
    let print = r#"{"event_type":"last_trade_price","asset_id":"2","price":"0.46","side":"BUY","size":"10"}"#;
    let e = apply_feed_text(&mut p, &tokens(), print);
    assert!(e.updated);
    assert_eq!(e.buys.len(), 1);
    assert!(!e.buys[0].up);
    assert!((f(e.buys[0].usd) - 4.6).abs() < 1e-9);
    assert_eq!(f(p.down.bid), 0.46);
    assert_eq!(f(p.down.ask), 0.46 + 0.01);
    let e = apply_feed_text(&mut p, &tokens(), "not json");
    assert!(!e.updated && e.buys.is_empty());
    assert_eq!(f(p.down.bid), 0.46);
}

#[test]
fn wire_messages_carry_the_spot() {
    let text = r#"{"topic":"crypto_prices_chainlink","payload":{"symbol":"eth/usd","value":"3000.5"}}"#;
    let (price, at) = chainlink_tick_text(text, "ETH", 11).unwrap();
    assert_eq!((f(price), at), (3000.5, 11));
    assert!(chainlink_tick_text("PONG", "ETH", 11).is_none());
}

#[test]
fn the_status_page_is_read_from_text() {
    let up = MaintenanceStatus::of_text(Some(r#"{"page":{"status":"UP"}}"#));
    assert!(up.ok && up.checked);
    let down = MaintenanceStatus::of_text(Some(r#"{"page":{"status":"HASISSUES"}}"#));
    assert!(down.blocks_trading());
    assert_eq!(down.label, "DEGRADED (HASISSUES)!");
    let work = r#"{"page":{"status":"UP"},"activeMaintenances":[{"status":"inProgress"}]}"#;
    assert_eq!(MaintenanceStatus::of_text(Some(work)).label, "UNDER MAINTENANCE!");
    assert_eq!(MaintenanceStatus::of_text(Some("<html>")).label, "CHECK FAILED");
    assert_eq!(MaintenanceStatus::of_text(None).label, "CHECK FAILED");
}

fn listing_text(id: &str, slug: &str) -> String {
    format!(
        "{{\"id\": {}, \"slug\": \"{}\", \"clobTokenIds\": [\"11\", \"22\"], \"outcomes\": [\"Up\", \"Down\"]}}",
        id, slug
    )
}

#[test]
fn a_listing_carries_its_id() {
    let slug = "btc-updown-5m-1782000000";
    let id = |t: &str| listed_market(&listing_text(t, slug), "BTC", "5m").unwrap().id;
    assert_eq!(id("\"77\""), "77");
    assert_eq!(id("77"), "77");
    assert_eq!(id("18446744073709551615"), "18446744073709551615");
    assert_eq!(id("1.5"), "1.5");
    assert_eq!(id("null"), "null");
    assert_eq!(id("\"a\\\"b\""), "a\\\"b");
    assert_eq!(id("[1, \"x\"]"), "[1,\"x\"]");
    let list = format!("[{}, {}]", listing_text("1", slug), listing_text("2", slug));
    assert_eq!(listed_market(&list, "BTC", "5m").unwrap().id, "1");
    assert!(listed_market("[]", "BTC", "5m").is_none());
    assert!(listed_market("{}", "BTC", "5m").is_none());
    assert!(listed_market("not json", "BTC", "5m").is_none());
    let without = "{\"slug\": \"btc-updown-5m-1782000000\", \"clobTokenIds\": [\"11\", \"22\"], \"outcomes\": [\"Up\", \"Down\"]}";
    assert!(listed_market(without, "BTC", "5m").is_none());
}

#[test]
fn a_search_gives_the_markets_among_its_events() {
    let text = format!(
        "[{}, {{\"slug\": \"x\"}}, [{}], {}]",
        listing_text("1", "btc-updown-5m-1782000000"),
        listing_text("9", "btc-updown-5m-1782000300"),
        listing_text("2", "btc-updown-5m-1782000600")
    );
    let ids: Vec<String> = searched_markets(&text, "BTC", "5m").into_iter().map(|m| m.id).collect();
    assert_eq!(ids, vec!["1", "2"]);
    assert!(searched_markets("{}", "BTC", "5m").is_empty());
    assert!(searched_markets("", "BTC", "5m").is_empty());
}

#[test]
fn a_book_is_read_from_its_text() {
    let book = contract_from_text(Some(
        "{\"bids\": [{\"price\": \"0.48\", \"size\": \"5\"}], \"asks\": [{\"price\": \"0.52\", \"size\": \"7\"}]}",
    ));
    assert_eq!((f(book.bid), f(book.ask)), (0.48, 0.52));
    assert_eq!(f(contract_from_text(Some("oops")).ask), 0.0);
    assert_eq!(f(contract_from_text(None).bid), 0.0);
}

#[test]
fn one_of_two_markets_with_a_slug_stays() {
    let mut later = market("btc-updown-5m-1782000300");
    later.id = "later".into();
    let list = order_markets(vec![market("btc-updown-5m-1782000300"), later, market("btc-updown-5m-1782000000")]);
    assert_eq!(list.len(), 2);
    assert_eq!(list[0].slug, "btc-updown-5m-1782000000");
    assert_eq!(list[1].id, "1");
}

#[test]
fn candles_give_the_mean_true_range() {
    let c = |high: f64, low: f64, close: f64| Candle { high: n(high), low: n(low), close: n(close) };
    assert_eq!(mean_true_range(&vec![c(12.0, 10.0, 11.0), c(9.0, 7.0, 8.0), c(8.0, 7.5, 7.5)]).map(f), Some(3.0));
    assert!(mean_true_range(&vec![c(12.0, 10.0, 11.0)]).is_none());
    let text = r#"{"result": {"list": [["0", "1", "12", "10", "11"], ["x"], ["0", "1", "9", "7", "8"]]}}"#;
    assert_eq!(atr_from_text(text).map(f), Some(4.0));
    assert!(atr_from_text("{}").is_none());
    assert!(atr_from_text("nothing").is_none());
}

#[test]
fn only_the_trade_topic_is_taken_in() {
    let message = |topic: Option<&str>, price: Option<&str>| BybitTradeResponse {
        topic: topic.map(|t| t.to_string()),
        data: price.map(|p| {
            vec![BybitTradeData { timestamp_ms: 9_000, p: p.into(), v: "1".into(), side: "Buy".into() }]
        }),
    };
    let mut m = CexMicroManager::new();
    m.ingest_message(&message(Some("orderbook.1"), Some("5")), 10_000);
    m.ingest_message(&message(None, Some("5")), 10_000);
    m.ingest_message(&message(Some("publicTrade.BTCUSDT"), None), 10_000);
    assert_eq!((m.trades.len(), f(m.last_trade_price)), (0, 0.0));
    m.ingest_message(&message(Some("publicTrade.BTCUSDT"), Some("7")), 10_000);
    assert_eq!((m.trades.len(), f(m.last_trade_price)), (1, 7.0));
}

#[test]
fn the_exchange_is_searched_where_nothing_is_listed() {
    match after_listing(vec![], "BTC", "5m") {
        Upcoming::Search(part) => assert_eq!(part, "btc-updown-5m"),
        Upcoming::Found(_) => unreachable!(),
    }
    let listed = vec![market("btc-updown-5m-1782000300"), market("btc-updown-5m-1782000000")];
    match after_listing(listed, "BTC", "5m") {
        Upcoming::Found(list) => assert_eq!(list[0].slug, "btc-updown-5m-1782000000"),
        Upcoming::Search(_) => unreachable!(),
    }
}
