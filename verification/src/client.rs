//! Markets and prices as the exchange's feeds report them.
use crate::json::{document_of, parse_json, Json};
use crate::num::Num;
use crate::number_text::{num_of_text, parse_num};
use crate::orderbook::{
    first_price, levels_of, parse_levels, sort_asks, sort_bids, sorted_levels, top_price,
    BookLevel, SideBook,
};
use crate::text::{lowercase, same_text, to_lowercase, to_uppercase, uppercase};
use crate::time::{rfc2822_millis, rfc2822_millis_of};
use crate::trade_tape::{infer_trade_usd, is_aggressive_buy};
use crate::trader::no_contract;
use vstd::prelude::*;
use vstd::string::*;

verus! {

#[derive(Debug, Clone)]
pub struct TokenInfo {
    pub token_id: String,
    pub outcome_name: String,
}

#[derive(Debug, Clone)]
pub struct TokensMap {
    pub up: TokenInfo,
    pub down: TokenInfo,
}

#[derive(Debug, Clone)]
pub struct MarketWindow {
    pub id: String,
    pub slug: String,
    pub question: String,
    pub asset: String,
    pub interval: String,
    pub start_time: String,
    pub end_time: String,
    pub price_to_beat: Option<Num>,
    pub tokens: TokensMap,
}

impl MarketWindow {
    /// Deviation of the spot from the price to beat: absolute (spot - PTB) and in percent
    /// of the price to beat. None without a spot or a positive price to beat.
    pub fn get_ptb_deviation(&self, spot_price: Option<Num>) -> (r: Option<(Num, Num)>)
        ensures
            r == match (spot_price, self.price_to_beat) {
                (Some(spot), Some(ptb)) => if ptb.gt(Num::zero()) {
                    Some((spot - ptb, (spot - ptb) / ptb * Num::uint(100)))
                } else {
                    None
                },
                _ => None,
            },
    {
        match (spot_price, self.price_to_beat) {
            (Some(spot), Some(ptb)) => {
                if ptb.gt(Num::zero()) {
                    let delta: Num = spot - ptb;
                    let pct: Num = delta / ptb * Num::uint(100);
                    Some((delta, pct))
                } else {
                    None
                }
            },
            _ => None,
        }
    }
}

#[derive(Debug, Clone)]
pub struct ContractPrices {
    pub bid: Num,
    pub ask: Num,
    pub book: SideBook,
}

impl Default for ContractPrices {
    fn default() -> (r: Self)
        ensures
            r.bid == Num::zero(),
            r.ask == Num::zero(),
            r.book.bids@ == Seq::<BookLevel>::empty(),
            r.book.asks@ == Seq::<BookLevel>::empty(),
    {
        ContractPrices { bid: Num::zero(), ask: Num::zero(), book: SideBook::default() }
    }
}

impl ContractPrices {
    /// Top-of-book only (tests / price_change updates).
    pub fn top(bid: Num, ask: Num) -> (r: Self)
        ensures
            r.bid == bid,
            r.ask == ask,
            r.book.bids@ == Seq::<BookLevel>::empty(),
            r.book.asks@ == Seq::<BookLevel>::empty(),
    {
        ContractPrices { bid, ask, book: SideBook::default() }
    }
}

#[derive(Debug, Clone)]
pub struct PricesState {
    pub up: ContractPrices,
    pub down: ContractPrices,
}

/// What a feed reports to the engine.
#[derive(Debug)]
pub enum MarketEvent {
    Log(String),
    ShutdownRequested,
    SpotTick { asset: String, price: Num, timestamp: i64 },
    MarketTick {
        window_number: usize,
        role: String,
        market: MarketWindow,
        prices: PricesState,
        timestamp: i64,
    },
    TradePrint {
        window_number: usize,
        role: String,
        side: String,
        price: Num,
        usd: Num,
        is_buy: bool,
        timestamp: i64,
    },
}

/// Prices of one contract as plain values.
pub struct ContractView {
    pub bid: Num,
    pub ask: Num,
    pub bids: Seq<BookLevel>,
    pub asks: Seq<BookLevel>,
}

impl View for ContractPrices {
    type V = ContractView;

    open spec fn view(&self) -> ContractView {
        ContractView { bid: self.bid, ask: self.ask, bids: self.book.bids@, asks: self.book.asks@ }
    }
}

/// Prices of both contracts as plain values.
pub struct PricesView {
    pub up: ContractView,
    pub down: ContractView,
}

impl View for PricesState {
    type V = PricesView;

    open spec fn view(&self) -> PricesView {
        PricesView { up: self.up@, down: self.down@ }
    }
}

pub open spec fn items_or_none(v: Option<Seq<Json>>) -> Seq<BookLevel> {
    match v {
        Some(items) => levels_of(items),
        None => Seq::<BookLevel>::empty(),
    }
}

/// The contract that a book message describes: sorted levels and their best prices.
pub open spec fn book_contract(bids: Option<Seq<Json>>, asks: Option<Seq<Json>>) -> ContractView {
    let b = sorted_levels(items_or_none(bids), true);
    let a = sorted_levels(items_or_none(asks), false);
    ContractView { bid: first_price(b), ask: first_price(a), bids: b, asks: a }
}

pub fn contract_from_ws_book(bids: Option<&Vec<Json>>, asks: Option<&Vec<Json>>) -> (r:
    ContractPrices)
    ensures
        r@ == book_contract(
            match bids {
                Some(v) => Some(v@),
                None => None,
            },
            match asks {
                Some(v) => Some(v@),
                None => None,
            },
        ),
{
    let bids: Vec<BookLevel> = sort_bids(parse_levels(bids));
    let asks: Vec<BookLevel> = sort_asks(parse_levels(asks));
    let bid: Num = top_price(&bids);
    let ask: Num = top_price(&asks);
    ContractPrices { bid, ask, book: SideBook { bids, asks } }
}

/// The contract that an order book document describes.
pub fn contract_from_book(book: &Json) -> (r: ContractPrices)
    ensures
        r@ == book_contract(book.items_at("bids"@), book.items_at("asks"@)),
{
    contract_from_ws_book(book.get_items("bids"), book.get_items("asks"))
}

/// The contract that an order book's text describes; blank where there is no text or it is
/// no JSON.
pub fn contract_from_text(text: Option<&str>) -> (r: ContractPrices)
    ensures
        r@ == match text {
            Some(t) => match document_of(t@) {
                Some(d) => book_contract(d.items_at("bids"@), d.items_at("asks"@)),
                None => no_contract(),
            },
            None => no_contract(),
        },
{
    match text {
        Some(t) => match parse_json(t) {
            Some(d) => contract_from_book(&d),
            None => ContractPrices::default(),
        },
        None => ContractPrices::default(),
    }
}

/// Size of a print: a text or a number.
pub open spec fn print_size(m: Json) -> Option<Num> {
    match m.num_text_at("size"@) {
        Some(x) => Some(x),
        None => match m.spec_get("size"@) {
            Some(Json::Number(x, _, _)) => x,
            _ => None,
        },
    }
}

pub fn parse_level_size(m: &Json) -> (r: Option<Num>)
    ensures
        r == print_size(*m),
{
    match m.get_num_text("size") {
        Some(x) => Some(x),
        None => match m.get("size") {
            Some(Json::Number(x, _, _)) => *x,
            _ => None,
        },
    }
}

/// The side that a message names, in upper case.
pub open spec fn named_side(m: Json) -> Option<Seq<char>> {
    match m.str_at("side"@) {
        Some(s) => Some(uppercase(s)),
        None => None,
    }
}

pub fn parse_ws_side(m: &Json) -> (r: Option<String>)
    ensures
        match (r, named_side(*m)) {
            (Some(a), Some(b)) => a@ == b,
            (None, None) => true,
            _ => false,
        },
{
    match m.get_str("side") {
        Some(s) => Some(to_uppercase(s)),
        None => None,
    }
}

/// A buy on one outcome token.
#[derive(Debug, Clone, Copy)]
pub struct PrintedBuy {
    pub up: bool,
    pub price: Num,
    pub usd: Num,
}

/// What a feed message did: whether prices moved, and the buys it printed.
pub struct FeedEffect {
    pub updated: bool,
    pub buys: Vec<PrintedBuy>,
}

/// Prices, whether they moved, and the printed buys.
pub struct FeedState {
    pub prices: PricesView,
    pub updated: bool,
    pub buys: Seq<PrintedBuy>,
}

pub open spec fn text_at(m: Json, key: Seq<char>) -> Seq<char> {
    match m.str_at(key) {
        Some(s) => s,
        None => Seq::<char>::empty(),
    }
}

pub open spec fn is_price_event(event: Seq<char>) -> bool {
    event == "price_change"@ || event == "tick_size_change"@ || event == "last_trade_price"@ || event
        == "trade"@
}

/// The price that a price message carries; none where it has no price entry.
pub open spec fn event_price(m: Json) -> Option<Num> {
    let entry = match m.spec_get("price"@) {
        Some(v) => Some(v),
        None => m.spec_get("last_trade_price"@),
    };
    match entry {
        Some(Json::Str(s)) => num_of_text(s@),
        Some(_) => num_of_text("0"@),
        None => None,
    }
}

pub open spec fn contract_of(p: PricesView, up: bool) -> ContractView {
    if up {
        p.up
    } else {
        p.down
    }
}

pub open spec fn with_contract(p: PricesView, up: bool, c: ContractView) -> PricesView {
    if up {
        PricesView { up: c, down: p.down }
    } else {
        PricesView { up: p.up, down: c }
    }
}

/// A contract after a print: the bid follows the price, the ask stays above it.
pub open spec fn after_print(c: ContractView, price: Num) -> ContractView {
    ContractView {
        bid: price,
        ask: if c.ask.le(price) {
            price + Num::ratio(1, 100)
        } else {
            c.ask
        },
        ..c
    }
}

/// Whether a print is a buy: its side says so, or without a side it lifted the ask.
pub open spec fn print_is_buy(m: Json, price: Num, c: ContractView) -> bool {
    match named_side(m) {
        Some(side) => side == "BUY"@,
        None => is_aggressive_buy(price, c.bid, c.ask),
    }
}

/// The feed after one message about the UP token or the DOWN token.
pub open spec fn after_token_message(s: FeedState, up: bool, m: Json) -> FeedState {
    let event = text_at(m, "event_type"@);
    let c = contract_of(s.prices, up);
    if event == "book"@ {
        FeedState {
            prices: with_contract(
                s.prices,
                up,
                book_contract(m.items_at("bids"@), m.items_at("asks"@)),
            ),
            updated: true,
            buys: s.buys,
        }
    } else if is_price_event(event) {
        match event_price(m) {
            Some(price) => if price.gt(Num::zero()) {
                FeedState {
                    prices: with_contract(s.prices, up, after_print(c, price)),
                    updated: true,
                    buys: if print_is_buy(m, price, c) {
                        s.buys.push(
                            PrintedBuy {
                                up,
                                price,
                                usd: infer_trade_usd(price, print_size(m), Num::one()),
                            },
                        )
                    } else {
                        s.buys
                    },
                }
            } else {
                s
            },
            None => s,
        }
    } else {
        s
    }
}

/// The feed after one message; a message about another token changes nothing.
pub open spec fn after_message(
    s: FeedState,
    up_id: Seq<char>,
    down_id: Seq<char>,
    m: Json,
) -> FeedState {
    let id = text_at(m, "asset_id"@);
    if id == up_id {
        after_token_message(s, true, m)
    } else if id == down_id {
        after_token_message(s, false, m)
    } else {
        s
    }
}

/// The feed after messages, in their order.
pub open spec fn after_messages(
    s: FeedState,
    up_id: Seq<char>,
    down_id: Seq<char>,
    msgs: Seq<Json>,
) -> FeedState
    decreases msgs.len(),
{
    if msgs.len() == 0 {
        s
    } else {
        after_message(
            after_messages(s, up_id, down_id, msgs.drop_last()),
            up_id,
            down_id,
            msgs.last(),
        )
    }
}

fn token_message(prices: &mut PricesState, effect: &mut FeedEffect, up: bool, m: &Json)
    ensures
        ({
            let s = FeedState {
                prices: old(prices)@,
                updated: old(effect).updated,
                buys: old(effect).buys@,
            };
            let t = after_token_message(s, up, *m);
            &&& final(prices)@ == t.prices
            &&& final(effect).updated == t.updated
            &&& final(effect).buys@ == t.buys
        }),
{
    let event: &str = match m.get_str("event_type") {
        Some(e) => e,
        None => "",
    };
    proof {
        reveal_strlit("");
        assert(""@ =~= Seq::<char>::empty());
    }
    if same_text(event, "book") {
        let c: ContractPrices = contract_from_ws_book(m.get_items("bids"), m.get_items("asks"));
        if up {
            prices.up = c;
        } else {
            prices.down = c;
        }
        effect.updated = true;
        return;
    }
    if !(same_text(event, "price_change") || same_text(event, "tick_size_change") || same_text(
        event,
        "last_trade_price",
    ) || same_text(event, "trade")) {
        return;
    }
    let entry: Option<&Json> = match m.get("price") {
        Some(v) => Some(v),
        None => m.get("last_trade_price"),
    };
    let px: &str = match entry {
        Some(v) => match v.as_str() {
            Some(t) => t,
            None => "0",
        },
        None => {
            return;
        },
    };
    let price: Num = match parse_num(px) {
        Some(p) => p,
        None => {
            return;
        },
    };
    if !price.gt(Num::zero()) {
        return;
    }
    let (bid, ask): (Num, Num) = if up {
        (prices.up.bid, prices.up.ask)
    } else {
        (prices.down.bid, prices.down.ask)
    };
    let is_buy: bool = match parse_ws_side(m) {
        Some(side) => same_text(side.as_str(), "BUY"),
        None => is_aggressive_buy(price, bid, ask),
    };
    let next_ask: Num = if ask.le(price) {
        price + Num::ratio(1, 100)
    } else {
        ask
    };
    if up {
        prices.up.bid = price;
        prices.up.ask = next_ask;
    } else {
        prices.down.bid = price;
        prices.down.ask = next_ask;
    }
    effect.updated = true;
    if is_buy {
        let usd: Num = infer_trade_usd(price, parse_level_size(m), Num::one());
        effect.buys.push(PrintedBuy { up, price, usd });
    }
}

fn feed_message(prices: &mut PricesState, effect: &mut FeedEffect, tokens: &TokensMap, m: &Json)
    ensures
        ({
            let s = FeedState {
                prices: old(prices)@,
                updated: old(effect).updated,
                buys: old(effect).buys@,
            };
            let t = after_message(s, tokens.up.token_id@, tokens.down.token_id@, *m);
            &&& final(prices)@ == t.prices
            &&& final(effect).updated == t.updated
            &&& final(effect).buys@ == t.buys
        }),
{
    let id: &str = match m.get_str("asset_id") {
        Some(e) => e,
        None => "",
    };
    proof {
        reveal_strlit("");
        assert(""@ =~= Seq::<char>::empty());
    }
    if same_text(id, tokens.up.token_id.as_str()) {
        token_message(prices, effect, true, m);
    } else if same_text(id, tokens.down.token_id.as_str()) {
        token_message(prices, effect, false, m);
    }
}

/// The messages of a feed document: the items of an array, or the document itself.
pub open spec fn messages_of(raw: Json) -> Seq<Json> {
    match raw {
        Json::Array(items) => items@,
        _ => seq![raw],
    }
}

/// Takes in one document of the price feed: books replace a contract's levels, prints
/// move its bid and keep its ask above it, and buys are handed out for the tape.
pub fn apply_feed(prices: &mut PricesState, tokens: &TokensMap, raw: &Json) -> (r: FeedEffect)
    ensures
        ({
            let s = FeedState {
                prices: old(prices)@,
                updated: false,
                buys: Seq::<PrintedBuy>::empty(),
            };
            let t = after_messages(
                s,
                tokens.up.token_id@,
                tokens.down.token_id@,
                messages_of(*raw),
            );
            &&& final(prices)@ == t.prices
            &&& r.updated == t.updated
            &&& r.buys@ == t.buys
        }),
{
    let mut effect: FeedEffect = FeedEffect { updated: false, buys: Vec::new() };
    let ghost s = FeedState {
        prices: prices@,
        updated: false,
        buys: Seq::<PrintedBuy>::empty(),
    };
    let ghost up_id = tokens.up.token_id@;
    let ghost down_id = tokens.down.token_id@;
    match raw {
        Json::Array(items) => {
            let mut i: usize = 0;
            assert(items@.take(0) == Seq::<Json>::empty());
            while i < items.len()
                invariant
                    i <= items.len(),
                    up_id == tokens.up.token_id@,
                    down_id == tokens.down.token_id@,
                    ({
                        let t = after_messages(s, up_id, down_id, items@.take(i as int));
                        &&& prices@ == t.prices
                        &&& effect.updated == t.updated
                        &&& effect.buys@ == t.buys
                    }),
                decreases items.len() - i,
            {
                proof {
                    assert(items@.take(i + 1).drop_last() == items@.take(i as int));
                    assert(items@.take(i + 1).last() == items@[i as int]);
                }
                feed_message(prices, &mut effect, tokens, &items[i]);
                i = i + 1;
            }
            assert(items@.take(items.len() as int) == items@);
        },
        _ => {
            proof {
                let m = seq![*raw];
                assert(m.drop_last() == Seq::<Json>::empty());
                assert(m.last() == *raw);
                assert(after_messages(s, up_id, down_id, m.drop_last()) == s);
            }
            feed_message(prices, &mut effect, tokens, raw);
        },
    }
    effect
}

/// Takes in one message of the price feed as it comes over the wire; a message that is
/// no JSON changes nothing.
pub fn apply_feed_text(prices: &mut PricesState, tokens: &TokensMap, text: &str) -> (r: FeedEffect)
    ensures
        ({
            let s = FeedState {
                prices: old(prices)@,
                updated: false,
                buys: Seq::<PrintedBuy>::empty(),
            };
            let t = match document_of(text@) {
                Some(d) => after_messages(
                    s,
                    tokens.up.token_id@,
                    tokens.down.token_id@,
                    messages_of(d),
                ),
                None => s,
            };
            &&& final(prices)@ == t.prices
            &&& r.updated == t.updated
            &&& r.buys@ == t.buys
        }),
{
    match parse_json(text) {
        Some(d) => apply_feed(prices, tokens, &d),
        None => FeedEffect { updated: false, buys: Vec::new() },
    }
}

/// The symbol of an asset in the spot feed.
pub open spec fn feed_symbol(asset: Seq<char>) -> Seq<char> {
    lowercase(asset) + "/usd"@
}

pub fn chainlink_symbol(asset: &str) -> (r: String)
    ensures
        r@ == feed_symbol(asset@),
{
    to_lowercase(asset).concat("/usd")
}

/// The price that a value carries: a number, or a text that denotes one; else zero.
pub open spec fn value_price(v: Json) -> Num {
    match v {
        Json::Number(Some(x), _, _) => x,
        Json::Str(s) => match num_of_text(s@) {
            Some(x) => x,
            None => Num::zero(),
        },
        _ => Num::zero(),
    }
}

/// Price and time of a spot message for the asset; none for any other message.
pub open spec fn spot_of(payload: Json, asset: Seq<char>, now_ms: i64) -> Option<(Num, i64)> {
    match payload.spec_get("payload"@) {
        Some(inner) => match inner.spec_get("value"@) {
            Some(v) => if payload.str_at("topic"@) == Some("crypto_prices_chainlink"@) && lowercase(
                text_at(inner, "symbol"@),
            ) == lowercase(feed_symbol(asset)) && value_price(v).gt(Num::zero()) {
                Some(
                    (
                        value_price(v),
                        match inner.spec_get("timestamp"@) {
                            Some(Json::Number(_, Some(t), _)) => t,
                            _ => now_ms,
                        },
                    ),
                )
            } else {
                None
            },
            None => None,
        },
        None => None,
    }
}

pub fn chainlink_tick(payload: &Json, asset: &str, now_ms: i64) -> (r: Option<(Num, i64)>)
    ensures
        r == spot_of(*payload, asset@, now_ms),
{
    match payload.get_str("topic") {
        Some(t) => {
            if !same_text(t, "crypto_prices_chainlink") {
                return None;
            }
        },
        None => {
            return None;
        },
    }
    let inner: &Json = match payload.get("payload") {
        Some(v) => v,
        None => {
            return None;
        },
    };
    let sym: &str = match inner.get_str("symbol") {
        Some(s) => s,
        None => "",
    };
    proof {
        reveal_strlit("");
        assert(""@ =~= Seq::<char>::empty());
    }
    let symbol: String = chainlink_symbol(asset);
    if !same_text(to_lowercase(sym).as_str(), to_lowercase(symbol.as_str()).as_str()) {
        return None;
    }
    let value: &Json = match inner.get("value") {
        Some(v) => v,
        None => {
            return None;
        },
    };
    let price: Num = match value {
        Json::Number(x, _, _) => match x {
            Some(p) => *p,
            None => Num::zero(),
        },
        Json::Str(s) => match parse_num(s.as_str()) {
            Some(p) => p,
            None => Num::zero(),
        },
        _ => Num::zero(),
    };
    if !price.gt(Num::zero()) {
        return None;
    }
    let timestamp: i64 = match inner.get("timestamp") {
        Some(Json::Number(_, Some(t), _)) => *t,
        _ => now_ms,
    };
    Some((price, timestamp))
}

/// The spot price and its moment in a message as it comes over the wire.
pub fn chainlink_tick_text(text: &str, asset: &str, now_ms: i64) -> (r: Option<(Num, i64)>)
    ensures
        r == match document_of(text@) {
            Some(d) => spot_of(d, asset@, now_ms),
            None => None,
        },
{
    match parse_json(text) {
        Some(d) => chainlink_tick(&d, asset, now_ms),
        None => None,
    }
}

/// Offset of the server's clock over the local one, from the server's date header.
pub open spec fn offset_from(server_ms: Option<i64>, local_ms: i64) -> Option<int> {
    match server_ms {
        Some(ms) => Some(ms - local_ms),
        None => None,
    }
}

pub fn clock_offset(date_header: &str, local_ms: i64) -> (r: Option<i64>)
    requires
        i64::MIN <= -9_000_000_000_000_000 - local_ms,
        9_000_000_000_000_000 - local_ms <= i64::MAX,
    ensures
        match (r, offset_from(rfc2822_millis_of(date_header@), local_ms)) {
            (Some(a), Some(b)) => a == b,
            (None, None) => true,
            _ => false,
        },
{
    match rfc2822_millis(date_header) {
        Some(ms) => Some(ms - local_ms),
        None => None,
    }
}

} // verus!
