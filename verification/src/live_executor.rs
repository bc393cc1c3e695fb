//! Live orders: what is sent to the exchange, what comes back, and what is booked.
use crate::client::MarketWindow;
use crate::config::{ExecutionConfig, LiveMarketOrderType, LiveSignatureType};
use crate::num::Num;
use crate::number_format::{dec_text, fixed, fixed_of, int_text, int_text_of, uint_text};
use crate::number_text::{num_of_text, parse_num};
use crate::strategy::{OrderOperation, OrderSignal, OrderType};
use crate::text::{
    ascii_lower_text, byte_prefix, byte_suffix, chars_of, contains, cut_bytes, find_from,
    first_place, has_part, has_prefix, joined, pieces, replace_char, replaced, same_but_case,
    same_text, split_text, starts_with, strip_char, stripped, tail_bytes, text_bytes, text_of_range,
    texts, to_ascii_lower, trim_text, trimmed,
};
use crate::trader::Portfolio;
use vstd::arithmetic::power2::pow2;
use vstd::prelude::*;
use vstd::string::*;

verus! {

/// Tries of an order that must fill whole or not at all.
pub const LIVE_FOK_RETRY_ATTEMPTS: usize = 3;

/// Milliseconds between two tries.
pub const LIVE_FOK_RETRY_DELAY_MS: u64 = 250;

impl LiveMarketOrderType {
    pub open spec fn name(self) -> Seq<char> {
        match self {
            LiveMarketOrderType::Fok => "fok"@,
            LiveMarketOrderType::Fak => "fak"@,
        }
    }

    pub fn as_str(self) -> (r: &'static str)
        ensures
            r@ == self.name(),
    {
        match self {
            LiveMarketOrderType::Fok => "fok",
            LiveMarketOrderType::Fak => "fak",
        }
    }
}

/// An order as it is meant for the exchange.
#[derive(Debug, Clone)]
pub struct LiveOrderIntent {
    pub operation: OrderOperation,
    pub strategy_order_type: OrderType,
    pub clob_order_type: String,
    pub side: String,
    pub token_id: String,
    pub price: Num,
    pub amount_usd: Option<Num>,
    pub shares: Num,
    pub estimated_notional_usd: Num,
    pub post_only: bool,
    pub reason: String,
}

#[derive(Debug, Clone, Copy)]
pub struct LiveFill {
    pub amount_usd: Num,
    pub shares: Num,
    pub avg_price: Num,
}

impl Default for LiveFill {
    fn default() -> (r: Self)
        ensures
            r == (LiveFill {
                amount_usd: Num::zero(),
                shares: Num::zero(),
                avg_price: Num::zero(),
            }),
    {
        LiveFill { amount_usd: Num::zero(), shares: Num::zero(), avg_price: Num::zero() }
    }
}

#[derive(Debug, Clone)]
pub struct LiveExecutionResult {
    pub submitted: bool,
    /// Whether the strategy is told of an execution: an instant fill.
    pub executed: bool,
    pub dry_run: bool,
    pub reject_reason: String,
    pub order_id: Option<String>,
    pub status: Option<String>,
    pub trade_count: usize,
    pub transaction_count: usize,
    pub fill: Option<LiveFill>,
    pub intent: Option<LiveOrderIntent>,
    pub raw_making_amount: Option<String>,
    pub raw_taking_amount: Option<String>,
}

impl Default for LiveExecutionResult {
    fn default() -> (r: Self)
        ensures
            !r.submitted && !r.executed && !r.dry_run,
            r.reject_reason@ == Seq::<char>::empty(),
            r.order_id is None && r.status is None,
            r.trade_count == 0 && r.transaction_count == 0,
            r.fill is None && r.intent is None,
            r.raw_making_amount is None && r.raw_taking_amount is None,
    {
        LiveExecutionResult {
            submitted: false,
            executed: false,
            dry_run: false,
            reject_reason: String::new(),
            order_id: None,
            status: None,
            trade_count: 0,
            transaction_count: 0,
            fill: None,
            intent: None,
            raw_making_amount: None,
            raw_taking_amount: None,
        }
    }
}

#[derive(Debug, Clone, Copy)]
pub struct LiveWarmupStatus {
    pub balance_usd: Num,
    pub allowance_contracts: usize,
    pub relayer_configured: bool,
}

/// Latest account snapshot for terminal display (balance refreshes on window switch).
#[derive(Debug, Clone)]
pub struct LiveAccountStatus {
    pub authenticated: bool,
    pub balance_usd: Num,
    pub allowance_contracts: usize,
    pub ready_to_trade: bool,
    pub dry_run: bool,
    pub relayer_configured: bool,
    pub signer_address: String,
    pub funder_address: String,
    pub last_error: Option<String>,
    pub updated_at_ms: i64,
    pub window_number: Option<usize>,
}

impl Default for LiveAccountStatus {
    fn default() -> (r: Self)
        ensures
            !r.authenticated && !r.ready_to_trade && !r.dry_run && !r.relayer_configured,
            r.balance_usd == Num::zero(),
            r.allowance_contracts == 0,
            r.signer_address@ == Seq::<char>::empty(),
            r.funder_address@ == Seq::<char>::empty(),
            r.last_error is None,
            r.updated_at_ms == 0,
            r.window_number is None,
    {
        LiveAccountStatus {
            authenticated: false,
            balance_usd: Num::zero(),
            allowance_contracts: 0,
            ready_to_trade: false,
            dry_run: false,
            relayer_configured: false,
            signer_address: String::new(),
            funder_address: String::new(),
            last_error: None,
            updated_at_ms: 0,
            window_number: None,
        }
    }
}

pub open spec fn spec_round_price(value: Num) -> Num {
    (value * Num::uint(100)).round() / Num::uint(100)
}

/// A price to whole cents.
#[verifier::when_used_as_spec(spec_round_price)]
pub fn round_price(value: Num) -> (r: Num)
    ensures
        r == spec_round_price(value),
{
    (value * Num::uint(100)).round() / Num::uint(100)
}

pub open spec fn spec_floor_2(value: Num) -> Num {
    (value * Num::uint(100)).floor() / Num::uint(100)
}

/// An amount cut to two decimals.
#[verifier::when_used_as_spec(spec_floor_2)]
pub fn floor_2(value: Num) -> (r: Num)
    ensures
        r == spec_floor_2(value),
{
    (value * Num::uint(100)).floor() / Num::uint(100)
}

/// Why a signal cannot become a live order.
#[derive(Debug, Clone, Copy)]
pub enum LiveIntentError {
    BadPrice,
    BadAmount,
    UnknownSide,
    BuyBelowMin { amount: Num, min: Num },
    BuyNotionalBelowMin { notional: Num, min: Num, price: Num },
    SellBelowMin { notional: Num, min: Num },
    BadShares { shares: Num },
}

pub open spec fn min_notional(cfg: ExecutionConfig) -> Num {
    cfg.min_order_usd.max(Num::one())
}

/// Shares of the order that a signal becomes.
pub open spec fn order_shares(signal: OrderSignal) -> Num {
    if signal.is_buy {
        signal.amount / signal.price
    } else {
        floor_2(signal.amount)
    }
}

/// Notional of the order that a signal becomes.
pub open spec fn order_notional(signal: OrderSignal) -> Num {
    if signal.is_buy {
        signal.amount / signal.price * signal.price
    } else {
        signal.amount * signal.price
    }
}

/// The first reason against a live order: the price, the amount, the side, the smallest
/// notional, then the shares.
pub open spec fn intent_fault(cfg: ExecutionConfig, signal: OrderSignal) -> Option<LiveIntentError> {
    let min = min_notional(cfg);
    let slack = Num::ratio(1, 1_000_000_000);
    let notional = order_notional(signal);
    let shares = order_shares(signal);
    if signal.price.le(Num::zero()) || !signal.price.is_finite() {
        Some(LiveIntentError::BadPrice)
    } else if signal.amount.le(Num::zero()) || !signal.amount.is_finite() {
        Some(LiveIntentError::BadAmount)
    } else if signal.side@ != "UP"@ && signal.side@ != "DOWN"@ {
        Some(LiveIntentError::UnknownSide)
    } else if signal.is_buy && (signal.amount + slack).lt(min) {
        Some(LiveIntentError::BuyBelowMin { amount: signal.amount, min })
    } else if signal.is_buy && (notional + slack).lt(min) {
        Some(LiveIntentError::BuyNotionalBelowMin { notional, min, price: signal.price })
    } else if !signal.is_buy && (notional + slack).lt(min) {
        Some(LiveIntentError::SellBelowMin { notional, min })
    } else if shares.le(Num::zero()) || !shares.is_finite() {
        Some(LiveIntentError::BadShares { shares })
    } else {
        None
    }
}

/// Whether `i` is the order of a signal: always a market order of the configured kind, a
/// buy by its money, a sale by its shares.
pub open spec fn is_intent(
    i: LiveOrderIntent,
    cfg: ExecutionConfig,
    market: MarketWindow,
    signal: OrderSignal,
) -> bool {
    &&& i.operation == if signal.is_buy {
        OrderOperation::Buy
    } else {
        OrderOperation::Sell
    }
    &&& i.strategy_order_type == OrderType::Market
    &&& i.clob_order_type@ == cfg.market_order_type.name()
    &&& i.side@ == signal.side@
    &&& i.token_id@ == if signal.side@ == "UP"@ {
        market.tokens.up.token_id@
    } else {
        market.tokens.down.token_id@
    }
    &&& i.price == round_price(signal.price)
    &&& i.amount_usd == if signal.is_buy {
        Some(signal.amount)
    } else {
        None
    }
    &&& i.shares == order_shares(signal)
    &&& i.estimated_notional_usd == order_notional(signal)
    &&& !i.post_only
    &&& i.reason@ == signal.reason@
}

/// The token of a side; none for an unknown side.
pub fn token_id_for_side(market: &MarketWindow, side: &str) -> (r: Option<String>)
    ensures
        match r {
            Some(t) => (side@ == "UP"@ && t@ == market.tokens.up.token_id@) || (side@ == "DOWN"@
                && side@ != "UP"@ && t@ == market.tokens.down.token_id@),
            None => side@ != "UP"@ && side@ != "DOWN"@,
        },
{
    if same_text(side, "UP") {
        Some(market.tokens.up.token_id.as_str().to_owned())
    } else if same_text(side, "DOWN") {
        Some(market.tokens.down.token_id.as_str().to_owned())
    } else {
        None
    }
}

pub fn build_live_order_intent(cfg: &ExecutionConfig, market: &MarketWindow, signal: &OrderSignal) -> (r:
    Result<LiveOrderIntent, LiveIntentError>)
    ensures
        match r {
            Ok(i) => intent_fault(*cfg, *signal) is None && is_intent(i, *cfg, *market, *signal),
            Err(e) => intent_fault(*cfg, *signal) == Some(e),
        },
{
    if signal.price.le(Num::zero()) || !signal.price.is_finite() {
        return Err(LiveIntentError::BadPrice);
    }
    if signal.amount.le(Num::zero()) || !signal.amount.is_finite() {
        return Err(LiveIntentError::BadAmount);
    }
    let token_id: String = match token_id_for_side(market, signal.side.as_str()) {
        Some(t) => t,
        None => {
            return Err(LiveIntentError::UnknownSide);
        },
    };
    let min: Num = cfg.min_order_usd.max(Num::one());
    let slack: Num = Num::ratio(1, 1_000_000_000);
    let (amount_usd, shares, notional): (Option<Num>, Num, Num) = if signal.is_buy {
        if (signal.amount + slack).lt(min) {
            return Err(LiveIntentError::BuyBelowMin { amount: signal.amount, min });
        }
        let shares: Num = signal.amount / signal.price;
        let notional: Num = shares * signal.price;
        if (notional + slack).lt(min) {
            return Err(
                LiveIntentError::BuyNotionalBelowMin { notional, min, price: signal.price },
            );
        }
        (Some(signal.amount), shares, notional)
    } else {
        let notional: Num = signal.amount * signal.price;
        if (notional + slack).lt(min) {
            return Err(LiveIntentError::SellBelowMin { notional, min });
        }
        (None, floor_2(signal.amount), notional)
    };
    if shares.le(Num::zero()) || !shares.is_finite() {
        return Err(LiveIntentError::BadShares { shares });
    }
    Ok(
        LiveOrderIntent {
            operation: signal.operation(),
            strategy_order_type: OrderType::Market,
            clob_order_type: cfg.market_order_type.as_str().to_owned(),
            side: signal.side.as_str().to_owned(),
            token_id,
            price: round_price(signal.price),
            amount_usd,
            shares,
            estimated_notional_usd: notional,
            post_only: false,
            reason: signal.reason.as_str().to_owned(),
        },
    )
}

impl LiveIntentError {
    /// The error's words. `shown` is the price or amount of the signal, as the shell
    /// writes it.
    pub open spec fn words(self, side: Seq<char>, shown: Seq<char>) -> Seq<char> {
        match self {
            LiveIntentError::BadPrice => "bad live signal price "@ + shown,
            LiveIntentError::BadAmount => "bad live signal amount "@ + shown,
            LiveIntentError::UnknownSide => "unknown live signal side "@ + side,
            LiveIntentError::BuyBelowMin { amount, min } => "live buy below min notional: "@
                + fixed_of(amount, 4) + " < "@ + fixed_of(min, 4),
            LiveIntentError::BuyNotionalBelowMin { notional, min, price } => "live buy notional "@
                + fixed_of(notional, 4) + " below min "@ + fixed_of(min, 4) + " at price "@
                + fixed_of(price, 4),
            LiveIntentError::SellBelowMin { notional, min } => "live sell below min notional: "@
                + fixed_of(notional, 4) + " < "@ + fixed_of(min, 4),
            LiveIntentError::BadShares { shares } => "live order shares are invalid: "@ + fixed_of(
                shares,
                8,
            ),
        }
    }

    pub fn message(&self, side: &str, shown: &str) -> (r: String)
        ensures
            r@ == self.words(side@, shown@),
    {
        match *self {
            LiveIntentError::BadPrice => joined("bad live signal price ", shown),
            LiveIntentError::BadAmount => joined("bad live signal amount ", shown),
            LiveIntentError::UnknownSide => joined("unknown live signal side ", side),
            LiveIntentError::BuyBelowMin { amount, min } => {
                let mut out: String = String::from_str("live buy below min notional: ");
                out.append(fixed(amount, 4).as_str());
                out.append(" < ");
                out.append(fixed(min, 4).as_str());
                out
            },
            LiveIntentError::BuyNotionalBelowMin { notional, min, price } => {
                let mut out: String = String::from_str("live buy notional ");
                out.append(fixed(notional, 4).as_str());
                out.append(" below min ");
                out.append(fixed(min, 4).as_str());
                out.append(" at price ");
                out.append(fixed(price, 4).as_str());
                out
            },
            LiveIntentError::SellBelowMin { notional, min } => {
                let mut out: String = String::from_str("live sell below min notional: ");
                out.append(fixed(notional, 4).as_str());
                out.append(" < ");
                out.append(fixed(min, 4).as_str());
                out
            },
            LiveIntentError::BadShares { shares } => {
                joined("live order shares are invalid: ", fixed(shares, 8).as_str())
            },
        }
    }
}

/// A live order's notional is never below the smallest one, and its shares are positive.
pub proof fn law_intent_is_sendable(
    cfg: ExecutionConfig,
    market: MarketWindow,
    signal: OrderSignal,
    i: LiveOrderIntent,
)
    requires
        intent_fault(cfg, signal) is None,
        is_intent(i, cfg, market, signal),
    ensures
        !(i.estimated_notional_usd + Num::ratio(1, 1_000_000_000)).lt(min_notional(cfg)),
        i.shares.is_finite(),
        i.shares.gt(Num::zero()),
        i.strategy_order_type == OrderType::Market,
        !i.post_only,
{
}

/// What the exchange answered to an order, amounts as text.
#[derive(Debug)]
pub struct PostedOrder {
    pub success: bool,
    pub matched: bool,
    pub status: String,
    pub error_msg: Option<String>,
    pub order_id: String,
    pub trade_count: usize,
    pub transaction_count: usize,
    pub making_amount: String,
    pub taking_amount: String,
}

pub open spec fn spec_positive(value: Num) -> Option<Num> {
    if value.is_finite() && value.gt(Num::zero()) {
        Some(value)
    } else {
        None
    }
}

/// The value where it is a positive number.
#[verifier::when_used_as_spec(spec_positive)]
pub fn positive(value: Num) -> (r: Option<Num>)
    ensures
        r == spec_positive(value),
{
    if value.is_finite() && value.gt(Num::zero()) {
        Some(value)
    } else {
        None
    }
}

pub open spec fn spec_normalize_clob_amount(raw: Option<Num>) -> Option<Num> {
    match raw {
        Some(v) => if !v.is_finite() || v.le(Num::zero()) {
            None
        } else if v.gt(Num::uint(100_000)) {
            Some(v / Num::uint(1_000_000))
        } else {
            Some(v)
        },
        None => None,
    }
}

/// A positive amount, taken for millionths where it is above 100,000.
#[verifier::when_used_as_spec(spec_normalize_clob_amount)]
pub fn normalize_clob_amount(raw: Option<Num>) -> (r: Option<Num>)
    ensures
        r == spec_normalize_clob_amount(raw),
{
    match raw {
        Some(v) => if !v.is_finite() || v.le(Num::zero()) {
            None
        } else if v.gt(Num::uint(100_000)) {
            Some(v / Num::uint(1_000_000))
        } else {
            Some(v)
        },
        None => None,
    }
}

pub open spec fn spec_plausible_fill_amount(value: Num, expected: Num) -> bool {
    value.is_finite() && value.gt(Num::zero()) && (expected.le(Num::zero()) || value.le(
        expected * Num::uint(5) + Num::uint(5),
    ))
}

/// Whether a fill is in the range of what was ordered.
#[verifier::when_used_as_spec(spec_plausible_fill_amount)]
pub fn plausible_fill_amount(value: Num, expected: Num) -> (r: bool)
    ensures
        r == spec_plausible_fill_amount(value, expected),
{
    if expected.le(Num::zero()) {
        return value.is_finite() && value.gt(Num::zero());
    }
    value.is_finite() && value.gt(Num::zero()) && value.le(
        expected * Num::uint(5) + Num::uint(5),
    )
}

/// A reported amount where it is plausible, else the fallback.
pub open spec fn amount_or(raw: Option<Num>, expected: Num, fallback: Num) -> Option<Num> {
    match normalize_clob_amount(raw) {
        Some(v) => if plausible_fill_amount(v, expected) {
            Some(v)
        } else {
            positive(fallback)
        },
        None => positive(fallback),
    }
}

fn amount_or_fallback(raw: Option<Num>, expected: Num, fallback: Num) -> (r: Option<Num>)
    ensures
        r == amount_or(raw, expected, fallback),
{
    match normalize_clob_amount(raw) {
        Some(v) => if plausible_fill_amount(v, expected) {
            Some(v)
        } else {
            positive(fallback)
        },
        None => positive(fallback),
    }
}

/// Shares of a filled buy: the reported ones where plausible; without a report the
/// ordered ones where plausible; else what the money buys at the order's price.
pub open spec fn bought_shares(raw: Option<Num>, expected: Num, usd: Num, price: Num) -> Option<Num> {
    let first = match normalize_clob_amount(raw) {
        Some(v) => Some(v),
        None => positive(expected),
    };
    match first {
        Some(v) => if plausible_fill_amount(v, expected) {
            Some(v)
        } else {
            positive(usd / price.max(Num::ratio(1, 1_000_000_000)))
        },
        None => positive(usd / price.max(Num::ratio(1, 1_000_000_000))),
    }
}

/// Money of a filled buy: the reported one where plausible, else the ordered one.
pub open spec fn bought_usd(raw: Option<Num>, expected: Num) -> Option<Num> {
    let first = match normalize_clob_amount(raw) {
        Some(v) => Some(v),
        None => positive(expected),
    };
    match first {
        Some(v) => if plausible_fill_amount(v, expected) {
            Some(v)
        } else {
            positive(expected)
        },
        None => positive(expected),
    }
}

pub open spec fn expected_usd(intent: LiveOrderIntent) -> Num {
    (match intent.amount_usd {
        Some(a) => a,
        None => intent.estimated_notional_usd,
    }).max(Num::zero())
}

/// A fill of money and shares, where its average price is a positive number.
pub open spec fn fill_with(usd: Option<Num>, shares: Option<Num>) -> Option<LiveFill> {
    match (usd, shares) {
        (Some(u), Some(s)) => {
            let avg = u / s;
            if !avg.is_finite() || avg.le(Num::zero()) {
                None
            } else {
                Some(LiveFill { amount_usd: u, shares: s, avg_price: avg })
            }
        },
        _ => None,
    }
}

/// The fill that an answer reports; none unless it succeeded and matched.
pub open spec fn fill_of(intent: LiveOrderIntent, resp: PostedOrder) -> Option<LiveFill> {
    let making = num_of_text(resp.making_amount@);
    let taking = num_of_text(resp.taking_amount@);
    let usd = expected_usd(intent);
    let shares = intent.shares.max(Num::zero());
    if !resp.success || !resp.matched {
        None
    } else if intent.operation == OrderOperation::Buy {
        match bought_usd(making, usd) {
            Some(u) => fill_with(Some(u), bought_shares(taking, shares, u, intent.price)),
            None => None,
        }
    } else {
        fill_with(amount_or(taking, usd, usd), amount_or(making, shares, shares))
    }
}

pub fn matched_response_fill(intent: &LiveOrderIntent, response: &PostedOrder) -> (r: Option<LiveFill>)
    ensures
        r == fill_of(*intent, *response),
{
    if !response.success || !response.matched {
        return None;
    }
    let raw_making: Option<Num> = parse_num(response.making_amount.as_str());
    let raw_taking: Option<Num> = parse_num(response.taking_amount.as_str());
    let expected: Num = (match intent.amount_usd {
        Some(a) => a,
        None => intent.estimated_notional_usd,
    }).max(Num::zero());
    let expected_shares: Num = intent.shares.max(Num::zero());
    let (amount_usd, shares): (Num, Num) = match intent.operation {
        OrderOperation::Buy => {
            let first: Option<Num> = match normalize_clob_amount(raw_making) {
                Some(v) => Some(v),
                None => positive(expected),
            };
            let usd: Option<Num> = match first {
                Some(v) => if plausible_fill_amount(v, expected) {
                    Some(v)
                } else {
                    positive(expected)
                },
                None => positive(expected),
            };
            let usd: Num = match usd {
                Some(u) => u,
                None => {
                    return None;
                },
            };
            let fallback: Num = usd / intent.price.max(Num::ratio(1, 1_000_000_000));
            let first: Option<Num> = match normalize_clob_amount(raw_taking) {
                Some(v) => Some(v),
                None => positive(expected_shares),
            };
            let shares: Option<Num> = match first {
                Some(v) => if plausible_fill_amount(v, expected_shares) {
                    Some(v)
                } else {
                    positive(fallback)
                },
                None => positive(fallback),
            };
            match shares {
                Some(s) => (usd, s),
                None => {
                    return None;
                },
            }
        },
        OrderOperation::Sell => {
            let usd: Num = match amount_or_fallback(raw_taking, expected, expected) {
                Some(u) => u,
                None => {
                    return None;
                },
            };
            let shares: Num = match amount_or_fallback(
                raw_making,
                expected_shares,
                expected_shares,
            ) {
                Some(s) => s,
                None => {
                    return None;
                },
            };
            (usd, shares)
        },
    };
    let avg_price: Num = amount_usd / shares;
    if !avg_price.is_finite() || avg_price.le(Num::zero()) {
        return None;
    }
    Some(LiveFill { amount_usd, shares, avg_price })
}

pub open spec fn spec_order_accepted(success: bool, matched: bool, filled: bool) -> bool {
    matched || (success && filled)
}

/// Whether an answer counts as accepted: it matched, or rarely it succeeded with a fill.
#[verifier::when_used_as_spec(spec_order_accepted)]
pub fn order_accepted(success: bool, matched: bool, filled: bool) -> (r: bool)
    ensures
        r == spec_order_accepted(success, matched, filled),
{
    if matched {
        return true;
    }
    success && filled
}

/// Tries that an order gets: more than one only where it must fill whole or not at all.
pub open spec fn tries_of(intent: LiveOrderIntent) -> usize {
    if ascii_lower_text(intent.clob_order_type@) == ascii_lower_text("fok"@) {
        LIVE_FOK_RETRY_ATTEMPTS
    } else {
        1
    }
}

pub fn live_fok_retry_attempts(intent: &LiveOrderIntent) -> (r: usize)
    ensures
        r == tries_of(*intent),
{
    if same_but_case(intent.clob_order_type.as_str(), "fok") {
        LIVE_FOK_RETRY_ATTEMPTS
    } else {
        1
    }
}

/// Whether a rejection is one of an order that found too little in the book.
pub open spec fn is_fok_reject(reason: Seq<char>) -> bool {
    let lower = ascii_lower_text(reason);
    has_part(lower, "fok"@) && (has_part(lower, "couldn't be fully filled"@) || has_part(
        lower,
        "fully filled or killed"@,
    ) || has_part(lower, "full size not available"@))
}

pub fn should_retry_fok_reject(reason: &str) -> (r: bool)
    ensures
        r == is_fok_reject(reason@),
{
    let lower: String = to_ascii_lower(reason);
    let l: &str = lower.as_str();
    contains(l, "fok") && (contains(l, "couldn't be fully filled") || contains(
        l,
        "fully filled or killed",
    ) || contains(l, "full size not available"))
}

/// `attempts=2/3` behind a bar.
pub open spec fn tries_note(attempt: usize, max_attempts: usize) -> Seq<char> {
    " | attempts="@ + dec_text(attempt as int) + "/"@ + dec_text(max_attempts as int)
}

fn tries_text(attempt: usize, max_attempts: usize) -> (r: String)
    ensures
        r@ == tries_note(attempt, max_attempts),
{
    let mut out: String = String::from_str(" | attempts=");
    out.append(uint_text(attempt as u64).as_str());
    out.append("/");
    out.append(uint_text(max_attempts as u64).as_str());
    out
}

/// How a live order starts.
pub enum LiveStart {
    /// Not sent: too old, or not a sendable order.
    Rejected(String),
    /// Planned only.
    Planned(LiveExecutionResult),
    /// To be sent, up to the given number of tries.
    Send(LiveOrderIntent, usize),
}

/// Whether an order is too old to send.
pub open spec fn is_stale(cfg: ExecutionConfig, age_ms: int) -> bool {
    cfg.max_order_age_ms > 0 && age_ms > cfg.max_order_age_ms
}

pub open spec fn stale_words(cfg: ExecutionConfig, age_ms: int) -> Seq<char> {
    "live order stale before submit: age_ms="@ + int_text_of(age_ms) + " max_order_age_ms="@
        + int_text_of(cfg.max_order_age_ms as int)
}

/// `a - b` held within the machine's range.
pub open spec fn sat_sub(a: i64, b: i64) -> int {
    if a - b > i64::MAX {
        i64::MAX as int
    } else if a - b < i64::MIN {
        i64::MIN as int
    } else {
        a - b
    }
}

/// `a - b` held within the machine's range.
pub fn saturating_sub(a: i64, b: i64) -> (r: i64)
    ensures
        r == sat_sub(a, b),
{
    let d: i128 = a as i128 - b as i128;
    if d > i64::MAX as i128 {
        i64::MAX
    } else if d < i64::MIN as i128 {
        i64::MIN
    } else {
        d as i64
    }
}

/// Decides how a live order starts. `shown` is the price or amount of the signal as the
/// shell writes it, for the words of a refusal.
pub fn start_live_order(
    cfg: &ExecutionConfig,
    market: &MarketWindow,
    signal: &OrderSignal,
    created_at_ms: i64,
    now_ms: i64,
    shown_price: &str,
    shown_amount: &str,
) -> (r: LiveStart)
    ensures
        ({
            let age = sat_sub(now_ms, created_at_ms);
            match r {
                LiveStart::Rejected(words) => if is_stale(*cfg, age) {
                    words@ == stale_words(*cfg, age)
                } else {
                    intent_fault(*cfg, *signal) matches Some(e) && words@ == e.words(
                        signal.side@,
                        if e is BadPrice {
                            shown_price@
                        } else {
                            shown_amount@
                        },
                    )
                },
                LiveStart::Planned(p) => {
                    &&& !is_stale(*cfg, age)
                    &&& cfg.dry_run
                    &&& p.dry_run && !p.executed && !p.submitted
                    &&& p.reject_reason@ == "live dry-run: order was planned but not submitted"@
                    &&& p.intent is Some && is_intent(p.intent->0, *cfg, *market, *signal)
                    &&& p.fill is None && p.order_id is None && p.status is None
                    &&& p.raw_making_amount is None && p.raw_taking_amount is None
                    &&& p.trade_count == 0 && p.transaction_count == 0
                    &&& intent_fault(*cfg, *signal) is None
                },
                LiveStart::Send(intent, tries) => {
                    &&& !is_stale(*cfg, age)
                    &&& !cfg.dry_run
                    &&& intent_fault(*cfg, *signal) is None
                    &&& is_intent(intent, *cfg, *market, *signal)
                    &&& tries == tries_of(intent)
                },
            }
        }),
{
    let age_ms: i64 = saturating_sub(now_ms, created_at_ms);
    if cfg.max_order_age_ms > 0 && age_ms > cfg.max_order_age_ms {
        let mut out: String = String::from_str("live order stale before submit: age_ms=");
        out.append(int_text(age_ms).as_str());
        out.append(" max_order_age_ms=");
        out.append(int_text(cfg.max_order_age_ms).as_str());
        return LiveStart::Rejected(out);
    }
    let intent: LiveOrderIntent = match build_live_order_intent(cfg, market, signal) {
        Ok(i) => i,
        Err(e) => {
            let shown: &str = match e {
                LiveIntentError::BadPrice => shown_price,
                _ => shown_amount,
            };
            return LiveStart::Rejected(e.message(signal.side.as_str(), shown));
        },
    };
    if cfg.dry_run {
        return LiveStart::Planned(
            LiveExecutionResult {
                submitted: false,
                executed: false,
                dry_run: true,
                reject_reason: "live dry-run: order was planned but not submitted".to_owned(),
                order_id: None,
                status: None,
                trade_count: 0,
                transaction_count: 0,
                fill: None,
                intent: Some(intent),
                raw_making_amount: None,
                raw_taking_amount: None,
            },
        );
    }
    let tries: usize = live_fok_retry_attempts(&intent);
    LiveStart::Send(intent, tries)
}

/// What follows a try that failed before the exchange answered.
pub enum AfterFailure {
    Retry,
    GiveUp(String),
}

/// Retries a fill-or-kill rejection while tries are left, else gives up with the words
/// and the tries.
pub fn after_failed_post(reject_reason: &str, attempt: usize, max_attempts: usize) -> (r: AfterFailure)
    ensures
        match r {
            AfterFailure::Retry => attempt < max_attempts && is_fok_reject(reject_reason@),
            AfterFailure::GiveUp(words) => !(attempt < max_attempts && is_fok_reject(
                reject_reason@,
            )) && words@ == reject_reason@ + tries_note(attempt, max_attempts),
        },
{
    if attempt < max_attempts && should_retry_fok_reject(reject_reason) {
        return AfterFailure::Retry;
    }
    AfterFailure::GiveUp(joined(reject_reason, tries_text(attempt, max_attempts).as_str()))
}

/// What follows an answer of the exchange.
pub enum AfterAnswer {
    Retry,
    Done(LiveExecutionResult),
}

/// Whether an order was executed by an answer.
pub open spec fn executes(intent: LiveOrderIntent, resp: PostedOrder) -> bool {
    resp.success && order_accepted(resp.success, resp.matched, fill_of(intent, resp) is Some)
}

/// Why an order was not executed: the exchange's words, or the status.
pub open spec fn refusal(intent: LiveOrderIntent, resp: PostedOrder) -> Seq<char> {
    if executes(intent, resp) {
        Seq::<char>::empty()
    } else {
        match resp.error_msg {
            Some(e) => e@,
            None => "live order rejected status="@ + resp.status@,
        }
    }
}

/// Turns an answer into the result, or into another try where a fill-or-kill order found
/// too little and tries are left.
pub fn after_answer(
    intent: LiveOrderIntent,
    response: PostedOrder,
    attempt: usize,
    max_attempts: usize,
) -> (r: AfterAnswer)
    ensures
        ({
            let again = !executes(intent, response) && attempt < max_attempts && is_fok_reject(
                refusal(intent, response),
            );
            match r {
                AfterAnswer::Retry => again,
                AfterAnswer::Done(d) => {
                    &&& !again
                    &&& d.submitted == response.success
                    &&& d.executed == executes(intent, response)
                    &&& !d.dry_run
                    &&& d.reject_reason@ == if refusal(intent, response).len() > 0 && attempt > 1 {
                        refusal(intent, response) + tries_note(attempt, max_attempts)
                    } else {
                        refusal(intent, response)
                    }
                    &&& d.order_id == Some(response.order_id)
                    &&& d.status == Some(response.status)
                    &&& d.trade_count == response.trade_count
                    &&& d.transaction_count == response.transaction_count
                    &&& d.fill == fill_of(intent, response)
                    &&& d.intent == Some(intent)
                    &&& d.raw_making_amount == Some(response.making_amount)
                    &&& d.raw_taking_amount == Some(response.taking_amount)
                },
            }
        }),
{
    let fill: Option<LiveFill> = matched_response_fill(&intent, &response);
    let executed: bool = response.success && order_accepted(
        response.success,
        response.matched,
        fill.is_some(),
    );
    let mut reject_reason: String = if executed {
        String::new()
    } else {
        match &response.error_msg {
            Some(e) => e.as_str().to_owned(),
            None => joined("live order rejected status=", response.status.as_str()),
        }
    };
    if !executed && attempt < max_attempts && should_retry_fok_reject(reject_reason.as_str()) {
        return AfterAnswer::Retry;
    }
    if reject_reason.as_str().unicode_len() > 0 && attempt > 1 {
        reject_reason.append(tries_text(attempt, max_attempts).as_str());
    }
    AfterAnswer::Done(
        LiveExecutionResult {
            submitted: response.success,
            executed,
            dry_run: false,
            reject_reason,
            order_id: Some(response.order_id),
            status: Some(response.status),
            trade_count: response.trade_count,
            transaction_count: response.transaction_count,
            fill,
            intent: Some(intent),
            raw_making_amount: Some(response.making_amount),
            raw_taking_amount: Some(response.taking_amount),
        },
    )
}

/// The last try never asks for another one, and an order that need not fill whole is tried
/// once.
pub proof fn law_tries_are_bounded(intent: LiveOrderIntent, resp: PostedOrder, attempt: usize)
    requires
        attempt >= tries_of(intent),
    ensures
        !(!executes(intent, resp) && attempt < tries_of(intent) && is_fok_reject(
            refusal(intent, resp),
        )),
        1 <= tries_of(intent) <= 3,
{
}

/// An executed order has no refusal, and only a successful answer executes.
pub proof fn law_executed_means_success(intent: LiveOrderIntent, resp: PostedOrder)
    ensures
        executes(intent, resp) ==> resp.success && refusal(intent, resp) == Seq::<char>::empty(),
        fill_of(intent, resp) is Some ==> executes(intent, resp),
{
}

/// A rejection in few words: the known ones by name, others on one line and cut.
pub open spec fn short_reason(reason: Seq<char>) -> Seq<char> {
    let line = replaced(reason, '\n', ' ');
    if has_part(reason, "FOK orders are fully filled"@) {
        "FOK kill — full size not available at CLOB book"@
    } else if has_part(reason, "signer address has to be the address of the API KEY"@) {
        "CLOB auth: API key / owner mismatch"@
    } else if text_bytes(line) > 120 {
        byte_prefix(line, 120) + "…"@
    } else {
        line
    }
}

pub fn short_live_reject_reason(reason: &str) -> (r: String)
    ensures
        r@ == short_reason(reason@),
{
    if contains(reason, "FOK orders are fully filled") {
        return String::from_str("FOK kill — full size not available at CLOB book");
    }
    if contains(reason, "signer address has to be the address of the API KEY") {
        return String::from_str("CLOB auth: API key / owner mismatch");
    }
    let one_line: String = replace_char(reason, '\n', ' ');
    let (head, all): (String, bool) = cut_bytes(one_line.as_str(), 120);
    if all {
        one_line
    } else {
        head.concat("…")
    }
}

pub open spec fn operation_name(is_buy: bool) -> Seq<char> {
    if is_buy {
        "BUY"@
    } else {
        "SELL"@
    }
}

/// An order id, its middle left out where it is long.
pub open spec fn short_id(id: Option<String>) -> Seq<char> {
    match id {
        Some(t) => if text_bytes(t@) > 14 {
            byte_prefix(t@, 8) + "…"@ + byte_suffix(t@, 4)
        } else {
            t@
        },
        None => "?"@,
    }
}

fn short_order_id(id: &Option<String>) -> (r: String)
    ensures
        r@ == short_id(*id),
{
    match id {
        Some(t) => {
            let (_, fits): (String, bool) = cut_bytes(t.as_str(), 14);
            if fits {
                t.as_str().to_owned()
            } else {
                let (head, _): (String, bool) = cut_bytes(t.as_str(), 8);
                head.concat("…").concat(tail_bytes(t.as_str(), 4).as_str())
            }
        },
        None => String::from_str("?"),
    }
}

/// Money, shares and price that an executed order is shown with: those of its fill, else
/// of its intent, else of the signal.
pub open spec fn shown_fill(sig: OrderSignal, result: LiveExecutionResult) -> (Num, Num, Num) {
    match result.fill {
        Some(f) => (f.amount_usd, f.shares, f.avg_price),
        None => match result.intent {
            Some(i) => (
                (match i.amount_usd {
                    Some(a) => a,
                    None => i.estimated_notional_usd,
                }).min(sig.amount),
                i.shares,
                sig.price,
            ),
            None => (
                sig.amount,
                sig.amount / sig.price.max(Num::ratio(1, 1_000_000_000)),
                sig.price,
            ),
        },
    }
}

/// The start of an event's line.
pub open spec fn event_head(tag: Seq<char>, window_number: usize, sig: OrderSignal) -> Seq<char> {
    tag + dec_text(window_number as int) + " "@ + operation_name(sig.is_buy) + " "@ + sig.side@
        + " $"@
}

/// The line of a live event in the terminal; none where there is nothing to tell.
pub open spec fn terminal_event(
    window_number: usize,
    sig: OrderSignal,
    result: LiveExecutionResult,
) -> Option<Seq<char>> {
    if result.dry_run {
        if !result.executed && result.reject_reason@.len() > 0 {
            Some(
                event_head("[LIVE DRY-RUN REJECT] W#"@, window_number, sig) + fixed_of(sig.amount, 2)
                    + " @ "@ + fixed_of(sig.price, 4) + " — "@ + short_reason(
                    result.reject_reason@,
                ),
            )
        } else {
            Some(
                event_head("[LIVE DRY-RUN] W#"@, window_number, sig) + fixed_of(sig.amount, 2)
                    + " @ "@ + fixed_of(sig.price, 4) + " — not sent to CLOB"@,
            )
        }
    } else if result.executed {
        let (usd, shares, price) = shown_fill(sig, result);
        Some(
            event_head("[LIVE FILL] W#"@, window_number, sig) + fixed_of(usd, 2) + " @ "@ + fixed_of(
                price,
                4,
            ) + " = "@ + fixed_of(shares, 4) + " sh | id "@ + short_id(result.order_id),
        )
    } else if result.reject_reason@.len() > 0 {
        Some(
            event_head("[LIVE REJECT] W#"@, window_number, sig) + fixed_of(sig.amount, 2) + " — "@
                + short_reason(result.reject_reason@),
        )
    } else {
        None
    }
}

fn event_start(tag: &str, window_number: usize, sig: &OrderSignal) -> (r: String)
    ensures
        r@ == event_head(tag@, window_number, *sig),
{
    let mut out: String = String::from_str(tag);
    out.append(uint_text(window_number as u64).as_str());
    out.append(" ");
    out.append(
        if sig.is_buy {
            "BUY"
        } else {
            "SELL"
        },
    );
    out.append(" ");
    out.append(sig.side.as_str());
    out.append(" $");
    out
}

/// Human-readable line for stderr + dashboard SYSTEM EVENT LOG (survives screen clear).
pub fn format_live_terminal_event(
    window_number: usize,
    sig: &OrderSignal,
    result: &LiveExecutionResult,
) -> (r: Option<String>)
    ensures
        match (r, terminal_event(window_number, *sig, *result)) {
            (Some(a), Some(b)) => a@ == b,
            (None, None) => true,
            _ => false,
        },
{
    let has_reason: bool = result.reject_reason.as_str().unicode_len() > 0;
    if result.dry_run {
        if !result.executed && has_reason {
            let mut out: String = event_start("[LIVE DRY-RUN REJECT] W#", window_number, sig);
            out.append(fixed(sig.amount, 2).as_str());
            out.append(" @ ");
            out.append(fixed(sig.price, 4).as_str());
            out.append(" — ");
            out.append(short_live_reject_reason(result.reject_reason.as_str()).as_str());
            return Some(out);
        }
        let mut out: String = event_start("[LIVE DRY-RUN] W#", window_number, sig);
        out.append(fixed(sig.amount, 2).as_str());
        out.append(" @ ");
        out.append(fixed(sig.price, 4).as_str());
        out.append(" — not sent to CLOB");
        return Some(out);
    }
    if result.executed {
        let (usd, shares, avg_px): (Num, Num, Num) = match &result.fill {
            Some(fill) => (fill.amount_usd, fill.shares, fill.avg_price),
            None => match &result.intent {
                Some(intent) => {
                    let usd: Num = (match intent.amount_usd {
                        Some(a) => a,
                        None => intent.estimated_notional_usd,
                    }).min(sig.amount);
                    (usd, intent.shares, sig.price)
                },
                None => (
                    sig.amount,
                    sig.amount / sig.price.max(Num::ratio(1, 1_000_000_000)),
                    sig.price,
                ),
            },
        };
        let mut out: String = event_start("[LIVE FILL] W#", window_number, sig);
        out.append(fixed(usd, 2).as_str());
        out.append(" @ ");
        out.append(fixed(avg_px, 4).as_str());
        out.append(" = ");
        out.append(fixed(shares, 4).as_str());
        out.append(" sh | id ");
        out.append(short_order_id(&result.order_id).as_str());
        return Some(out);
    }
    if has_reason {
        let mut out: String = event_start("[LIVE REJECT] W#", window_number, sig);
        out.append(fixed(sig.amount, 2).as_str());
        out.append(" — ");
        out.append(short_live_reject_reason(result.reject_reason.as_str()).as_str());
        return Some(out);
    }
    None
}

/// Money, shares, price that a result books, and whether they come from a fill; none where
/// it books nothing.
pub open spec fn booking(sig: OrderSignal, result: LiveExecutionResult) -> Option<
    (Num, Num, Num, bool),
> {
    match result.fill {
        Some(f) => Some((f.amount_usd, f.shares, f.avg_price, true)),
        None => match result.intent {
            Some(i) => if result.executed {
                Some(
                    (
                        if sig.is_buy {
                            (match i.amount_usd {
                                Some(a) => a,
                                None => i.estimated_notional_usd,
                            }).min(sig.amount)
                        } else {
                            i.shares * sig.price
                        },
                        i.shares,
                        sig.price,
                        false,
                    ),
                )
            } else {
                None
            },
            None => None,
        },
    }
}

/// Words of a refused booking.
pub open spec fn ledger_words(is_buy: bool, from_fill: bool) -> Seq<char> {
    if is_buy && from_fill {
        "live ledger buy rejected"@
    } else if is_buy {
        "live ledger buy fallback rejected"@
    } else if from_fill {
        "live ledger sell rejected"@
    } else {
        "live ledger sell fallback rejected"@
    }
}

/// Books a live result: its fill, or without one the planned order where it was executed.
pub fn apply_live_result_to_portfolio(
    port: &mut Portfolio,
    window_number: usize,
    sig: &OrderSignal,
    result: &LiveExecutionResult,
) -> (r: Result<(), &'static str>)
    ensures
        match booking(*sig, *result) {
            None => r is Ok && *final(port) == *old(port),
            Some((usd, shares, price, from_fill)) => if old(port).can_record(
                window_number,
                sig.side@,
                usd,
                shares,
            ) {
                &&& r is Ok
                &&& sig.is_buy ==> old(port).bought(
                    *final(port),
                    window_number,
                    sig.side@,
                    usd,
                    shares,
                    price,
                    sig.reason@,
                )
                &&& !sig.is_buy ==> old(port).sold(
                    *final(port),
                    window_number,
                    sig.side@,
                    shares,
                    usd,
                    price,
                    sig.reason@,
                )
            } else {
                r matches Err(words) && words@ == ledger_words(sig.is_buy, from_fill)
                    && *final(port) == *old(port)
            },
        },
{
    let (usd, shares, price, from_fill): (Num, Num, Num, bool) = match &result.fill {
        Some(f) => (f.amount_usd, f.shares, f.avg_price, true),
        None => match &result.intent {
            Some(i) => {
                if !result.executed {
                    return Ok(());
                }
                let usd: Num = if sig.is_buy {
                    (match i.amount_usd {
                        Some(a) => a,
                        None => i.estimated_notional_usd,
                    }).min(sig.amount)
                } else {
                    i.shares * sig.price
                };
                (usd, i.shares, sig.price, false)
            },
            None => {
                return Ok(());
            },
        },
    };
    match sig.operation() {
        OrderOperation::Buy => {
            if port.record_external_buy(
                window_number,
                sig.side.as_str(),
                usd,
                shares,
                price,
                sig.reason.as_str(),
            ) {
                Ok(())
            } else if from_fill {
                Err("live ledger buy rejected")
            } else {
                Err("live ledger buy fallback rejected")
            }
        },
        OrderOperation::Sell => {
            if port.record_external_sell(
                window_number,
                sig.side.as_str(),
                shares,
                usd,
                price,
                sig.reason.as_str(),
            ) {
                Ok(())
            } else if from_fill {
                Err("live ledger sell rejected")
            } else {
                Err("live ledger sell fallback rejected")
            }
        },
    }
}

/// A live order that was not executed and has no fill changes no books.
pub proof fn law_unexecuted_books_nothing(sig: OrderSignal, result: LiveExecutionResult)
    requires
        !result.executed,
        result.fill is None,
    ensures
        booking(sig, result) is None,
{
}

/// The settings of the live account, later entries over earlier ones.
#[derive(Debug, Clone)]
pub struct LiveSecrets {
    pub values: Vec<(String, String)>,
}

pub open spec fn settings(entries: Seq<(String, String)>) -> Map<Seq<char>, Seq<char>>
    decreases entries.len(),
{
    if entries.len() == 0 {
        Map::<Seq<char>, Seq<char>>::empty()
    } else {
        settings(entries.drop_last()).insert(entries.last().0@, entries.last().1@)
    }
}

impl View for LiveSecrets {
    type V = Map<Seq<char>, Seq<char>>;

    open spec fn view(&self) -> Map<Seq<char>, Seq<char>> {
        settings(self.values@)
    }
}

impl Default for LiveSecrets {
    fn default() -> (r: Self)
        ensures
            r@ == Map::<Seq<char>, Seq<char>>::empty(),
    {
        LiveSecrets { values: Vec::new() }
    }
}

/// The text without white space and quotes around it.
pub open spec fn clean_value(s: Seq<char>) -> Seq<char> {
    stripped(stripped(trimmed(s), '"'), '\'')
}

pub fn clean_env_value(value: &str) -> (r: String)
    ensures
        r@ == clean_value(value@),
{
    strip_char(strip_char(trim_text(value).as_str(), '"').as_str(), '\'')
}

/// A private key with its `0x`.
pub open spec fn key_text(s: Seq<char>) -> Seq<char> {
    let t = clean_value(s);
    if has_prefix(t, "0x"@) || has_prefix(t, "0X"@) {
        t
    } else {
        "0x"@ + t
    }
}

pub fn normalize_private_key(value: &str) -> (r: String)
    ensures
        r@ == key_text(value@),
{
    let t: String = clean_env_value(value);
    if starts_with(t.as_str(), "0x") || starts_with(t.as_str(), "0X") {
        t
    } else {
        joined("0x", t.as_str())
    }
}

/// A normalized private key starts with its prefix.
pub proof fn law_key_has_prefix(s: Seq<char>)
    ensures
        has_prefix(key_text(s), "0x"@) || has_prefix(key_text(s), "0X"@),
{
    let t = clean_value(s);
    assert(("0x"@ + t).take("0x"@.len() as int) =~= "0x"@);
}

/// The setting of one line: none for a blank line, a comment or a line without `=`.
pub open spec fn setting_of(line: Seq<char>) -> Option<(Seq<char>, Seq<char>)> {
    let t = trimmed(line);
    let i = first_place(t, '=') as int;
    if t.len() == 0 || t[0] == '#' || i >= t.len() {
        None
    } else {
        Some((trimmed(t.take(i)), clean_value(t.skip(i + 1))))
    }
}

/// The settings of lines, later ones over earlier ones.
pub open spec fn settings_of(lines: Seq<Seq<char>>) -> Map<Seq<char>, Seq<char>>
    decreases lines.len(),
{
    if lines.len() == 0 {
        Map::<Seq<char>, Seq<char>>::empty()
    } else {
        let rest = settings_of(lines.drop_last());
        match setting_of(lines.last()) {
            Some((k, v)) => rest.insert(k, v),
            None => rest,
        }
    }
}

fn parse_setting(line: &str) -> (r: Option<(String, String)>)
    ensures
        match (r, setting_of(line@)) {
            (Some(a), Some(b)) => a.0@ == b.0 && a.1@ == b.1,
            (None, None) => true,
            _ => false,
        },
{
    let t: String = trim_text(line);
    let v: Vec<char> = chars_of(t.as_str());
    if v.len() == 0 || v[0] == '#' {
        return None;
    }
    assert(v@.skip(0) == v@);
    let i: usize = find_from(&v, 0, '=');
    if i >= v.len() {
        return None;
    }
    proof {
        assert(v@.subrange(0, i as int) == t@.take(i as int));
        assert(v@.subrange(i + 1, v.len() as int) == t@.skip(i + 1));
    }
    let key: String = text_of_range(&v, 0, i);
    let value: String = text_of_range(&v, i + 1, v.len());
    Some((trim_text(key.as_str()), clean_env_value(value.as_str())))
}

impl LiveSecrets {
    /// Puts a setting over any earlier one of its key.
    pub fn set(&mut self, key: String, value: String)
        ensures
            final(self)@ == old(self)@.insert(key@, value@),
    {
        let ghost before = self.values@;
        self.values.push((key, value));
        assert(self.values@.drop_last() == before);
    }

    /// Reads the settings of a secrets file.
    pub fn parse(text: &str) -> (r: Self)
        ensures
            r@ == settings_of(pieces(text@, '\n')),
    {
        let lines: Vec<String> = split_text(text, '\n');
        let mut out: LiveSecrets = LiveSecrets::default();
        let ghost all = texts(lines@);
        let mut i: usize = 0;
        assert(all.take(0) == Seq::<Seq<char>>::empty());
        while i < lines.len()
            invariant
                i <= lines.len(),
                all == texts(lines@),
                out@ == settings_of(all.take(i as int)),
            decreases lines.len() - i,
        {
            proof {
                assert(all.take(i + 1).drop_last() == all.take(i as int));
                assert(all.take(i + 1).last() == lines@[i as int]@);
            }
            match parse_setting(lines[i].as_str()) {
                Some((k, v)) => {
                    out.set(k, v);
                },
                None => {},
            }
            i = i + 1;
        }
        assert(all.take(all.len() as int) == all);
        out
    }

    /// Lets an environment variable override a setting, where it is not blank.
    pub fn override_with(&mut self, key: &str, value: &str)
        ensures
            final(self)@ == if trimmed(value@).len() > 0 {
                old(self)@.insert(key@, trimmed(value@))
            } else {
                old(self)@
            },
    {
        let t: String = trim_text(value);
        if t.as_str().unicode_len() > 0 {
            self.set(key.to_owned(), t);
        }
    }

    pub open spec fn spec_get(self, key: Seq<char>) -> Option<Seq<char>> {
        if self@.contains_key(key) && trimmed(self@[key]).len() > 0 {
            Some(self@[key])
        } else {
            None
        }
    }

    /// A setting that is not blank.
    pub fn get(&self, key: &str) -> (r: Option<&str>)
        ensures
            match (r, self.spec_get(key@)) {
                (Some(a), Some(b)) => a@ == b,
                (None, None) => true,
                _ => false,
            },
    {
        let ghost all = self.values@;
        let mut i: usize = self.values.len();
        assert(all.take(all.len() as int) == all);
        while i > 0
            invariant
                i <= self.values.len(),
                all == self.values@,
                settings(all).contains_key(key@) == settings(all.take(i as int)).contains_key(key@),
                settings(all).contains_key(key@) ==> settings(all)[key@] == settings(
                    all.take(i as int),
                )[key@],
            decreases i,
        {
            proof {
                assert(all.take(i as int).drop_last() == all.take(i - 1));
                assert(all.take(i as int).last() == all[i - 1]);
            }
            if same_text(self.values[i - 1].0.as_str(), key) {
                let v: &str = self.values[i - 1].1.as_str();
                return if trim_text(v).as_str().unicode_len() > 0 {
                    Some(v)
                } else {
                    None
                };
            }
            i = i - 1;
        }
        assert(all.take(0) == Seq::<(String, String)>::empty());
        None
    }

    pub open spec fn deposit_wallet(self) -> Option<Seq<char>> {
        match self.spec_get("POLYMARKET_DEPOSIT_WALLET_ADDRESS"@) {
            Some(v) => Some(v),
            None => self.spec_get("POLYMARKET_FUNDER_ADDRESS"@),
        }
    }

    pub fn deposit_wallet_address(&self) -> (r: Option<String>)
        ensures
            match (r, self.deposit_wallet()) {
                (Some(a), Some(b)) => a@ == b,
                (None, None) => true,
                _ => false,
            },
    {
        match self.get("POLYMARKET_DEPOSIT_WALLET_ADDRESS") {
            Some(v) => Some(v.to_owned()),
            None => match self.get("POLYMARKET_FUNDER_ADDRESS") {
                Some(v) => Some(v.to_owned()),
                None => None,
            },
        }
    }
}

/// The wallet that holds the funds: the configured one where it is not blank, else that of
/// the secrets.
pub open spec fn funder_of(cfg: ExecutionConfig, secrets: LiveSecrets) -> Option<Seq<char>> {
    match cfg.funder_address {
        Some(f) => if trimmed(f@).len() > 0 {
            Some(f@)
        } else {
            secrets.deposit_wallet()
        },
        None => secrets.deposit_wallet(),
    }
}

pub fn funder_address(cfg: &ExecutionConfig, secrets: &LiveSecrets) -> (r: Option<String>)
    ensures
        match (r, funder_of(*cfg, *secrets)) {
            (Some(a), Some(b)) => a@ == b,
            (None, None) => true,
            _ => false,
        },
{
    match &cfg.funder_address {
        Some(f) => {
            if trim_text(f.as_str()).as_str().unicode_len() > 0 {
                Some(f.as_str().to_owned())
            } else {
                secrets.deposit_wallet_address()
            }
        },
        None => secrets.deposit_wallet_address(),
    }
}

/// The funding wallet for display.
pub fn configured_funder_address(cfg: &ExecutionConfig, secrets: &LiveSecrets) -> (r: String)
    ensures
        r@ == match funder_of(*cfg, *secrets) {
            Some(f) => f,
            None => "(not set)"@,
        },
{
    match funder_address(cfg, secrets) {
        Some(f) => f,
        None => String::from_str("(not set)"),
    }
}

/// The exchange's address: that of the secrets where it is set, else the configured one.
pub fn clob_host(cfg: &ExecutionConfig, secrets: &LiveSecrets) -> (r: String)
    ensures
        r@ == match secrets.spec_get("CLOB_API_URL"@) {
            Some(h) => h,
            None => cfg.clob_host@,
        },
{
    match secrets.get("CLOB_API_URL") {
        Some(h) => h.to_owned(),
        None => cfg.clob_host.as_str().to_owned(),
    }
}

pub open spec fn is_hex_digit(c: char) -> bool {
    '0' <= c <= '9' || 'a' <= c <= 'f' || 'A' <= c <= 'F'
}

/// Whether a text is an Ethereum address: forty hexadecimal digits, with `0x` or `0X` in
/// front or without.
pub open spec fn is_address_text(s: Seq<char>) -> bool {
    let digits = if s.len() >= 2 && s[0] == '0' && (s[1] == 'x' || s[1] == 'X') {
        s.skip(2)
    } else {
        s
    };
    digits.len() == 40 && forall|i: int| 0 <= i < 40 ==> is_hex_digit(#[trigger] digits[i])
}

/// Calls `str::parse` for `alloy::primitives::Address`, which decodes twenty bytes of
/// hexadecimal, in either case, behind an optional prefix.
#[verifier::external_body]
pub(crate) fn parses_as_address(s: &str) -> (r: bool)
    ensures
        r == is_address_text(s@),
{
    s.parse::<alloy::primitives::Address>().is_ok()
}

/// The value of a digit or letter; none of anything else.
pub open spec fn digit_of(c: char) -> Option<int> {
    if '0' <= c <= '9' {
        Some(c as int - '0' as int)
    } else if 'a' <= c <= 'z' {
        Some(c as int - 'a' as int + 10)
    } else if 'A' <= c <= 'Z' {
        Some(c as int - 'A' as int + 10)
    } else {
        None
    }
}

/// The base that a number's prefix names.
pub open spec fn radix_of(s: Seq<char>) -> int {
    if s.len() < 2 || s[0] != '0' {
        10
    } else if s[1] == 'x' || s[1] == 'X' {
        16
    } else if s[1] == 'o' || s[1] == 'O' {
        8
    } else if s[1] == 'b' || s[1] == 'B' {
        2
    } else {
        10
    }
}

/// The number that digits denote in a base; underscores are skipped.
pub open spec fn number_in(digits: Seq<char>, radix: int) -> int
    decreases digits.len(),
{
    if digits.len() == 0 {
        0
    } else {
        let front = number_in(digits.drop_last(), radix);
        match digit_of(digits.last()) {
            Some(d) => front * radix + d,
            None => front,
        }
    }
}

/// Whether a text is a 256-bit whole number: digits of its base and underscores, behind
/// the prefix of the base, that denote a number below 2^256.
pub open spec fn is_u256_text(s: Seq<char>) -> bool {
    let radix = radix_of(s);
    let digits = if radix == 10 {
        s
    } else {
        s.skip(2)
    };
    &&& forall|i: int|
        0 <= i < digits.len() ==> match digit_of(#[trigger] digits[i]) {
            Some(d) => d < radix,
            None => digits[i] == '_',
        }
    &&& number_in(digits, radix) < pow2(256)
}

/// Calls `str::parse` for `alloy::primitives::U256`, which takes decimal digits, or
/// hexadecimal, octal or binary ones behind their prefix, skips underscores, and refuses
/// what does not fit into 256 bits.
#[verifier::external_body]
pub(crate) fn parses_as_u256(s: &str) -> (r: bool)
    ensures
        r == is_u256_text(s@),
{
    s.parse::<alloy::primitives::U256>().is_ok()
}

/// Refuses a token id that is no 256-bit whole number.
pub fn parse_token_id(value: &str) -> (r: Result<(), String>)
    ensures
        match r {
            Ok(_) => is_u256_text(value@),
            Err(words) => !is_u256_text(value@) && words@ == "failed to parse token id "@ + value@,
        },
{
    token_id_verdict(value, parses_as_u256(value))
}

/// The verdict on a token id, given whether it is a 256-bit whole number.
pub fn token_id_verdict(value: &str, parses: bool) -> (r: Result<(), String>)
    ensures
        match r {
            Ok(_) => parses,
            Err(words) => !parses && words@ == "failed to parse token id "@ + value@,
        },
{
    if parses {
        Ok(())
    } else {
        Err(joined("failed to parse token id ", value))
    }
}

/// What is wrong with the wallets of a live configuration.
#[derive(Debug, Clone, Copy, PartialEq, Eq, Structural)]
pub enum WalletFault {
    WrongSignature,
    NoDeposit,
    DepositIsOwner,
    BadDeposit,
}

/// The first fault: the signature type, a missing deposit wallet, one that equals the
/// owner, one that is no address.
pub open spec fn wallet_fault(
    cfg: ExecutionConfig,
    secrets: LiveSecrets,
    owner: Seq<char>,
    deposit_parses: bool,
) -> Option<WalletFault> {
    if cfg.signature_type != LiveSignatureType::Poly1271 {
        Some(WalletFault::WrongSignature)
    } else {
        match funder_of(cfg, secrets) {
            None => Some(WalletFault::NoDeposit),
            Some(d) => if ascii_lower_text(owner) == ascii_lower_text(d) {
                Some(WalletFault::DepositIsOwner)
            } else if !deposit_parses {
                Some(WalletFault::BadDeposit)
            } else {
                None
            },
        }
    }
}

/// Live trading is deposit-wallet only: checks the wallets given the owner's address and
/// whether the deposit wallet's text is an address.
pub fn check_wallets(
    cfg: &ExecutionConfig,
    secrets: &LiveSecrets,
    owner: &str,
    deposit_parses: bool,
) -> (r: Result<(), WalletFault>)
    ensures
        r == match wallet_fault(*cfg, *secrets, owner@, deposit_parses) {
            Some(f) => Err(f),
            None => Ok(()),
        },
{
    if cfg.signature_type != LiveSignatureType::Poly1271 {
        return Err(WalletFault::WrongSignature);
    }
    match funder_address(cfg, secrets) {
        None => Err(WalletFault::NoDeposit),
        Some(d) => {
            if same_but_case(owner, d.as_str()) {
                Err(WalletFault::DepositIsOwner)
            } else if !deposit_parses {
                Err(WalletFault::BadDeposit)
            } else {
                Ok(())
            }
        },
    }
}

/// Live trading is deposit-wallet only: checks the wallets given the owner's address.
pub fn validate_deposit_wallet_live_config(
    cfg: &ExecutionConfig,
    secrets: &LiveSecrets,
    owner: &str,
) -> (r: Result<(), WalletFault>)
    ensures
        r == match wallet_fault(
            *cfg,
            *secrets,
            owner@,
            funder_of(*cfg, *secrets) matches Some(d) && is_address_text(d),
        ) {
            Some(f) => Err(f),
            None => Ok(()),
        },
{
    let parses: bool = match funder_address(cfg, secrets) {
        Some(d) => parses_as_address(d.as_str()),
        None => false,
    };
    check_wallets(cfg, secrets, owner, parses)
}

impl LiveSignatureType {
    pub open spec fn name(self) -> Seq<char> {
        match self {
            LiveSignatureType::Eoa => "Eoa"@,
            LiveSignatureType::Proxy => "Proxy"@,
            LiveSignatureType::GnosisSafe => "GnosisSafe"@,
            LiveSignatureType::Poly1271 => "Poly1271"@,
        }
    }

    fn label(self) -> (r: &'static str)
        ensures
            r@ == self.name(),
    {
        match self {
            LiveSignatureType::Eoa => "Eoa",
            LiveSignatureType::Proxy => "Proxy",
            LiveSignatureType::GnosisSafe => "GnosisSafe",
            LiveSignatureType::Poly1271 => "Poly1271",
        }
    }
}

impl WalletFault {
    pub open spec fn words(self, kind: LiveSignatureType, owner: Seq<char>, deposit: Seq<char>) -> Seq<
        char,
    > {
        match self {
            WalletFault::WrongSignature =>
                "live mode requires execution.signatureType=poly1271 (deposit wallet). Got "@
                + kind.name() + ". Safe/Proxy (proto_v08) is not supported in GEM_RUST."@,
            WalletFault::NoDeposit =>
                "POLYMARKET_DEPOSIT_WALLET_ADDRESS is required for live deposit-wallet trading. This is where pUSD lives — not the owner EOA and not POLY_RELAYER_ADDRESS."@,
            WalletFault::DepositIsOwner => "deposit wallet address ("@ + deposit
                + ") must differ from owner EOA ("@ + owner
                + "). For POLY_1271: owner signs, deposit holds funds. Copy the Transfer Crypto / deposit address from polymarket.com, not the relayer signer."@,
            WalletFault::BadDeposit => "invalid POLYMARKET_DEPOSIT_WALLET_ADDRESS: "@ + deposit,
        }
    }

    pub fn message(&self, kind: LiveSignatureType, owner: &str, deposit: &str) -> (r: String)
        ensures
            r@ == self.words(kind, owner@, deposit@),
    {
        match self {
            WalletFault::WrongSignature => {
                let mut out: String = String::from_str(
                    "live mode requires execution.signatureType=poly1271 (deposit wallet). Got ",
                );
                out.append(kind.label());
                out.append(". Safe/Proxy (proto_v08) is not supported in GEM_RUST.");
                out
            },
            WalletFault::NoDeposit => String::from_str(
                "POLYMARKET_DEPOSIT_WALLET_ADDRESS is required for live deposit-wallet trading. This is where pUSD lives — not the owner EOA and not POLY_RELAYER_ADDRESS.",
            ),
            WalletFault::DepositIsOwner => {
                let mut out: String = String::from_str("deposit wallet address (");
                out.append(deposit);
                out.append(") must differ from owner EOA (");
                out.append(owner);
                out.append(
                    "). For POLY_1271: owner signs, deposit holds funds. Copy the Transfer Crypto / deposit address from polymarket.com, not the relayer signer.",
                );
                out
            },
            WalletFault::BadDeposit => joined(
                "invalid POLYMARKET_DEPOSIT_WALLET_ADDRESS: ",
                deposit,
            ),
        }
    }
}

/// A rejected order's words with what they mean for a deposit wallet.
pub open spec fn order_error_words(err: Seq<char>, owner: Seq<char>, deposit: Seq<char>) -> Seq<char> {
    if has_part(err, "signer address has to be the address of the API KEY"@) {
        err + " | deposit-wallet auth: API key must belong to owner EOA ("@ + owner
            + "), not deposit ("@ + deposit
            + "). Check POLYMARKET_PRIVATE_KEY matches the account that created API creds."@
    } else if has_part(err, "UNMATCHED"@) || has_part(ascii_lower_text(err), "fok"@) {
        err
            + " | FOK: full size not available at current book. SDK prices from live CLOB book at submit."@
    } else {
        err + " | owner="@ + owner + " deposit="@ + deposit
    }
}

pub fn explain_clob_order_error(err: &str, owner: &str, deposit: &str) -> (r: String)
    ensures
        r@ == order_error_words(err@, owner@, deposit@),
{
    let mut out: String = String::from_str(err);
    if contains(err, "signer address has to be the address of the API KEY") {
        out.append(" | deposit-wallet auth: API key must belong to owner EOA (");
        out.append(owner);
        out.append("), not deposit (");
        out.append(deposit);
        out.append(
            "). Check POLYMARKET_PRIVATE_KEY matches the account that created API creds.",
        );
        return out;
    }
    if contains(err, "UNMATCHED") || contains(to_ascii_lower(err).as_str(), "fok") {
        out.append(
            " | FOK: full size not available at current book. SDK prices from live CLOB book at submit.",
        );
        return out;
    }
    out.append(" | owner=");
    out.append(owner);
    out.append(" deposit=");
    out.append(deposit);
    out
}

/// An account error's words, with advice where the owner has no deposit wallet yet.
pub open spec fn account_error_words(
    err: Seq<char>,
    signer: Seq<char>,
    funder: Seq<char>,
    relayer: Option<Seq<char>>,
) -> Seq<char> {
    if has_part(err, "no deposit wallet found for owner"@) {
        err + " | owner="@ + signer + " deposit="@ + funder + "."@ + (if relayer is Some
            && ascii_lower_text(signer) == ascii_lower_text(relayer->0) {
            " Owner=relayer EOA is normal; deposit is a separate smart-wallet address."@
        } else {
            ""@
        })
            + " CLOB has no deposit wallet registered for this owner yet. Usual fixes: (1) make one small trade on polymarket.com (deploys deposit proxy on-chain), (2) deposit USDC to "@
            + funder
            + ", (3) wait a few minutes and retry balance sync. If still failing after UI trade: known POLY_1271 deposit-wallet SDK/CLOB limitation for new accounts."@
    } else {
        err
    }
}

pub fn explain_clob_account_error(err: &str, signer: &str, funder: &str, relayer: Option<&str>) -> (r:
    String)
    ensures
        r@ == account_error_words(
            err@,
            signer@,
            funder@,
            match relayer {
                Some(a) => Some(a@),
                None => None,
            },
        ),
{
    let mut out: String = String::from_str(err);
    if contains(err, "no deposit wallet found for owner") {
        let same: bool = match relayer {
            Some(addr) => same_but_case(signer, addr),
            None => false,
        };
        out.append(" | owner=");
        out.append(signer);
        out.append(" deposit=");
        out.append(funder);
        out.append(".");
        out.append(
            if same {
                " Owner=relayer EOA is normal; deposit is a separate smart-wallet address."
            } else {
                ""
            },
        );
        out.append(
            " CLOB has no deposit wallet registered for this owner yet. Usual fixes: (1) make one small trade on polymarket.com (deploys deposit proxy on-chain), (2) deposit USDC to ",
        );
        out.append(funder);
        out.append(
            ", (3) wait a few minutes and retry balance sync. If still failing after UI trade: known POLY_1271 deposit-wallet SDK/CLOB limitation for new accounts.",
        );
    }
    out
}

/// A balance in millionths as USD; zero where its text is no number.
pub open spec fn balance_usd_of(balance: Seq<char>) -> Num {
    (match num_of_text(balance) {
        Some(x) => x,
        None => Num::zero(),
    }) / Num::uint(1_000_000)
}

/// CLOB collateral balance is returned in USDC micro-units (6 decimals).
pub fn collateral_balance_usd(balance: &str) -> (r: Num)
    ensures
        r == balance_usd_of(balance@),
{
    let x: Num = match parse_num(balance) {
        Some(x) => x,
        None => Num::zero(),
    };
    x / Num::uint(1_000_000)
}

/// The account's state from what the exchange reports: ready to trade with an allowance
/// and at least the smallest order's money.
pub fn account_status(
    cfg: &ExecutionConfig,
    secrets: &LiveSecrets,
    signer_address: String,
    balance: &str,
    allowance_contracts: usize,
    now_ms: i64,
) -> (r: LiveAccountStatus)
    ensures
        r.authenticated,
        r.balance_usd == balance_usd_of(balance@),
        r.allowance_contracts == allowance_contracts,
        r.ready_to_trade == (allowance_contracts > 0 && (balance_usd_of(balance@) + Num::ratio(
            1,
            1_000_000_000,
        )).ge(min_notional(*cfg))),
        r.dry_run == cfg.dry_run,
        r.relayer_configured == (secrets.spec_get("POLY_RELAYER_API_KEY"@) is Some
            && secrets.spec_get("POLY_RELAYER_ADDRESS"@) is Some),
        r.signer_address == signer_address,
        r.funder_address@ == match funder_of(*cfg, *secrets) {
            Some(f) => f,
            None => "(not set)"@,
        },
        r.last_error is None,
        r.updated_at_ms == now_ms,
        r.window_number is None,
{
    let balance_usd: Num = collateral_balance_usd(balance);
    let min_order: Num = cfg.min_order_usd.max(Num::one());
    let relayer_configured: bool = secrets.get("POLY_RELAYER_API_KEY").is_some() && secrets.get(
        "POLY_RELAYER_ADDRESS",
    ).is_some();
    LiveAccountStatus {
        authenticated: true,
        balance_usd,
        allowance_contracts,
        ready_to_trade: allowance_contracts > 0 && (balance_usd + Num::ratio(1, 1_000_000_000)).ge(
            min_order,
        ),
        dry_run: cfg.dry_run,
        relayer_configured,
        signer_address,
        funder_address: configured_funder_address(cfg, secrets),
        last_error: None,
        updated_at_ms: now_ms,
        window_number: None,
    }
}

/// A money amount as the exchange takes it: six decimals.
pub fn decimal_usd(value: Num) -> (r: String)
    ensures
        r@ == fixed_of(value, 6),
{
    fixed(value, 6)
}

/// A share amount as the exchange takes it: two decimals.
pub fn decimal_shares(value: Num) -> (r: String)
    ensures
        r@ == fixed_of(value, 2),
{
    fixed(value, 2)
}

} // verus!
