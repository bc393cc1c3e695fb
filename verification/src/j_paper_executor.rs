//! Paper execution of endgame signals against the current book.
use crate::client::PricesState;
use crate::num::Num;
use crate::orderbook::first_price;
use crate::strategy::{OrderOperation, OrderSignal, OrderType};
use crate::text::same_text;
use crate::trader::{held, Portfolio};
use vstd::prelude::*;

verus! {

#[derive(Debug, Clone, Copy, PartialEq, Eq, Structural)]
pub enum JPaperReject {
    BadSide,
    BadPrice,
    BelowMinNotional,
    InsufficientCash,
    NoShares,
    NoExecutableAsk,
    NoExecutableBid,
}

impl JPaperReject {
    pub fn as_str(&self) -> (r: &'static str)
        ensures
            r@ == match *self {
                JPaperReject::BadSide => "bad_side"@,
                JPaperReject::BadPrice => "bad_price"@,
                JPaperReject::BelowMinNotional => "below_min_notional"@,
                JPaperReject::InsufficientCash => "insufficient_cash"@,
                JPaperReject::NoShares => "no_shares"@,
                JPaperReject::NoExecutableAsk => "no_executable_ask"@,
                JPaperReject::NoExecutableBid => "no_executable_bid"@,
            },
    {
        match self {
            JPaperReject::BadSide => "bad_side",
            JPaperReject::BadPrice => "bad_price",
            JPaperReject::BelowMinNotional => "below_min_notional",
            JPaperReject::InsufficientCash => "insufficient_cash",
            JPaperReject::NoShares => "no_shares",
            JPaperReject::NoExecutableAsk => "no_executable_ask",
            JPaperReject::NoExecutableBid => "no_executable_bid",
        }
    }
}

#[derive(Debug, Clone, Copy, PartialEq, Eq, Structural)]
pub struct JPaperExecution {
    pub executed: bool,
    pub reject: Option<JPaperReject>,
}

impl JPaperExecution {
    pub open spec fn spec_filled() -> JPaperExecution {
        JPaperExecution { executed: true, reject: None }
    }

    #[verifier::when_used_as_spec(spec_filled)]
    pub fn filled() -> (r: Self)
        ensures
            r == JPaperExecution::spec_filled(),
    {
        JPaperExecution { executed: true, reject: None }
    }

    pub open spec fn spec_rejected(reason: JPaperReject) -> JPaperExecution {
        JPaperExecution { executed: false, reject: Some(reason) }
    }

    #[verifier::when_used_as_spec(spec_rejected)]
    pub fn rejected(reason: JPaperReject) -> (r: Self)
        ensures
            r == JPaperExecution::spec_rejected(reason),
    {
        JPaperExecution { executed: false, reject: Some(reason) }
    }
}

pub open spec fn spec_book_or_top(book: Num, top: Num) -> Num {
    if book.gt(Num::zero()) {
        book
    } else {
        top
    }
}

/// The price from the book, or the top-of-book price where the book has none.
#[verifier::when_used_as_spec(spec_book_or_top)]
pub fn book_or_top_ask(book_ask: Num, top_ask: Num) -> (r: Num)
    ensures
        r == spec_book_or_top(book_ask, top_ask),
{
    if book_ask.gt(Num::zero()) {
        book_ask
    } else {
        top_ask
    }
}

#[verifier::when_used_as_spec(spec_book_or_top)]
pub fn book_or_top_bid(book_bid: Num, top_bid: Num) -> (r: Num)
    ensures
        r == spec_book_or_top(book_bid, top_bid),
{
    if book_bid.gt(Num::zero()) {
        book_bid
    } else {
        top_bid
    }
}

/// The ask that a buy of the side meets; none for an unknown side.
pub open spec fn live_ask(side: Seq<char>, prices: PricesState) -> Option<Num> {
    if side == "UP"@ {
        Some(spec_book_or_top(first_price(prices.up.book.asks@), prices.up.ask))
    } else if side == "DOWN"@ {
        Some(spec_book_or_top(first_price(prices.down.book.asks@), prices.down.ask))
    } else {
        None
    }
}

/// The bid that a sale of the side meets; none for an unknown side.
pub open spec fn live_bid(side: Seq<char>, prices: PricesState) -> Option<Num> {
    if side == "UP"@ {
        Some(spec_book_or_top(first_price(prices.up.book.bids@), prices.up.bid))
    } else if side == "DOWN"@ {
        Some(spec_book_or_top(first_price(prices.down.book.bids@), prices.down.bid))
    } else {
        None
    }
}

pub fn best_ask(side: &str, prices: &PricesState) -> (r: Option<Num>)
    ensures
        r == live_ask(side@, *prices),
{
    if same_text(side, "UP") {
        Some(book_or_top_ask(prices.up.book.best_ask(), prices.up.ask))
    } else if same_text(side, "DOWN") {
        Some(book_or_top_ask(prices.down.book.best_ask(), prices.down.ask))
    } else {
        None
    }
}

pub fn best_bid(side: &str, prices: &PricesState) -> (r: Option<Num>)
    ensures
        r == live_bid(side@, *prices),
{
    if same_text(side, "UP") {
        Some(book_or_top_bid(prices.up.book.best_bid(), prices.up.bid))
    } else if same_text(side, "DOWN") {
        Some(book_or_top_bid(prices.down.book.best_bid(), prices.down.bid))
    } else {
        None
    }
}

pub open spec fn slack() -> Num {
    Num::ratio(1, 1_000_000_000)
}

/// The price at which a buy executes, or why it does not: the notional first, then the
/// price, the cash, the side and the ask.
pub open spec fn buy_price(cash: Num, prices: PricesState, sig: OrderSignal) -> Result<
    Num,
    JPaperReject,
> {
    if (sig.amount + slack()).lt(Num::one()) {
        Err(JPaperReject::BelowMinNotional)
    } else if sig.price.le(Num::zero()) {
        Err(JPaperReject::BadPrice)
    } else if (cash + slack()).lt(sig.amount) {
        Err(JPaperReject::InsufficientCash)
    } else {
        match live_ask(sig.side@, prices) {
            None => Err(JPaperReject::BadSide),
            Some(ask) => if ask.le(Num::zero()) {
                Err(JPaperReject::NoExecutableAsk)
            } else if sig.order_type == OrderType::Limit && ask.gt(sig.price + slack()) {
                Err(JPaperReject::NoExecutableAsk)
            } else {
                Ok(ask)
            },
        }
    }
}

/// The price at which a sale executes, or why it does not: the shares first, then the
/// side, the bid, the limit and the notional. A limit sale executes at its limit.
pub open spec fn sell_price(prices: PricesState, sig: OrderSignal) -> Result<Num, JPaperReject> {
    if sig.amount.le(Num::zero()) {
        Err(JPaperReject::NoShares)
    } else {
        match live_bid(sig.side@, prices) {
            None => Err(JPaperReject::BadSide),
            Some(bid) => {
                let price = if sig.order_type == OrderType::Market {
                    bid
                } else {
                    sig.price
                };
                if bid.le(Num::zero()) {
                    Err(JPaperReject::NoExecutableBid)
                } else if sig.order_type == OrderType::Limit && sig.price.le(Num::zero()) {
                    Err(JPaperReject::BadPrice)
                } else if sig.order_type == OrderType::Limit && (bid + slack()).lt(sig.price) {
                    Err(JPaperReject::NoExecutableBid)
                } else if (sig.amount * price + slack()).lt(Num::one()) {
                    Err(JPaperReject::BelowMinNotional)
                } else {
                    Ok(price)
                }
            },
        }
    }
}

pub fn plan_paper_buy(cash: Num, prices: &PricesState, sig: &OrderSignal) -> (r: Result<
    Num,
    JPaperReject,
>)
    ensures
        r == buy_price(cash, *prices, *sig),
{
    if (sig.amount + Num::ratio(1, 1_000_000_000)).lt(Num::one()) {
        return Err(JPaperReject::BelowMinNotional);
    }
    if sig.price.le(Num::zero()) {
        return Err(JPaperReject::BadPrice);
    }
    if (cash + Num::ratio(1, 1_000_000_000)).lt(sig.amount) {
        return Err(JPaperReject::InsufficientCash);
    }
    let ask: Num = match best_ask(sig.side.as_str(), prices) {
        Some(a) => a,
        None => {
            return Err(JPaperReject::BadSide);
        },
    };
    if ask.le(Num::zero()) {
        return Err(JPaperReject::NoExecutableAsk);
    }
    if sig.order_type == OrderType::Limit && ask.gt(sig.price + Num::ratio(1, 1_000_000_000)) {
        return Err(JPaperReject::NoExecutableAsk);
    }
    Ok(ask)
}

pub fn plan_paper_sell(prices: &PricesState, sig: &OrderSignal) -> (r: Result<Num, JPaperReject>)
    ensures
        r == sell_price(*prices, *sig),
{
    if sig.amount.le(Num::zero()) {
        return Err(JPaperReject::NoShares);
    }
    let bid: Num = match best_bid(sig.side.as_str(), prices) {
        Some(b) => b,
        None => {
            return Err(JPaperReject::BadSide);
        },
    };
    if bid.le(Num::zero()) {
        return Err(JPaperReject::NoExecutableBid);
    }
    let price: Num = match sig.order_type {
        OrderType::Market => bid,
        OrderType::Limit => {
            if sig.price.le(Num::zero()) {
                return Err(JPaperReject::BadPrice);
            }
            if (bid + Num::ratio(1, 1_000_000_000)).lt(sig.price) {
                return Err(JPaperReject::NoExecutableBid);
            }
            sig.price
        },
    };
    if (sig.amount * price + Num::ratio(1, 1_000_000_000)).lt(Num::one()) {
        return Err(JPaperReject::BelowMinNotional);
    }
    Ok(price)
}

/// What a buy signal does to the portfolio.
pub open spec fn buys(
    port: Portfolio,
    after: Portfolio,
    number: usize,
    prices: PricesState,
    sig: OrderSignal,
    r: JPaperExecution,
) -> bool {
    match buy_price(port.available_cash, prices, sig) {
        Err(e) => r == JPaperExecution::rejected(e) && after == port,
        Ok(price) => if port.can_buy(number, sig.side@, price) {
            r == JPaperExecution::filled() && port.bought(
                after,
                number,
                sig.side@,
                sig.amount,
                sig.amount / price,
                price,
                sig.reason@,
            )
        } else {
            r == JPaperExecution::rejected(JPaperReject::BadPrice) && after == port
        },
    }
}

/// What a sell signal does to the portfolio.
pub open spec fn sells(
    port: Portfolio,
    after: Portfolio,
    number: usize,
    prices: PricesState,
    sig: OrderSignal,
    r: JPaperExecution,
) -> bool {
    match sell_price(prices, sig) {
        Err(e) => r == JPaperExecution::rejected(e) && after == port,
        Ok(price) => if port.can_sell(number, sig.side@, price) {
            r == JPaperExecution::filled() && port.sold(
                after,
                number,
                sig.side@,
                sig.amount.min(held(port.windows@[port.place_of(number)], sig.side@)),
                sig.amount.min(held(port.windows@[port.place_of(number)], sig.side@)) * price,
                price,
                sig.reason@,
            )
        } else {
            r == JPaperExecution::rejected(JPaperReject::NoShares) && after == port
        },
    }
}

pub fn execute_j_paper_buy(
    port: &mut Portfolio,
    window_number: usize,
    prices: &PricesState,
    sig: &OrderSignal,
) -> (r: JPaperExecution)
    ensures
        buys(*old(port), *final(port), window_number, *prices, *sig, r),
{
    let price: Num = match plan_paper_buy(port.available_cash, prices, sig) {
        Ok(p) => p,
        Err(e) => {
            return JPaperExecution::rejected(e);
        },
    };
    let done: Option<Num> = port.execute_buy(
        window_number,
        sig.side.as_str(),
        sig.amount,
        price,
        sig.reason.as_str(),
    );
    if done.is_some() {
        JPaperExecution::filled()
    } else {
        JPaperExecution::rejected(JPaperReject::BadPrice)
    }
}

pub fn execute_j_paper_sell(
    port: &mut Portfolio,
    window_number: usize,
    prices: &PricesState,
    sig: &OrderSignal,
) -> (r: JPaperExecution)
    ensures
        sells(*old(port), *final(port), window_number, *prices, *sig, r),
{
    let price: Num = match plan_paper_sell(prices, sig) {
        Ok(p) => p,
        Err(e) => {
            return JPaperExecution::rejected(e);
        },
    };
    let done: Option<Num> = port.execute_sell(
        window_number,
        sig.side.as_str(),
        sig.amount,
        price,
        sig.reason.as_str(),
    );
    if done.is_some() {
        JPaperExecution::filled()
    } else {
        JPaperExecution::rejected(JPaperReject::NoShares)
    }
}

/// Executes a signal on paper: a buy takes the ask, a sale the bid or its limit.
pub fn execute_j_paper_signal(
    port: &mut Portfolio,
    window_number: usize,
    prices: &PricesState,
    sig: &OrderSignal,
) -> (r: JPaperExecution)
    ensures
        sig.is_buy ==> buys(*old(port), *final(port), window_number, *prices, *sig, r),
        !sig.is_buy ==> sells(*old(port), *final(port), window_number, *prices, *sig, r),
{
    match sig.operation() {
        OrderOperation::Buy => execute_j_paper_buy(port, window_number, prices, sig),
        OrderOperation::Sell => execute_j_paper_sell(port, window_number, prices, sig),
    }
}

/// A rejected signal leaves the portfolio untouched, an executed one is not rejected.
pub proof fn law_reject_changes_nothing(
    port: Portfolio,
    after: Portfolio,
    number: usize,
    prices: PricesState,
    sig: OrderSignal,
    r: JPaperExecution,
)
    requires
        sig.is_buy ==> buys(port, after, number, prices, sig, r),
        !sig.is_buy ==> sells(port, after, number, prices, sig, r),
    ensures
        !r.executed ==> after == port,
        r.executed <==> r.reject is None,
{
}

/// A limit buy never executes above its limit by more than the slack, and a paper buy
/// never spends more cash than there is by more than the slack.
pub proof fn law_buy_within_limit_and_cash(cash: Num, prices: PricesState, sig: OrderSignal)
    ensures
        buy_price(cash, prices, sig) matches Ok(price) ==> {
            &&& price == live_ask(sig.side@, prices)->0
            &&& sig.order_type == OrderType::Limit ==> !price.gt(sig.price + slack())
            &&& !(cash + slack()).lt(sig.amount)
            &&& !(sig.amount + slack()).lt(Num::one())
        },
{
}

/// What a buy of one side meets: the first ask of its own book, or its own top ask where the
/// book has no positive one. Nothing of the other contract matters.
pub proof fn law_buy_takes_its_own_ask(cash: Num, prices: PricesState, other: PricesState, sig: OrderSignal)
    ensures
        ({
            let own = if sig.side@ == "UP"@ {
                prices.up
            } else {
                prices.down
            };
            let book = own.book.asks@;
            let side = sig.side@ == "UP"@ || sig.side@ == "DOWN"@;
            &&& !side ==> buy_price(cash, prices, sig) is Err
            &&& buy_price(cash, prices, sig) matches Ok(price) ==> {
                &&& book.len() > 0 && book[0].price.gt(Num::zero()) ==> price == book[0].price
                &&& book.len() == 0 ==> price == own.ask
                &&& price == own.ask || (book.len() > 0 && price == book[0].price)
            }
        }),
        sig.side@ == "UP"@ && other.up == prices.up ==> buy_price(cash, other, sig) == buy_price(
            cash,
            prices,
            sig,
        ),
        sig.side@ == "DOWN"@ && other.down == prices.down ==> buy_price(cash, other, sig)
            == buy_price(cash, prices, sig),
{
    lemma_side_names();
    lemma_zero_not_positive();
}

/// What a sale of one side meets: the first bid of its own book, or its own top bid where the
/// book has no positive one, or its limit. Nothing of the other contract matters.
pub proof fn law_sale_takes_its_own_bid(prices: PricesState, other: PricesState, sig: OrderSignal)
    ensures
        ({
            let own = if sig.side@ == "UP"@ {
                prices.up
            } else {
                prices.down
            };
            let book = own.book.bids@;
            let side = sig.side@ == "UP"@ || sig.side@ == "DOWN"@;
            &&& !side ==> sell_price(prices, sig) is Err
            &&& sell_price(prices, sig) matches Ok(price) ==> {
                &&& sig.order_type == OrderType::Limit ==> price == sig.price
                &&& sig.order_type == OrderType::Market ==> {
                    &&& book.len() > 0 && book[0].price.gt(Num::zero()) ==> price == book[0].price
                    &&& book.len() == 0 ==> price == own.bid
                    &&& price == own.bid || (book.len() > 0 && price == book[0].price)
                }
            }
        }),
        sig.side@ == "UP"@ && other.up == prices.up ==> sell_price(other, sig) == sell_price(
            prices,
            sig,
        ),
        sig.side@ == "DOWN"@ && other.down == prices.down ==> sell_price(other, sig) == sell_price(
            prices,
            sig,
        ),
{
    lemma_side_names();
    lemma_zero_not_positive();
}

proof fn lemma_side_names()
    ensures
        "UP"@ != "DOWN"@,
{
    reveal_strlit("UP");
    reveal_strlit("DOWN");
    assert("UP"@.len() != "DOWN"@.len());
}

proof fn lemma_zero_not_positive()
    ensures
        !Num::zero().gt(Num::zero()),
{
}

/// UP and DOWN are treated alike: with the two contracts exchanged in the prices and the side
/// exchanged in the signal, the outcome is the same.
pub proof fn law_sides_are_alike(
    cash: Num,
    prices: PricesState,
    exchanged: PricesState,
    sig: OrderSignal,
    mirrored: OrderSignal,
)
    requires
        exchanged.up == prices.down,
        exchanged.down == prices.up,
        sig.side@ == "UP"@ && mirrored.side@ == "DOWN"@ || sig.side@ == "DOWN"@ && mirrored.side@
            == "UP"@,
        mirrored.order_type == sig.order_type,
        mirrored.amount == sig.amount,
        mirrored.price == sig.price,
    ensures
        buy_price(cash, prices, sig) == buy_price(cash, exchanged, mirrored),
        sell_price(prices, sig) == sell_price(exchanged, mirrored),
{
    lemma_side_names();
}

/// A market buy of at least a dollar, at a positive price that the cash covers, is filled
/// where its side has a positive ask, and a limit buy where that ask is not above its limit.
/// Below a dollar, beyond the cash, or without an ask within the limit nothing is.
pub proof fn law_affordable_buys_are_filled(cash: Num, prices: PricesState, sig: OrderSignal)
    requires
        sig.side@ == "UP"@ || sig.side@ == "DOWN"@,
    ensures
        ({
            let own = if sig.side@ == "UP"@ {
                prices.up
            } else {
                prices.down
            };
            let r = buy_price(cash, prices, sig);
            let book = own.book.asks@;
            let least = Num::ratio(1, 1_000_000_000);
            let asked = if book.len() > 0 && book[0].price.gt(Num::zero()) {
                book[0].price
            } else {
                own.ask
            };
            let fits = sig.order_type == OrderType::Market || !asked.gt(sig.price + least);
            &&& (sig.amount + least).lt(Num::one()) ==> r is Err
            &&& (cash + least).lt(sig.amount) ==> r is Err
            &&& sig.price.le(Num::zero()) ==> r is Err
            &&& asked.le(Num::zero()) || !fits ==> r is Err
            &&& sig.amount.ge(Num::one()) && sig.amount.is_finite() && sig.price.gt(Num::zero())
                && cash.is_finite() && cash.ge(sig.amount) && asked.gt(Num::zero()) && fits ==> r
                == Ok::<Num, JPaperReject>(asked)
        }),
{
    lemma_side_names();
    lemma_zero_not_positive();
    crate::num_error::lemma_billionth();
    let least = Num::ratio(1, 1_000_000_000);
    if !sig.amount.is_nan() {
        crate::num_laws::lemma_add_grows(sig.amount, least);
    }
    if !cash.is_nan() {
        crate::num_laws::lemma_add_grows(cash, least);
    }
}

/// A filled buy is booked for its side and window at that price: the money leaves the cash,
/// the shares it buys come to the side, and the other side's stay as they were.
pub proof fn law_filled_buy_is_booked(
    port: Portfolio,
    after: Portfolio,
    number: usize,
    prices: PricesState,
    sig: OrderSignal,
    r: JPaperExecution,
)
    requires
        buys(port, after, number, prices, sig, r),
        r.executed,
        port.has(number),
    ensures
        ({
            let i = port.place_of(number);
            let (v, w) = (after.windows@[i], port.windows@[i]);
            let price = buy_price(port.available_cash, prices, sig)->Ok_0;
            let shares = sig.amount / price;
            &&& after.available_cash == port.available_cash - sig.amount
            &&& v.spent == w.spent + sig.amount
            &&& sig.side@ == "UP"@ ==> v.up_shares == w.up_shares + shares && v.down_shares
                == w.down_shares
            &&& sig.side@ == "DOWN"@ ==> v.down_shares == w.down_shares + shares && v.up_shares
                == w.up_shares
            &&& forall|j: int|
                0 <= j < port.windows@.len() && j != i ==> #[trigger] after.windows@[j]
                    == port.windows@[j]
        }),
{
    lemma_side_names();
    crate::trader::lemma_place(port.windows@, number);
}

/// A filled sale is booked for its side and window at that price: at most what is held
/// leaves, its money comes to the cash, and the other side's shares stay as they were.
pub proof fn law_filled_sale_is_booked(
    port: Portfolio,
    after: Portfolio,
    number: usize,
    prices: PricesState,
    sig: OrderSignal,
    r: JPaperExecution,
)
    requires
        sells(port, after, number, prices, sig, r),
        r.executed,
        port.has(number),
    ensures
        ({
            let i = port.place_of(number);
            let (v, w) = (after.windows@[i], port.windows@[i]);
            let price = sell_price(prices, sig)->Ok_0;
            let had = if sig.side@ == "UP"@ {
                w.up_shares
            } else {
                w.down_shares
            };
            let sold = sig.amount.min(had);
            &&& after.available_cash == port.available_cash + sold * price
            &&& v.cash_returned == w.cash_returned + sold * price
            &&& sig.side@ == "UP"@ ==> v.up_shares == w.up_shares - sold && v.down_shares
                == w.down_shares
            &&& sig.side@ == "DOWN"@ ==> v.down_shares == w.down_shares - sold && v.up_shares
                == w.up_shares
        }),
{
    lemma_side_names();
    crate::trader::lemma_place(port.windows@, number);
}

/// A sale is filled exactly where it has shares, its side has a bid, its limit, where it has
/// one, is positive and no further above that bid than a billionth, and its worth is a dollar
/// or more, a billionth aside.
pub proof fn law_payable_sales_are_filled(prices: PricesState, sig: OrderSignal)
    requires
        sig.side@ == "UP"@ || sig.side@ == "DOWN"@,
        sig.order_type == OrderType::Market || sig.order_type == OrderType::Limit,
        !sig.amount.is_nan() && !sig.price.is_nan(),
    ensures
        ({
            let own = if sig.side@ == "UP"@ {
                prices.up
            } else {
                prices.down
            };
            let bid = if own.book.bids@.len() > 0 && Num::zero().lt(own.book.bids@[0].price) {
                own.book.bids@[0].price
            } else {
                own.bid
            };
            let limit = sig.order_type == OrderType::Limit;
            let price = if limit {
                sig.price
            } else {
                bid
            };
            let tiny = Num::ratio(1, 1_000_000_000);
            !bid.is_nan() ==> (sell_price(prices, sig) is Ok <==> {
                &&& Num::zero().lt(sig.amount) && Num::zero().lt(bid)
                &&& limit ==> Num::zero().lt(sig.price) && !(bid + tiny).lt(sig.price)
                &&& !(sig.amount * price + tiny).lt(Num::one())
            })
        }),
{
    lemma_side_names();
    lemma_zero_not_positive();
}

} // verus!
