//! Positions: what was bought and sold in each window.
use crate::client::{
    ContractPrices, ContractView, MarketWindow, PricesState, PricesView, TokenInfo, TokensMap,
};
use crate::market_parse::MarketView;
use crate::num::Num;
use crate::orderbook::{BookLevel, SideBook};
use crate::text::{has_prefix, same_text, starts_with};
use vstd::prelude::*;

verus! {

#[derive(Debug, Clone)]
pub struct TradeRecord {
    pub timestamp: i64,
    pub trade_type: String,
    pub side: String,
    pub reason: String,
    pub price: Num,
    pub shares: Num,
    pub usd_value: Num,
    pub available_cash_after: Num,
}

#[derive(Debug, Clone)]
pub struct WindowState {
    pub window_number: usize,
    pub role: String,
    pub status: String,
    pub market: MarketWindow,
    pub spent: Num,
    pub cash_returned: Num,
    pub up_shares: Num,
    pub down_shares: Num,
    pub initial_up_shares: Num,
    pub initial_down_shares: Num,
    pub trades: Vec<TradeRecord>,
    pub prices: PricesState,
}

/// Copies price levels.
fn copy_levels(v: &Vec<BookLevel>) -> (r: Vec<BookLevel>)
    ensures
        r@ == v@,
{
    let mut out: Vec<BookLevel> = Vec::new();
    let mut i: usize = 0;
    while i < v.len()
        invariant
            i <= v.len(),
            out@ == v@.take(i as int),
        decreases v.len() - i,
    {
        out.push(v[i]);
        assert(v@.take(i + 1) =~= v@.take(i as int).push(v@[i as int]));
        i = i + 1;
    }
    assert(v@.take(i as int) =~= v@);
    out
}

fn copy_contract(c: &ContractPrices) -> (r: ContractPrices)
    ensures
        r@ == c@,
{
    ContractPrices {
        bid: c.bid,
        ask: c.ask,
        book: SideBook { bids: copy_levels(&c.book.bids), asks: copy_levels(&c.book.asks) },
    }
}

pub fn copy_prices(p: &PricesState) -> (r: PricesState)
    ensures
        r@ == p@,
{
    PricesState { up: copy_contract(&p.up), down: copy_contract(&p.down) }
}

pub fn copy_market(m: &MarketWindow) -> (r: MarketWindow)
    ensures
        r@ == m@,
{
    MarketWindow {
        id: m.id.as_str().to_owned(),
        slug: m.slug.as_str().to_owned(),
        question: m.question.as_str().to_owned(),
        asset: m.asset.as_str().to_owned(),
        interval: m.interval.as_str().to_owned(),
        start_time: m.start_time.as_str().to_owned(),
        end_time: m.end_time.as_str().to_owned(),
        price_to_beat: m.price_to_beat,
        tokens: TokensMap {
            up: TokenInfo {
                token_id: m.tokens.up.token_id.as_str().to_owned(),
                outcome_name: m.tokens.up.outcome_name.as_str().to_owned(),
            },
            down: TokenInfo {
                token_id: m.tokens.down.token_id.as_str().to_owned(),
                outcome_name: m.tokens.down.outcome_name.as_str().to_owned(),
            },
        },
    }
}

/// Copies trades.
pub fn copy_trades(v: &Vec<TradeRecord>) -> (r: Vec<TradeRecord>)
    ensures
        r@ == v@,
{
    let mut out: Vec<TradeRecord> = Vec::new();
    let mut i: usize = 0;
    while i < v.len()
        invariant
            i <= v.len(),
            out@ == v@.take(i as int),
        decreases v.len() - i,
    {
        let t: &TradeRecord = &v[i];
        out.push(
            TradeRecord {
                timestamp: t.timestamp,
                trade_type: t.trade_type.clone(),
                side: t.side.clone(),
                reason: t.reason.clone(),
                price: t.price,
                shares: t.shares,
                usd_value: t.usd_value,
                available_cash_after: t.available_cash_after,
            },
        );
        assert(v@.take(i + 1) =~= v@.take(i as int).push(v@[i as int]));
        i = i + 1;
    }
    assert(v@.take(i as int) =~= v@);
    out
}

/// Whether `w` is a new window: nothing traded, no prices yet.
pub open spec fn is_fresh(
    w: WindowState,
    number: usize,
    role: Seq<char>,
    market: MarketView,
) -> bool {
    &&& w.window_number == number
    &&& w.role@ == role
    &&& w.status@ == "WAITING_ENTRY"@
    &&& w.market@ == market
    &&& w.spent == Num::zero() && w.cash_returned == Num::zero()
    &&& w.up_shares == Num::zero() && w.down_shares == Num::zero()
    &&& w.initial_up_shares == Num::zero() && w.initial_down_shares == Num::zero()
    &&& w.trades@.len() == 0
    &&& w.prices@ == PricesView { up: no_contract(), down: no_contract() }
}

/// Prices of a contract without any quote.
pub open spec fn no_contract() -> ContractView {
    ContractView {
        bid: Num::zero(),
        ask: Num::zero(),
        bids: Seq::<BookLevel>::empty(),
        asks: Seq::<BookLevel>::empty(),
    }
}

/// Whether `t` records a trade with these figures.
pub open spec fn records(
    t: TradeRecord,
    timestamp: i64,
    trade_type: Seq<char>,
    side: Seq<char>,
    reason: Seq<char>,
    price: Num,
    shares: Num,
    usd_value: Num,
    cash_after: Num,
) -> bool {
    &&& t.timestamp == timestamp
    &&& t.trade_type@ == trade_type
    &&& t.side@ == side
    &&& t.reason@ == reason
    &&& t.price == price
    &&& t.shares == shares
    &&& t.usd_value == usd_value
    &&& t.available_cash_after == cash_after
}

/// Cash and the positions of all windows.
#[derive(Debug, Clone)]
pub struct Portfolio {
    pub starting_bank: Num,
    pub available_cash: Num,
    pub overall_realized_pnl: Num,
    pub entered_windows: u32,
    pub skipped_windows: u32,
    pub closed_windows: u32,
    pub wins: u32,
    pub losses: u32,
    pub clock_ms: i64,
    pub windows: Vec<WindowState>,
}

/// Cash with what the shares of windows that are not closed would sell for at their bids.
pub open spec fn worth(windows: Seq<WindowState>, cash: Num) -> Num
    decreases windows.len(),
{
    if windows.len() == 0 {
        cash
    } else {
        let rest = worth(windows.drop_last(), cash);
        let w = windows.last();
        if has_prefix(w.status@, "CLOSED"@) {
            rest
        } else {
            rest + w.up_shares * w.prices.up.bid + w.down_shares * w.prices.down.bid
        }
    }
}

/// The place of a window in the list; its length where it is missing.
pub open spec fn place(windows: Seq<WindowState>, number: usize) -> int
    decreases windows.len(),
{
    if windows.len() == 0 {
        0
    } else if windows[0].window_number == number {
        0
    } else {
        1 + place(windows.drop_first(), number)
    }
}

pub proof fn lemma_place(windows: Seq<WindowState>, number: usize)
    ensures
        0 <= place(windows, number) <= windows.len(),
        place(windows, number) < windows.len() ==> windows[place(windows, number)].window_number
            == number,
    decreases windows.len(),
{
    if windows.len() > 0 && windows[0].window_number != number {
        lemma_place(windows.drop_first(), number);
    }
}

/// Windows with the same numbers have the same places.
pub proof fn lemma_place_same(a: Seq<WindowState>, b: Seq<WindowState>, number: usize)
    requires
        a.len() == b.len(),
        forall|i: int|
            0 <= i < a.len() ==> (#[trigger] a[i]).window_number == (#[trigger] b[i]).window_number,
    ensures
        place(a, number) == place(b, number),
    decreases a.len(),
{
    if a.len() > 0 && a[0].window_number != number {
        let c = a.drop_first();
        let d = b.drop_first();
        assert forall|i: int| 0 <= i < c.len() implies (#[trigger] c[i]).window_number == (
        #[trigger] d[i]).window_number by {
            assert(c[i] == a[i + 1] && d[i] == b[i + 1]);
        }
        lemma_place_same(c, d, number);
    }
}

proof fn lemma_place_push(a: Seq<WindowState>, w: WindowState, number: usize)
    requires
        place(a, number) == a.len(),
        w.window_number == number,
    ensures
        place(a.push(w), number) == a.len(),
    decreases a.len(),
{
    if a.len() > 0 {
        assert(a.push(w)[0] == a[0]);
        assert(a.push(w).drop_first() == a.drop_first().push(w));
        lemma_place(a.drop_first(), number);
        lemma_place_push(a.drop_first(), w, number);
    }
}

pub open spec fn is_side(side: Seq<char>) -> bool {
    side == "UP"@ || side == "DOWN"@
}

/// Shares of a side in a window.
pub open spec fn held(w: WindowState, side: Seq<char>) -> Num {
    if side == "UP"@ {
        w.up_shares
    } else {
        w.down_shares
    }
}

/// One more, up to the largest count.
pub open spec fn one_more(n: u32) -> u32 {
    if n < u32::MAX {
        (n + 1) as u32
    } else {
        n
    }
}

pub fn add_one(n: u32) -> (r: u32)
    ensures
        r == one_more(n),
{
    if n < u32::MAX {
        n + 1
    } else {
        n
    }
}

/// Whether `t` records the settlement of a side's shares: redeemed at one dollar where the
/// side won, expired at nothing where it did not.
pub open spec fn settles(
    t: TradeRecord,
    clock_ms: i64,
    side: Seq<char>,
    winner: Seq<char>,
    reason: Seq<char>,
    shares: Num,
    cash_after: Num,
) -> bool {
    if side == winner {
        records(t, clock_ms, "REDEEM"@, side, reason, Num::one(), shares, shares, cash_after)
    } else {
        records(t, clock_ms, "EXPIRED"@, side, reason, Num::zero(), shares, Num::zero(), cash_after)
    }
}

impl Portfolio {
    pub open spec fn place_of(self, number: usize) -> int {
        place(self.windows@, number)
    }

    pub open spec fn has(self, number: usize) -> bool {
        self.place_of(number) < self.windows@.len()
    }

    /// Whether a buy can be booked: a known window and side, a positive price.
    pub open spec fn can_buy(self, number: usize, side: Seq<char>, price: Num) -> bool {
        self.has(number) && is_side(side) && price.gt(Num::zero())
    }

    /// Whether a sale can be booked: a known window and side, a positive price and shares
    /// that are held.
    pub open spec fn can_sell(self, number: usize, side: Seq<char>, price: Num) -> bool {
        self.has(number) && is_side(side) && price.gt(Num::zero()) && held(
            self.windows@[self.place_of(number)],
            side,
        ).gt(Num::zero())
    }

    /// Whether `t` is the portfolio `self` after a buy of `shares` for `usd`.
    pub open spec fn bought(
        self,
        t: Portfolio,
        number: usize,
        side: Seq<char>,
        usd: Num,
        shares: Num,
        price: Num,
        reason: Seq<char>,
    ) -> bool {
        let i = self.place_of(number);
        let w = self.windows@[i];
        let v = t.windows@[i];
        &&& t == (Portfolio { available_cash: t.available_cash, windows: t.windows, ..self })
        &&& t.available_cash == self.available_cash - usd
        &&& t.windows@ == self.windows@.update(i, v)
        &&& v.trades@.len() == w.trades@.len() + 1
        &&& v.trades@.drop_last() == w.trades@
        &&& records(
            v.trades@.last(),
            self.clock_ms,
            "BUY"@,
            side,
            reason,
            price,
            shares,
            usd,
            t.available_cash,
        )
        &&& v == (WindowState {
            spent: w.spent + usd,
            up_shares: if side == "UP"@ {
                w.up_shares + shares
            } else {
                w.up_shares
            },
            down_shares: if side == "UP"@ {
                w.down_shares
            } else {
                w.down_shares + shares
            },
            trades: v.trades,
            ..w
        })
    }

    /// Whether `t` is the portfolio `self` after a sale of `sold` shares for `usd`.
    pub open spec fn sold(
        self,
        t: Portfolio,
        number: usize,
        side: Seq<char>,
        sold: Num,
        usd: Num,
        price: Num,
        reason: Seq<char>,
    ) -> bool {
        let i = self.place_of(number);
        let w = self.windows@[i];
        let v = t.windows@[i];
        &&& t == (Portfolio { available_cash: t.available_cash, windows: t.windows, ..self })
        &&& t.available_cash == self.available_cash + usd
        &&& t.windows@ == self.windows@.update(i, v)
        &&& v.trades@.len() == w.trades@.len() + 1
        &&& v.trades@.drop_last() == w.trades@
        &&& records(
            v.trades@.last(),
            self.clock_ms,
            "SELL"@,
            side,
            reason,
            price,
            sold,
            usd,
            t.available_cash,
        )
        &&& v == (WindowState {
            cash_returned: w.cash_returned + usd,
            up_shares: if side == "UP"@ {
                w.up_shares - sold
            } else {
                w.up_shares
            },
            down_shares: if side == "UP"@ {
                w.down_shares
            } else {
                w.down_shares - sold
            },
            trades: v.trades,
            ..w
        })
    }

    /// The portfolio at a moment, with which its next trades are stamped.
    pub open spec fn at(self, now_ms: i64) -> Portfolio {
        Portfolio { clock_ms: now_ms, ..self }
    }

    /// Cash and what the shares of the windows that are not closed would sell for.
    pub fn equity(&self) -> (r: Num)
        ensures
            r == worth(self.windows@, self.available_cash),
    {
        let mut sum: Num = self.available_cash;
        let mut i: usize = 0;
        assert(self.windows@.take(0) == Seq::<WindowState>::empty());
        while i < self.windows.len()
            invariant
                i <= self.windows.len(),
                sum == worth(self.windows@.take(i as int), self.available_cash),
            decreases self.windows.len() - i,
        {
            let w: &WindowState = &self.windows[i];
            proof {
                let upto = self.windows@.take(i + 1);
                assert(upto.drop_last() == self.windows@.take(i as int));
                assert(upto.last() == *w);
            }
            if !starts_with(w.status.as_str(), "CLOSED") {
                sum = sum + w.up_shares * w.prices.up.bid + w.down_shares * w.prices.down.bid;
            }
            i = i + 1;
        }
        assert(self.windows@.take(i as int) == self.windows@);
        sum
    }

    pub fn new(cash: Num) -> (r: Self)
        ensures
            r.starting_bank == cash,
            r.available_cash == cash,
            r.overall_realized_pnl == Num::zero(),
            r.entered_windows == 0 && r.skipped_windows == 0 && r.closed_windows == 0,
            r.wins == 0 && r.losses == 0,
            r.clock_ms == 0,
            r.windows@ == Seq::<WindowState>::empty(),
    {
        Portfolio {
            starting_bank: cash,
            available_cash: cash,
            overall_realized_pnl: Num::zero(),
            entered_windows: 0,
            skipped_windows: 0,
            closed_windows: 0,
            wins: 0,
            losses: 0,
            clock_ms: 0,
            windows: Vec::new(),
        }
    }

    /// The place of a window in the list; the list's length where it is missing.
    pub fn find(&self, number: usize) -> (r: usize)
        ensures
            r == self.place_of(number),
            r <= self.windows.len(),
            r < self.windows.len() ==> self.windows@[r as int].window_number == number,
    {
        let mut i: usize = 0;
        proof {
            lemma_place(self.windows@, number);
            assert(self.windows@.skip(0) == self.windows@);
        }
        while i < self.windows.len()
            invariant
                i <= self.windows.len(),
                place(self.windows@, number) == i + place(self.windows@.skip(i as int), number),
            decreases self.windows.len() - i,
        {
            assert(self.windows@.skip(i as int)[0] == self.windows@[i as int]);
            if self.windows[i].window_number == number {
                return i;
            }
            assert(self.windows@.skip(i as int).drop_first() == self.windows@.skip(i + 1));
            i = i + 1;
        }
        i
    }

    fn book_buy(&mut self, i: usize, up: bool, side: &str, usd: Num, shares: Num, price: Num, reason: &str)
        requires
            i < old(self).windows@.len(),
            up == (side@ == "UP"@),
        ensures
            final(self).windows@.len() == old(self).windows@.len(),
            forall|number: usize| i == old(self).place_of(number) ==> old(self).bought(
                *final(self),
                number,
                side@,
                usd,
                shares,
                price,
                reason@,
            ),
    {
        let cash: Num = self.available_cash - usd;
        self.available_cash = cash;
        let t: TradeRecord = TradeRecord {
            timestamp: self.clock_ms,
            trade_type: "BUY".to_owned(),
            side: side.to_owned(),
            reason: reason.to_owned(),
            price,
            shares,
            usd_value: usd,
            available_cash_after: cash,
        };
        let ghost before = self.windows@;
        let w: &mut WindowState = &mut self.windows[i];
        w.spent = w.spent + usd;
        if up {
            w.up_shares = w.up_shares + shares;
        } else {
            w.down_shares = w.down_shares + shares;
        }
        w.trades.push(t);
        assert(self.windows@[i as int].trades@.drop_last() == before[i as int].trades@);
    }

    fn book_sell(&mut self, i: usize, up: bool, side: &str, sold: Num, usd: Num, price: Num, reason: &str)
        requires
            i < old(self).windows@.len(),
            up == (side@ == "UP"@),
        ensures
            final(self).windows@.len() == old(self).windows@.len(),
            forall|number: usize| i == old(self).place_of(number) ==> old(self).sold(
                *final(self),
                number,
                side@,
                sold,
                usd,
                price,
                reason@,
            ),
    {
        let cash: Num = self.available_cash + usd;
        self.available_cash = cash;
        let t: TradeRecord = TradeRecord {
            timestamp: self.clock_ms,
            trade_type: "SELL".to_owned(),
            side: side.to_owned(),
            reason: reason.to_owned(),
            price,
            shares: sold,
            usd_value: usd,
            available_cash_after: cash,
        };
        let ghost before = self.windows@;
        let w: &mut WindowState = &mut self.windows[i];
        w.cash_returned = w.cash_returned + usd;
        if up {
            w.up_shares = w.up_shares - sold;
        } else {
            w.down_shares = w.down_shares - sold;
        }
        w.trades.push(t);
        assert(self.windows@[i as int].trades@.drop_last() == before[i as int].trades@);
    }

    /// Books a buy for `usd` at `price`: cash and spending move by `usd`, shares by
    /// `usd / price`.
    pub fn execute_buy(
        &mut self,
        number: usize,
        side: &str,
        usd: Num,
        price: Num,
        reason: &str,
    ) -> (r: Option<Num>)
        ensures
            r is Some <==> old(self).can_buy(number, side@, price),
            match r {
                Some(shares) => shares == usd / price && old(self).bought(
                    *final(self),
                    number,
                    side@,
                    usd,
                    shares,
                    price,
                    reason@,
                ),
                None => *final(self) == *old(self),
            },
    {
        let i: usize = self.find(number);
        let up: bool = same_text(side, "UP");
        if i >= self.windows.len() || !(up || same_text(side, "DOWN")) || !price.gt(Num::zero()) {
            return None;
        }
        let shares: Num = usd / price;
        self.book_buy(i, up, side, usd, shares, price, reason);
        Some(shares)
    }

    /// Books a sale at `price` of up to `shares` of what is held.
    pub fn execute_sell(
        &mut self,
        number: usize,
        side: &str,
        shares: Num,
        price: Num,
        reason: &str,
    ) -> (r: Option<Num>)
        ensures
            r is Some <==> old(self).can_sell(number, side@, price),
            match r {
                Some(usd) => {
                    let sold = shares.min(
                        held(old(self).windows@[old(self).place_of(number)], side@),
                    );
                    usd == sold * price && old(self).sold(
                        *final(self),
                        number,
                        side@,
                        sold,
                        usd,
                        price,
                        reason@,
                    )
                },
                None => *final(self) == *old(self),
            },
    {
        let i: usize = self.find(number);
        let up: bool = same_text(side, "UP");
        if i >= self.windows.len() || !(up || same_text(side, "DOWN")) || !price.gt(Num::zero()) {
            return None;
        }
        let own: Num = if up {
            self.windows[i].up_shares
        } else {
            self.windows[i].down_shares
        };
        if !own.gt(Num::zero()) {
            return None;
        }
        let sold: Num = shares.min(own);
        let usd: Num = sold * price;
        self.book_sell(i, up, side, sold, usd, price, reason);
        Some(usd)
    }

    /// Whether an outside fill can be booked: a known window and side, positive figures.
    pub open spec fn can_record(self, number: usize, side: Seq<char>, usd: Num, shares: Num) -> bool {
        self.has(number) && is_side(side) && usd.gt(Num::zero()) && shares.gt(Num::zero())
    }

    /// Books a buy that was filled elsewhere.
    pub fn record_external_buy(
        &mut self,
        number: usize,
        side: &str,
        usd: Num,
        shares: Num,
        avg_price: Num,
        reason: &str,
    ) -> (r: bool)
        ensures
            r == old(self).can_record(number, side@, usd, shares),
            r ==> old(self).bought(*final(self), number, side@, usd, shares, avg_price, reason@),
            !r ==> *final(self) == *old(self),
    {
        let i: usize = self.find(number);
        let up: bool = same_text(side, "UP");
        if i >= self.windows.len() || !(up || same_text(side, "DOWN")) || !usd.gt(Num::zero())
            || !shares.gt(Num::zero()) {
            return false;
        }
        self.book_buy(i, up, side, usd, shares, avg_price, reason);
        true
    }

    /// Books a sale that was filled elsewhere.
    pub fn record_external_sell(
        &mut self,
        number: usize,
        side: &str,
        shares: Num,
        usd: Num,
        avg_price: Num,
        reason: &str,
    ) -> (r: bool)
        ensures
            r == old(self).can_record(number, side@, usd, shares),
            r ==> old(self).sold(*final(self), number, side@, shares, usd, avg_price, reason@),
            !r ==> *final(self) == *old(self),
    {
        let i: usize = self.find(number);
        let up: bool = same_text(side, "UP");
        if i >= self.windows.len() || !(up || same_text(side, "DOWN")) || !usd.gt(Num::zero())
            || !shares.gt(Num::zero()) {
            return false;
        }
        self.book_sell(i, up, side, shares, usd, avg_price, reason);
        true
    }

    /// Whether `t` is the portfolio `self` with a window there: an existing one takes on a
    /// role that is not empty, a missing one is added.
    pub open spec fn with_window(
        self,
        t: Portfolio,
        number: usize,
        role: Seq<char>,
        market: MarketView,
    ) -> bool {
        let i = self.place_of(number);
        &&& t == (Portfolio { windows: t.windows, ..self })
        &&& t.windows@.len() == if self.has(number) {
            self.windows@.len()
        } else {
            self.windows@.len() + 1
        }
        &&& t.place_of(number) == i
        &&& if self.has(number) {
            let w = self.windows@[i];
            let v = t.windows@[i];
            &&& t.windows@ == self.windows@.update(i, v)
            &&& v == (WindowState { role: v.role, ..w })
            &&& v.role@ == if role.len() > 0 {
                role
            } else {
                w.role@
            }
        } else {
            t.windows@.drop_last() == self.windows@ && is_fresh(
                t.windows@[i],
                number,
                role,
                market,
            )
        }
    }

    /// The place of a window, which is added where it is missing.
    pub fn get_or_create_window_state(
        &mut self,
        number: usize,
        role: &str,
        market: &MarketWindow,
    ) -> (r: usize)
        ensures
            old(self).with_window(*final(self), number, role@, market@),
            r == final(self).place_of(number),
            r < final(self).windows@.len(),
    {
        let i: usize = self.find(number);
        let ghost before = self.windows@;
        if i < self.windows.len() {
            if role.unicode_len() > 0 {
                self.windows[i].role = role.to_owned();
            }
            proof {
                lemma_place_same(before, self.windows@, number);
                assert(self.windows@ =~= before.update(i as int, self.windows@[i as int]));
            }
        } else {
            let w: WindowState = WindowState {
                window_number: number,
                role: role.to_owned(),
                status: "WAITING_ENTRY".to_owned(),
                market: copy_market(market),
                spent: Num::zero(),
                cash_returned: Num::zero(),
                up_shares: Num::zero(),
                down_shares: Num::zero(),
                initial_up_shares: Num::zero(),
                initial_down_shares: Num::zero(),
                trades: Vec::new(),
                prices: PricesState {
                    up: ContractPrices::default(),
                    down: ContractPrices::default(),
                },
            };
            self.windows.push(w);
            proof {
                lemma_place(before, number);
                lemma_place_push(before, w, number);
                assert(self.windows@.drop_last() =~= before);
            }
        }
        i
    }

    /// Whether `t` is the portfolio `self` with every current window retired.
    pub open spec fn retired(self, t: Portfolio) -> bool {
        &&& t == (Portfolio { windows: t.windows, ..self })
        &&& t.windows@.len() == self.windows@.len()
        &&& forall|i: int|
            0 <= i < t.windows@.len() ==> (#[trigger] t.windows@[i]) == (WindowState {
                role: t.windows@[i].role,
                ..self.windows@[i]
            }) && t.windows@[i].role@ == if self.windows@[i].role@ == "CURRENT"@ {
                "PAST"@
            } else {
                self.windows@[i].role@
            }
    }

    /// Gives every window in the role CURRENT the role PAST.
    pub fn retire_current(&mut self)
        ensures
            old(self).retired(*final(self)),
    {
        let ghost before = *self;
        let mut i: usize = 0;
        while i < self.windows.len()
            invariant
                i <= self.windows@.len(),
                *self == (Portfolio { windows: self.windows, ..before }),
                self.windows@.len() == before.windows@.len(),
                forall|j: int| i <= j < self.windows@.len() ==> self.windows@[j] == before.windows@[j],
                forall|j: int|
                    0 <= j < i ==> (#[trigger] self.windows@[j]) == (WindowState {
                        role: self.windows@[j].role,
                        ..before.windows@[j]
                    }) && self.windows@[j].role@ == if before.windows@[j].role@ == "CURRENT"@ {
                        "PAST"@
                    } else {
                        before.windows@[j].role@
                    },
            decreases self.windows@.len() - i,
        {
            if same_text(self.windows[i].role.as_str(), "CURRENT") {
                self.windows[i].role = "PAST".to_owned();
            }
            i = i + 1;
        }
    }

    /// Whether `t` is the portfolio `self` after a window was closed with a winner, `UP` or
    /// `DOWN`; without one nothing is redeemed and the shares stay.
    pub open spec fn closed(self, t: Portfolio, number: usize, status: Seq<char>, winner: Seq<char>) -> bool {
        let i = self.place_of(number);
        let w = self.windows@[i];
        let v = t.windows@[i];
        let known = is_side(winner);
        let up = known && w.up_shares.gt(Num::zero());
        let down = known && w.down_shares.gt(Num::zero());
        let n = w.trades@.len();
        let cash_up = if up && winner == "UP"@ {
            self.available_cash + w.up_shares
        } else {
            self.available_cash
        };
        let cash_down = if down && winner == "DOWN"@ {
            cash_up + w.down_shares
        } else {
            cash_up
        };
        let back_up = if up && winner == "UP"@ {
            w.cash_returned + w.up_shares
        } else {
            w.cash_returned
        };
        let back = if down && winner == "DOWN"@ {
            back_up + w.down_shares
        } else {
            back_up
        };
        let pnl = back - w.spent;
        let traded = w.spent.gt(Num::zero());
        &&& t == (Portfolio {
            available_cash: cash_down,
            overall_realized_pnl: if traded {
                self.overall_realized_pnl + pnl
            } else {
                self.overall_realized_pnl
            },
            closed_windows: if w.status@ == "LIVE"@ {
                one_more(self.closed_windows)
            } else {
                self.closed_windows
            },
            wins: if traded && pnl.gt(Num::zero()) {
                one_more(self.wins)
            } else {
                self.wins
            },
            losses: if traded && !pnl.gt(Num::zero()) {
                one_more(self.losses)
            } else {
                self.losses
            },
            windows: t.windows,
            ..self
        })
        &&& t.windows@ == self.windows@.update(i, v)
        &&& v == (WindowState {
            role: v.role,
            status: v.status,
            cash_returned: back,
            up_shares: if known {
                Num::zero()
            } else {
                w.up_shares
            },
            down_shares: if known {
                Num::zero()
            } else {
                w.down_shares
            },
            trades: v.trades,
            ..w
        })
        &&& v.role@ == "PAST"@
        &&& v.status@ == status
        &&& v.trades@.len() == n + (if up {
            1int
        } else {
            0
        }) + (if down {
            1int
        } else {
            0
        })
        &&& v.trades@.take(n as int) == w.trades@
        &&& up ==> settles(v.trades@[n as int], self.clock_ms, "UP"@, winner, status, w.up_shares, cash_up)
        &&& down ==> settles(
            v.trades@.last(),
            self.clock_ms,
            "DOWN"@,
            winner,
            status,
            w.down_shares,
            cash_down,
        )
    }

    fn settle_side(&mut self, i: usize, up: bool, won: bool, reason: &str)
        requires
            i < old(self).windows@.len(),
        ensures
            ({
                let w = old(self).windows@[i as int];
                let v = final(self).windows@[i as int];
                let shares = if up {
                    w.up_shares
                } else {
                    w.down_shares
                };
                let cash = if won {
                    old(self).available_cash + shares
                } else {
                    old(self).available_cash
                };
                &&& *final(self) == (Portfolio {
                    available_cash: cash,
                    windows: final(self).windows,
                    ..*old(self)
                })
                &&& final(self).windows@ == old(self).windows@.update(i as int, v)
                &&& v == (WindowState {
                    cash_returned: if won {
                        w.cash_returned + shares
                    } else {
                        w.cash_returned
                    },
                    trades: v.trades,
                    ..w
                })
                &&& v.trades@.len() == w.trades@.len() + 1
                &&& v.trades@.drop_last() == w.trades@
                &&& settles(
                    v.trades@.last(),
                    old(self).clock_ms,
                    if up {
                        "UP"@
                    } else {
                        "DOWN"@
                    },
                    if won == up {
                        "UP"@
                    } else {
                        "DOWN"@
                    },
                    reason@,
                    shares,
                    cash,
                )
            }),
    {
        proof {
            reveal_strlit("UP");
            reveal_strlit("DOWN");
            assert("UP"@.len() != "DOWN"@.len());
        }
        let ghost before = self.windows@;
        let shares: Num = if up {
            self.windows[i].up_shares
        } else {
            self.windows[i].down_shares
        };
        if won {
            self.available_cash = self.available_cash + shares;
        }
        let t: TradeRecord = TradeRecord {
            timestamp: self.clock_ms,
            trade_type: if won {
                "REDEEM".to_owned()
            } else {
                "EXPIRED".to_owned()
            },
            side: if up {
                "UP".to_owned()
            } else {
                "DOWN".to_owned()
            },
            reason: reason.to_owned(),
            price: if won {
                Num::one()
            } else {
                Num::zero()
            },
            shares,
            usd_value: if won {
                shares
            } else {
                Num::zero()
            },
            available_cash_after: self.available_cash,
        };
        let w: &mut WindowState = &mut self.windows[i];
        if won {
            w.cash_returned = w.cash_returned + shares;
        }
        w.trades.push(t);
        assert(self.windows@ =~= before.update(i as int, self.windows@[i as int]));
        assert(self.windows@[i as int].trades@.drop_last() =~= before[i as int].trades@);
    }

    /// Closes a window: the winner's shares redeem at one dollar each, the others expire.
    pub fn close_window(&mut self, number: usize, status: &str, winner: &str)
        ensures
            old(self).has(number) ==> old(self).closed(*final(self), number, status@, winner@),
            !old(self).has(number) ==> *final(self) == *old(self),
    {
        proof {
            reveal_strlit("UP");
            reveal_strlit("DOWN");
            assert("UP"@.len() != "DOWN"@.len());
        }
        let i: usize = self.find(number);
        if i >= self.windows.len() {
            return;
        }
        let ghost w0 = self.windows@[i as int];
        let ghost n = w0.trades@.len();
        let up_won: bool = same_text(winner, "UP");
        let down_won: bool = same_text(winner, "DOWN");
        let was_live: bool = same_text(self.windows[i].status.as_str(), "LIVE");
        let traded: bool = self.windows[i].spent.gt(Num::zero());
        if up_won || down_won {
            if self.windows[i].up_shares.gt(Num::zero()) {
                self.settle_side(i, true, up_won, status);
                assert(self.windows@[i as int].trades@.take(n as int) =~= w0.trades@);
            }
            let ghost w1 = self.windows@[i as int];
            assert(w1.trades@.take(n as int) =~= w0.trades@);
            if self.windows[i].down_shares.gt(Num::zero()) {
                self.settle_side(i, false, down_won, status);
                assert(self.windows@[i as int].trades@.take(n as int) =~= w1.trades@.take(n as int));
                assert(w1.trades@.len() > n ==> self.windows@[i as int].trades@[n as int]
                    == self.windows@[i as int].trades@.drop_last()[n as int]);
            }
            self.windows[i].up_shares = Num::zero();
            self.windows[i].down_shares = Num::zero();
        }
        self.windows[i].role = "PAST".to_owned();
        self.windows[i].status = status.to_owned();
        let pnl: Num = self.windows[i].cash_returned - self.windows[i].spent;
        if was_live {
            self.closed_windows = add_one(self.closed_windows);
        }
        if traded {
            self.overall_realized_pnl = self.overall_realized_pnl + pnl;
            if pnl.gt(Num::zero()) {
                self.wins = add_one(self.wins);
            } else {
                self.losses = add_one(self.losses);
            }
        }
        assert(self.windows@ =~= old(self).windows@.update(i as int, self.windows@[i as int]));
        assert(self.windows@[i as int].trades@.take(n as int) =~= w0.trades@);
    }
}

} // verus!
