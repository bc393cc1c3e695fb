//! Short-term trade flow on a centralised exchange.
use crate::num::Num;
use crate::num_error::{lemma_billionth, lemma_one_times, lemma_sub_finite};
use crate::num_laws::{
    lemma_add_comm, lemma_add_grows, lemma_add_key, lemma_add_nonneg, lemma_div_mag, lemma_div_order,
    lemma_div_share, lemma_mul_comm, lemma_mul_mag, lemma_negated, lemma_one_units, lemma_ratio_one,
    lemma_self_quotient, lemma_skey_exact, lemma_skey_mono, lemma_sub_nonneg, lemma_sub_shrinks,
    lemma_sub_turned, lemma_thousand, lemma_val_order, lemma_whole_is_uint, lemma_zero_sum, nonneg,
};
use crate::num_ops::{lemma_ratio_mono, lemma_ratio_nonneg, lemma_uint_is_ratio};
use crate::number_text::{ascii_lower, num_of_text, parse_num};
use crate::rounding::{lemma_encode_exact, lemma_encode_mono, units};
use crate::text::{lower_same, same_text};
use vstd::prelude::*;

verus! {

/// Milliseconds for which trades are kept.
pub const TRADE_BUFFER_MS: i64 = 10_000;

#[derive(Debug, Clone, Copy)]
pub struct TradeTick {
    pub timestamp_ms: i64,
    pub price: Num,
    pub qty: Num,
    pub is_buy: bool,
}

#[derive(Debug, Clone, Copy)]
pub struct CexMicroSnapshot {
    pub trade_velocity_1s: Option<Num>,
    pub trade_velocity_3s: Option<Num>,
    pub trade_velocity_5s: Option<Num>,
    pub buy_sell_imbalance_3s: Num,
    pub last_trade_price: Num,
    pub lead_vs_chainlink_bps: Option<Num>,
    pub trade_count_3s: u32,
}

impl Default for CexMicroSnapshot {
    fn default() -> (r: Self)
        ensures
            r == (CexMicroSnapshot {
                trade_velocity_1s: None,
                trade_velocity_3s: None,
                trade_velocity_5s: None,
                buy_sell_imbalance_3s: Num::zero(),
                last_trade_price: Num::zero(),
                lead_vs_chainlink_bps: None,
                trade_count_3s: 0,
            }),
    {
        CexMicroSnapshot {
            trade_velocity_1s: None,
            trade_velocity_3s: None,
            trade_velocity_5s: None,
            buy_sell_imbalance_3s: Num::zero(),
            last_trade_price: Num::zero(),
            lead_vs_chainlink_bps: None,
            trade_count_3s: 0,
        }
    }
}

/// A trade as the exchange's feed reports it, price and size as text.
#[derive(Debug)]
pub struct BybitTradeData {
    pub timestamp_ms: i64,
    pub p: String,
    pub v: String,
    pub side: String,
}

/// A message of the exchange's feed.
#[derive(Debug)]
pub struct BybitTradeResponse {
    pub topic: Option<String>,
    pub data: Option<Vec<BybitTradeData>>,
}

impl BybitTradeResponse {
    /// The trades that the message reports; none where it is not of the trade topic.
    pub open spec fn reports(self) -> Option<Seq<BybitTradeData>> {
        match (self.topic, self.data) {
            (Some(topic), Some(data)) => if topic@ == "publicTrade.BTCUSDT"@ {
                Some(data@)
            } else {
                None
            },
            _ => None,
        }
    }
}

pub open spec fn num_or_zero(s: Seq<char>) -> Num {
    match num_of_text(s) {
        Some(x) => x,
        None => Num::zero(),
    }
}

fn parse_or_zero(s: &str) -> (r: Num)
    ensures
        r == num_or_zero(s@),
{
    match parse_num(s) {
        Some(x) => x,
        None => Num::zero(),
    }
}

/// Whether a reported trade has a positive price and size.
pub open spec fn is_trade(d: BybitTradeData) -> bool {
    !num_or_zero(d.p@).le(Num::zero()) && !num_or_zero(d.v@).le(Num::zero())
}

pub open spec fn tick_of(d: BybitTradeData) -> TradeTick {
    TradeTick {
        timestamp_ms: d.timestamp_ms,
        price: num_or_zero(d.p@),
        qty: num_or_zero(d.v@),
        is_buy: d.side@.map_values(|c: char| ascii_lower(c)) == seq!['b', 'u', 'y'],
    }
}

/// The trades among the reports, in their order.
pub open spec fn ticks_of(data: Seq<BybitTradeData>) -> Seq<TradeTick>
    decreases data.len(),
{
    if data.len() == 0 {
        Seq::<TradeTick>::empty()
    } else if is_trade(data.last()) {
        ticks_of(data.drop_last()).push(tick_of(data.last()))
    } else {
        ticks_of(data.drop_last())
    }
}

/// The trades from the first one that is not older than the cutoff.
pub open spec fn since(trades: Seq<TradeTick>, cutoff: int) -> Seq<TradeTick>
    decreases trades.len(),
{
    if trades.len() == 0 || trades[0].timestamp_ms >= cutoff {
        trades
    } else {
        since(trades.drop_first(), cutoff)
    }
}

/// The recent trades, oldest first, and the last price.
#[derive(Debug, Clone)]
pub struct CexMicroManager {
    pub trades: Vec<TradeTick>,
    pub last_trade_price: Num,
}

impl CexMicroManager {
    pub fn new() -> (r: Self)
        ensures
            r.trades@ == Seq::<TradeTick>::empty(),
            r.last_trade_price == Num::zero(),
    {
        CexMicroManager { trades: Vec::new(), last_trade_price: Num::zero() }
    }

    /// Whether `t` is `self` after a batch of reports.
    pub open spec fn takes_in(self, t: CexMicroManager, data: Seq<BybitTradeData>, now_ms: i64) -> bool {
        let new = ticks_of(data);
        &&& t.trades@ == since(self.trades@ + new, now_ms - TRADE_BUFFER_MS)
        &&& t.last_trade_price == if new.len() > 0 {
            new.last().price
        } else {
            self.last_trade_price
        }
    }

    /// Takes in a message of the feed: the reports of the trade topic, and nothing of any
    /// other message.
    pub fn ingest_message(&mut self, message: &BybitTradeResponse, now_ms: i64)
        requires
            now_ms >= i64::MIN + TRADE_BUFFER_MS,
        ensures
            match message.reports() {
                Some(data) => old(self).takes_in(*final(self), data, now_ms),
                None => *final(self) == *old(self),
            },
    {
        if let (Some(topic), Some(data)) = (&message.topic, &message.data) {
            if same_text(topic.as_str(), "publicTrade.BTCUSDT") {
                self.ingest(data.as_slice(), now_ms);
            }
        }
    }

    /// Takes in a batch of reported trades, and lets go of the trades that lie more than
    /// the buffer time back.
    pub fn ingest(&mut self, data: &[BybitTradeData], now_ms: i64)
        requires
            now_ms >= i64::MIN + TRADE_BUFFER_MS,
        ensures
            old(self).takes_in(*final(self), data@, now_ms),
    {
        let mut i: usize = 0;
        proof {
            assert(data@.take(0) == Seq::<BybitTradeData>::empty());
            assert(self.trades@ + Seq::<TradeTick>::empty() == self.trades@);
        }
        while i < data.len()
            invariant
                i <= data.len(),
                self.trades@ == old(self).trades@ + ticks_of(data@.take(i as int)),
                self.last_trade_price == if ticks_of(data@.take(i as int)).len() > 0 {
                    ticks_of(data@.take(i as int)).last().price
                } else {
                    old(self).last_trade_price
                },
            decreases data.len() - i,
        {
            let d: &BybitTradeData = &data[i];
            let price: Num = parse_or_zero(d.p.as_str());
            let qty: Num = parse_or_zero(d.v.as_str());
            proof {
                assert(data@.take(i + 1).drop_last() == data@.take(i as int));
                assert(data@.take(i + 1).last() == *d);
            }
            let ghost done = ticks_of(data@.take(i as int));
            if !(price.le(Num::zero()) || qty.le(Num::zero())) {
                self.last_trade_price = price;
                let is_buy: bool = lower_same(d.side.as_str(), &['b', 'u', 'y']);
                let tick: TradeTick = TradeTick {
                    timestamp_ms: d.timestamp_ms,
                    price,
                    qty,
                    is_buy,
                };
                self.trades.push(tick);
                assert(self.trades@ =~= old(self).trades@ + done.push(tick));
            }
            i = i + 1;
        }
        assert(data@.take(data.len() as int) == data@);
        let cutoff: i64 = now_ms - TRADE_BUFFER_MS;
        let ghost all = self.trades@;
        let mut k: usize = 0;
        assert(all.skip(0) == all);
        while k < self.trades.len() && self.trades[k].timestamp_ms < cutoff
            invariant
                k <= self.trades.len(),
                self.trades@ == all,
                since(all, cutoff as int) == since(all.skip(k as int), cutoff as int),
            decreases self.trades.len() - k,
        {
            assert(all.skip(k as int)[0] == all[k as int]);
            assert(all.skip(k as int).drop_first() == all.skip(k + 1));
            k = k + 1;
        }
        assert(k < all.len() ==> all.skip(k as int)[0] == all[k as int]);
        let mut kept: Vec<TradeTick> = Vec::new();
        let n: usize = self.trades.len();
        let mut j: usize = k;
        while j < n
            invariant
                k <= j <= n,
                n == self.trades.len(),
                self.trades@ == all,
                kept@ == all.subrange(k as int, j as int),
            decreases n - j,
        {
            kept.push(self.trades[j]);
            j = j + 1;
        }
        assert(kept@ == all.skip(k as int));
        self.trades = kept;
    }

    /// The flow of the last seconds, as of a moment.
    pub open spec fn flow_at(self, chainlink_spot: Option<Num>, now_ms: i64) -> CexMicroSnapshot {
        CexMicroSnapshot {
            trade_velocity_1s: velocity(self.trades@, now_ms, 1_000),
            trade_velocity_3s: velocity(self.trades@, now_ms, 3_000),
            trade_velocity_5s: velocity(self.trades@, now_ms, 5_000),
            buy_sell_imbalance_3s: imbalance(self.trades@, now_ms - 3_000),
            last_trade_price: self.last_trade_price,
            lead_vs_chainlink_bps: lead_bps(self.last_trade_price, chainlink_spot),
            trade_count_3s: recent(self.trades@, now_ms - 3_000).len() as u32,
        }
    }

    /// The flow of the last seconds, as of `now_ms`.
    pub fn snapshot(&self, chainlink_spot: Option<Num>, now_ms: i64) -> (r: CexMicroSnapshot)
        requires
            now_ms >= i64::MIN + 5_000,
            self.trades@.len() <= u32::MAX,
        ensures
            r.trade_velocity_1s == velocity(self.trades@, now_ms, 1_000),
            r.trade_velocity_3s == velocity(self.trades@, now_ms, 3_000),
            r.trade_velocity_5s == velocity(self.trades@, now_ms, 5_000),
            r.buy_sell_imbalance_3s == imbalance(self.trades@, now_ms - 3_000),
            r.trade_count_3s == recent(self.trades@, now_ms - 3_000).len(),
            r.last_trade_price == self.last_trade_price,
            r.lead_vs_chainlink_bps == match chainlink_spot {
                Some(cl) => if cl.gt(Num::zero()) && self.last_trade_price.gt(Num::zero()) {
                    Some((self.last_trade_price - cl) / cl * Num::uint(10_000))
                } else {
                    None
                },
                None => None,
            },
            r == self.flow_at(chainlink_spot, now_ms),
    {
        let cex: Num = self.last_trade_price;
        let (imbalance_3s, count_3s): (Num, u32) = buy_sell_imbalance(
            self.trades.as_slice(),
            now_ms,
            3_000,
        );
        let lead: Option<Num> = match chainlink_spot {
            Some(cl) => if cl.gt(Num::zero()) && cex.gt(Num::zero()) {
                Some((cex - cl) / cl * Num::uint(10_000))
            } else {
                None
            },
            None => None,
        };
        CexMicroSnapshot {
            trade_velocity_1s: trade_velocity_usd_per_sec(self.trades.as_slice(), now_ms, 1_000),
            trade_velocity_3s: trade_velocity_usd_per_sec(self.trades.as_slice(), now_ms, 3_000),
            trade_velocity_5s: trade_velocity_usd_per_sec(self.trades.as_slice(), now_ms, 5_000),
            buy_sell_imbalance_3s: imbalance_3s,
            last_trade_price: cex,
            lead_vs_chainlink_bps: lead,
            trade_count_3s: count_3s,
        }
    }
}

impl Default for CexMicroManager {
    fn default() -> (r: Self)
        ensures
            r.trades@ == Seq::<TradeTick>::empty(),
            r.last_trade_price == Num::zero(),
    {
        CexMicroManager::new()
    }
}

/// How far the exchange's last price stands from the spot, in basis points of the spot;
/// none where either is not positive.
pub open spec fn lead_bps(last: Num, spot: Option<Num>) -> Option<Num> {
    match spot {
        Some(cl) => if cl.gt(Num::zero()) && last.gt(Num::zero()) {
            Some((last - cl) / cl * Num::uint(10_000))
        } else {
            None
        },
        None => None,
    }
}

/// The newest trades back to the first one older than the cutoff.
pub open spec fn recent(trades: Seq<TradeTick>, cutoff: int) -> Seq<TradeTick>
    decreases trades.len(),
{
    if trades.len() == 0 || trades.last().timestamp_ms < cutoff {
        Seq::<TradeTick>::empty()
    } else {
        recent(trades.drop_last(), cutoff).push(trades.last())
    }
}

/// Signed notional of trades, summed from the newest back.
pub open spec fn net_notional(trades: Seq<TradeTick>, acc: Num) -> Num
    decreases trades.len(),
{
    if trades.len() == 0 {
        acc
    } else {
        let t = trades.last();
        let sign = if t.is_buy {
            Num::one()
        } else {
            Num::one().negated()
        };
        net_notional(trades.drop_last(), acc + sign * t.price * t.qty)
    }
}

/// The earliest time stamp of trades, at most `until`.
pub open spec fn earliest(trades: Seq<TradeTick>, until: i64) -> i64
    decreases trades.len(),
{
    if trades.len() == 0 {
        until
    } else {
        let t = trades.last().timestamp_ms;
        earliest(
            trades.drop_last(),
            if t < until {
                t
            } else {
                until
            },
        )
    }
}

/// Net notional per second within the window; none without a trade in it.
pub open spec fn velocity(trades: Seq<TradeTick>, now_ms: i64, window_ms: i64) -> Option<Num> {
    let seen = recent(trades, now_ms - window_ms);
    if seen.len() == 0 {
        None
    } else {
        let dt = (Num::whole((now_ms - earliest(seen, now_ms)) as i64) / Num::uint(1000)).max(
            Num::ratio(1, 1000),
        );
        Some(net_notional(seen, Num::zero()) / dt)
    }
}

/// Notional of the buys, or of the sales, summed from the newest back.
pub open spec fn volume(trades: Seq<TradeTick>, buys: bool, acc: Num) -> Num
    decreases trades.len(),
{
    if trades.len() == 0 {
        acc
    } else {
        let t = trades.last();
        volume(
            trades.drop_last(),
            buys,
            if t.is_buy == buys {
                acc + t.price * t.qty
            } else {
                acc
            },
        )
    }
}

/// Balance of buys over sales since the cutoff.
pub open spec fn imbalance(trades: Seq<TradeTick>, cutoff: int) -> Num {
    let seen = recent(trades, cutoff);
    let b = volume(seen, true, Num::zero());
    let s = volume(seen, false, Num::zero());
    if (b + s).le(Num::zero()) {
        Num::zero()
    } else {
        (b - s) / (b + s)
    }
}

proof fn lemma_recent(trades: Seq<TradeTick>, cutoff: int, i: int)
    requires
        0 <= i <= trades.len(),
        forall|j: int| i <= j < trades.len() ==> (#[trigger] trades[j]).timestamp_ms >= cutoff,
    ensures
        recent(trades, cutoff) == recent(trades.take(i), cutoff) + trades.skip(i),
    decreases trades.len() - i,
{
    if i < trades.len() {
        let d = trades.drop_last();
        assert(trades[trades.len() - 1].timestamp_ms >= cutoff);
        assert forall|j: int| i <= j < d.len() implies (#[trigger] d[j]).timestamp_ms >= cutoff by {
            assert(d[j] == trades[j]);
        }
        lemma_recent(d, cutoff, i);
        assert(d.take(i) == trades.take(i));
        assert(d.skip(i).push(trades.last()) == trades.skip(i));
        assert((recent(d.take(i), cutoff) + d.skip(i)).push(trades.last()) == recent(
            trades.take(i),
            cutoff,
        ) + trades.skip(i));
    } else {
        assert(trades.take(i) == trades);
        assert(trades.skip(i) == Seq::<TradeTick>::empty());
        assert(recent(trades, cutoff) + Seq::<TradeTick>::empty() == recent(trades, cutoff));
    }
}

proof fn lemma_earliest_bounds(trades: Seq<TradeTick>, until: i64, cutoff: int)
    requires
        forall|j: int| 0 <= j < trades.len() ==> (#[trigger] trades[j]).timestamp_ms >= cutoff,
        until >= cutoff,
    ensures
        cutoff <= earliest(trades, until) <= until,
    decreases trades.len(),
{
    if trades.len() > 0 {
        let d = trades.drop_last();
        let t = trades[trades.len() - 1].timestamp_ms;
        assert forall|j: int| 0 <= j < d.len() implies (#[trigger] d[j]).timestamp_ms >= cutoff by {
            assert(d[j] == trades[j]);
        }
        lemma_earliest_bounds(
            d,
            if t < until {
                t
            } else {
                until
            },
            cutoff,
        );
    }
}

/// The place where the trades since the cutoff begin.
fn recent_from(trades: &[TradeTick], cutoff: i64) -> (r: usize)
    ensures
        r <= trades.len(),
        recent(trades@, cutoff as int) == trades@.skip(r as int),
        forall|j: int| r <= j < trades.len() ==> (#[trigger] trades@[j]).timestamp_ms >= cutoff,
{
    let mut i: usize = trades.len();
    while i > 0 && trades[i - 1].timestamp_ms >= cutoff
        invariant
            i <= trades.len(),
            forall|j: int| i <= j < trades.len() ==> (#[trigger] trades@[j]).timestamp_ms >= cutoff,
        decreases i,
    {
        i = i - 1;
    }
    proof {
        lemma_recent(trades@, cutoff as int, i as int);
        if i > 0 {
            assert(trades@.take(i as int).last() == trades@[i - 1]);
        }
        assert(recent(trades@.take(i as int), cutoff as int) == Seq::<TradeTick>::empty());
        assert(Seq::<TradeTick>::empty() + trades@.skip(i as int) == trades@.skip(i as int));
    }
    i
}

/// Net notional per second over the last `window_ms`; none without a trade in it.
pub fn trade_velocity_usd_per_sec(trades: &[TradeTick], now_ms: i64, window_ms: i64) -> (r: Option<
    Num,
>)
    requires
        0 <= window_ms,
        now_ms - window_ms >= i64::MIN,
    ensures
        r == velocity(trades@, now_ms, window_ms),
{
    let cutoff: i64 = now_ms - window_ms;
    let from: usize = recent_from(trades, cutoff);
    let ghost seen = trades@.skip(from as int);
    if from == trades.len() {
        return None;
    }
    let mut notional: Num = Num::zero();
    let mut first: i64 = now_ms;
    let mut i: usize = trades.len();
    assert(seen.take(seen.len() as int) == seen);
    while i > from
        invariant
            from <= i <= trades.len(),
            seen == trades@.skip(from as int),
            net_notional(seen, Num::zero()) == net_notional(seen.take(i - from), notional),
            earliest(seen, now_ms) == earliest(seen.take(i - from), first),
        decreases i,
    {
        let t: &TradeTick = &trades[i - 1];
        proof {
            let s = seen.take(i - from);
            assert(s.last() == *t);
            assert(s.drop_last() == seen.take(i - 1 - from));
        }
        let sign: Num = if t.is_buy {
            Num::one()
        } else {
            Num::one().negated()
        };
        notional = notional + sign * t.price * t.qty;
        if t.timestamp_ms < first {
            first = t.timestamp_ms;
        }
        i = i - 1;
    }
    proof {
        assert(seen.take(0) == Seq::<TradeTick>::empty());
        assert forall|j: int| 0 <= j < seen.len() implies (#[trigger] seen[j]).timestamp_ms
            >= cutoff by {
            assert(seen[j] == trades@[j + from]);
        }
        lemma_earliest_bounds(seen, now_ms, cutoff as int);
    }
    let dt: Num = (Num::whole(now_ms - first) / Num::uint(1000)).max(Num::ratio(1, 1000));
    Some(notional / dt)
}

/// Balance of buys over sales in the last `window_ms`, and the number of trades.
pub fn buy_sell_imbalance(trades: &[TradeTick], now_ms: i64, window_ms: i64) -> (r: (Num, u32))
    requires
        0 <= window_ms,
        now_ms - window_ms >= i64::MIN,
        trades@.len() <= u32::MAX,
    ensures
        r.0 == imbalance(trades@, now_ms - window_ms),
        r.1 == recent(trades@, now_ms - window_ms).len(),
{
    let cutoff: i64 = now_ms - window_ms;
    let from: usize = recent_from(trades, cutoff);
    let ghost seen = trades@.skip(from as int);
    let mut buy_vol: Num = Num::zero();
    let mut sell_vol: Num = Num::zero();
    let mut i: usize = trades.len();
    assert(seen.take(seen.len() as int) == seen);
    while i > from
        invariant
            from <= i <= trades.len(),
            seen == trades@.skip(from as int),
            volume(seen, true, Num::zero()) == volume(seen.take(i - from), true, buy_vol),
            volume(seen, false, Num::zero()) == volume(seen.take(i - from), false, sell_vol),
        decreases i,
    {
        let t: &TradeTick = &trades[i - 1];
        proof {
            let s = seen.take(i - from);
            assert(s.last() == *t);
            assert(s.drop_last() == seen.take(i - 1 - from));
        }
        let usd: Num = t.price * t.qty;
        if t.is_buy {
            buy_vol = buy_vol + usd;
        } else {
            sell_vol = sell_vol + usd;
        }
        i = i - 1;
    }
    assert(seen.take(0) == Seq::<TradeTick>::empty());
    let count: u32 = (trades.len() - from) as u32;
    let total: Num = buy_vol + sell_vol;
    if total.le(Num::zero()) {
        (Num::zero(), count)
    } else {
        ((buy_vol - sell_vol) / total, count)
    }
}

/// Whether the exchange trades against a side faster than the veto speed.
pub open spec fn velocity_against(up: bool, v: Option<Num>) -> bool {
    let sign = if up {
        Num::one()
    } else {
        Num::one().negated()
    };
    v matches Some(x) && (x * sign).lt(Num::uint(8).negated())
}

pub fn cex_velocity_against_side(side: &str, snapshot: &CexMicroSnapshot) -> (r: bool)
    ensures
        r == velocity_against(side@ == "UP"@, snapshot.trade_velocity_3s),
{
    let side_sign: Num = if same_text(side, "UP") {
        Num::one()
    } else {
        Num::one().negated()
    };
    match snapshot.trade_velocity_3s {
        Some(v) => (v * side_sign).lt(Num::uint(8).negated()),
        None => false,
    }
}

pub fn cex_vetoes_cheap_entry(side: &str, snapshot: &CexMicroSnapshot) -> (r: bool)
    ensures
        r == velocity_against(side@ == "UP"@, snapshot.trade_velocity_3s),
{
    cex_velocity_against_side(side, snapshot)
}

proof fn lemma_older_stay_out(older: Seq<TradeTick>, newer: Seq<TradeTick>, cutoff: int)
    requires
        older.len() > 0 ==> older.last().timestamp_ms < cutoff,
    ensures
        recent(older + newer, cutoff) == recent(newer, cutoff),
    decreases newer.len(),
{
    if newer.len() == 0 {
        assert(older + newer =~= older);
    } else {
        assert((older + newer).last() == newer.last());
        assert((older + newer).drop_last() =~= older + newer.drop_last());
        lemma_older_stay_out(older, newer.drop_last(), cutoff);
    }
}

/// Trades older than the window do not count: with them or without, the balance, the number
/// of trades and the speed are the same.
pub proof fn law_old_trades_do_not_count(
    older: Seq<TradeTick>,
    newer: Seq<TradeTick>,
    now_ms: i64,
    window_ms: i64,
)
    requires
        forall|i: int|
            0 <= i < older.len() ==> (#[trigger] older[i]).timestamp_ms < now_ms - window_ms,
    ensures
        imbalance(older + newer, now_ms - window_ms) == imbalance(newer, now_ms - window_ms),
        recent(older + newer, now_ms - window_ms).len() == recent(newer, now_ms - window_ms).len(),
        velocity(older + newer, now_ms, window_ms) == velocity(newer, now_ms, window_ms),
{
    if older.len() > 0 {
        assert(older.last() == older[older.len() - 1]);
    }
    lemma_older_stay_out(older, newer, now_ms - window_ms);
}

proof fn lemma_all_recent(trades: Seq<TradeTick>, cutoff: int)
    requires
        forall|i: int| 0 <= i < trades.len() ==> (#[trigger] trades[i]).timestamp_ms >= cutoff,
    ensures
        recent(trades, cutoff) == trades,
{
    lemma_recent(trades, cutoff, 0);
    assert(trades.take(0) =~= Seq::<TradeTick>::empty());
    assert(trades.skip(0) =~= trades);
    assert(Seq::<TradeTick>::empty() + trades =~= trades);
}

/// All trades of the window count, and each once.
pub proof fn law_all_trades_of_the_window_count(trades: Seq<TradeTick>, now_ms: i64, window_ms: i64)
    requires
        forall|i: int|
            0 <= i < trades.len() ==> (#[trigger] trades[i]).timestamp_ms >= now_ms - window_ms,
    ensures
        recent(trades, now_ms - window_ms).len() == trades.len(),
        velocity(trades, now_ms, window_ms) is None <==> trades.len() == 0,
        trades.len() == 0 ==> imbalance(trades, now_ms - window_ms) == Num::zero(),
{
    lemma_all_recent(trades, now_ms - window_ms);
    lemma_zero_sum(Num::zero(), Num::zero());
}

/// Trades as an exchange reports them: money that is not negative changes hands.
pub open spec fn sound_trades(trades: Seq<TradeTick>) -> bool {
    forall|i: int|
        0 <= i < trades.len() ==> nonneg((#[trigger] trades[i]).price * trades[i].qty)
}

/// What is summed of one kind is at least what was there, and nothing comes to it where all
/// trades are of the other kind.
proof fn lemma_volume(trades: Seq<TradeTick>, buys: bool, acc: Num)
    requires
        sound_trades(trades),
        !acc.is_nan(),
        acc.key() >= 0,
    ensures
        !volume(trades, buys, acc).is_nan(),
        acc.le(volume(trades, buys, acc)),
        (forall|i: int| 0 <= i < trades.len() ==> (#[trigger] trades[i]).is_buy != buys) ==> volume(
            trades,
            buys,
            acc,
        ) == acc,
        (exists|i: int|
            0 <= i < trades.len() && (#[trigger] trades[i]).is_buy == buys && (trades[i].price
                * trades[i].qty).gt(Num::zero())) ==> volume(trades, buys, acc).gt(Num::zero()),
    decreases trades.len(),
{
    if trades.len() > 0 {
        let t = trades.last();
        let rest = trades.drop_last();
        let x = t.price * t.qty;
        assert(t == trades[trades.len() - 1]);
        assert(nonneg(x));
        let next = if t.is_buy == buys {
            acc + x
        } else {
            acc
        };
        lemma_add_grows(acc, x);
        assert forall|i: int| 0 <= i < rest.len() implies nonneg(
            (#[trigger] rest[i]).price * rest[i].qty,
        ) by {
            assert(rest[i] == trades[i]);
        }
        lemma_volume(rest, buys, next);
        if forall|i: int| 0 <= i < trades.len() ==> (#[trigger] trades[i]).is_buy != buys {
            assert forall|i: int| 0 <= i < rest.len() implies (#[trigger] rest[i]).is_buy
                != buys by {
                assert(rest[i] == trades[i]);
            }
        }
        if exists|i: int|
            0 <= i < trades.len() && (#[trigger] trades[i]).is_buy == buys && (trades[i].price
                * trades[i].qty).gt(Num::zero()) {
            let k = choose|i: int|
                0 <= i < trades.len() && (#[trigger] trades[i]).is_buy == buys && (trades[i].price
                    * trades[i].qty).gt(Num::zero());
            if k < rest.len() {
                assert(rest[k] == trades[k]);
            } else {
                // the sum is at least the newest trade
                if acc.is_finite() {
                    lemma_add_nonneg(acc, x);
                } else {
                    reveal(Num::spec_add);
                }
                assert(next.gt(Num::zero()));
            }
        }
    }
}

/// Where only buys were made the balance is one, where only sales were made it is minus one,
/// as far as money changed hands and the sum can be written.
pub proof fn law_one_kind_is_all_of_the_balance(trades: Seq<TradeTick>, cutoff: int, buys: bool)
    requires
        sound_trades(trades),
        forall|i: int|
            0 <= i < trades.len() ==> (#[trigger] trades[i]).timestamp_ms >= cutoff
                && trades[i].is_buy == buys,
        exists|i: int|
            0 <= i < trades.len() && (#[trigger] trades[i]).is_buy == buys && (trades[i].price
                * trades[i].qty).gt(Num::zero()),
        !imbalance(trades, cutoff).is_nan(),
    ensures
        imbalance(trades, cutoff) == if buys {
            Num::one()
        } else {
            Num::one().negated()
        },
{
    lemma_all_recent(trades, cutoff);
    lemma_volume(trades, buys, Num::zero());
    lemma_volume(trades, !buys, Num::zero());
    let v = volume(trades, buys, Num::zero());
    let z = Num::zero();
    assert(volume(trades, !buys, z) == z);
    if !v.is_finite() {
        reveal(Num::spec_add);
        reveal(Num::spec_div);
        assert(imbalance(trades, cutoff).is_nan());
    }
    lemma_zero_sum(v, z);
    lemma_zero_sum(v, z.negated());
    lemma_zero_sum(v.negated(), z);
    lemma_add_comm(v, z);
    lemma_add_comm(v.negated(), z);
    lemma_negated(v);
    lemma_negated(z);
    assert(v - z == v.spec_add(z.negated()));
    assert(z - v == z.spec_add(v.negated()));
    lemma_self_quotient(v);
    lemma_div_mag(v.negated(), v);
    lemma_div_mag(v, v);
    let q = v.negated() / v;
    assert(q.mag() == Num::one().mag() && q.is_neg());
    assert(q.bits == Num::one().negated().bits);
}

/// Trades with buys and sales exchanged.
pub open spec fn turned(trades: Seq<TradeTick>) -> Seq<TradeTick> {
    Seq::new(
        trades.len(),
        |i: int| TradeTick { is_buy: !trades[i].is_buy, ..trades[i] },
    )
}

proof fn lemma_turned(trades: Seq<TradeTick>, cutoff: int, buys: bool, acc: Num)
    ensures
        recent(turned(trades), cutoff) == turned(recent(trades, cutoff)),
        volume(turned(trades), buys, acc) == volume(trades, !buys, acc),
    decreases trades.len(),
{
    if trades.len() > 0 {
        let rest = trades.drop_last();
        let t = trades.last();
        assert(turned(trades).drop_last() =~= turned(rest));
        let next = if t.is_buy != buys {
            acc + t.price * t.qty
        } else {
            acc
        };
        lemma_turned(rest, cutoff, buys, next);
        assert(turned(recent(rest, cutoff)).push(turned(trades).last()) =~= turned(
            recent(rest, cutoff).push(t),
        ));
    } else {
        assert(turned(trades) =~= trades);
    }
    assert(turned(Seq::<TradeTick>::empty()) =~= Seq::<TradeTick>::empty());
}

/// With buys and sales exchanged the balance is turned round.
pub proof fn law_exchanged_kinds_turn_the_balance(trades: Seq<TradeTick>, cutoff: int)
    ensures
        imbalance(turned(trades), cutoff).is_nan() == imbalance(trades, cutoff).is_nan(),
        !imbalance(trades, cutoff).is_nan() ==> imbalance(turned(trades), cutoff).key()
            == -imbalance(trades, cutoff).key(),
{
    let seen = recent(trades, cutoff);
    lemma_turned(trades, cutoff, true, Num::zero());
    lemma_turned(seen, cutoff, true, Num::zero());
    lemma_turned(seen, cutoff, false, Num::zero());
    let b = volume(seen, true, Num::zero());
    let s = volume(seen, false, Num::zero());
    lemma_add_comm(b, s);
    lemma_sub_turned(b, s);
    reveal(Num::spec_div);
    let (x, y, d) = (b - s, s - b, b + s);
    if x.is_finite() && d.is_finite() && d.mag() > 0 {
        lemma_div_mag(x, d);
        lemma_div_mag(y, d);
    }
}

/// The balance lies between minus one and one.
pub proof fn law_balance_is_bounded(trades: Seq<TradeTick>, cutoff: int)
    requires
        sound_trades(trades),
    ensures
        imbalance(trades, cutoff).is_nan() || imbalance(trades, cutoff).abs().le(Num::one()),
{
    let seen = recent(trades, cutoff);
    lemma_recent_sound(trades, cutoff);
    lemma_volume(seen, true, Num::zero());
    lemma_volume(seen, false, Num::zero());
    let b = volume(seen, true, Num::zero());
    let s = volume(seen, false, Num::zero());
    if b.is_finite() && s.is_finite() {
        lemma_share_of_sum(b, s);
        lemma_add_nonneg(b, s);
    } else {
        reveal(Num::spec_add);
        reveal(Num::spec_div);
    }
}

proof fn lemma_recent_sound(trades: Seq<TradeTick>, cutoff: int)
    requires
        sound_trades(trades),
    ensures
        sound_trades(recent(trades, cutoff)),
    decreases trades.len(),
{
    if trades.len() > 0 && trades.last().timestamp_ms >= cutoff {
        let rest = trades.drop_last();
        assert forall|i: int| 0 <= i < rest.len() implies nonneg(
            (#[trigger] rest[i]).price * rest[i].qty,
        ) by {
            assert(rest[i] == trades[i]);
        }
        lemma_recent_sound(rest, cutoff);
        let r = recent(rest, cutoff);
        assert forall|i: int| 0 <= i < r.push(trades.last()).len() implies nonneg(
            (#[trigger] r.push(trades.last())[i]).price * r.push(trades.last())[i].qty,
        ) by {
            if i < r.len() {
                assert(r.push(trades.last())[i] == r[i]);
            } else {
                assert(trades.last() == trades[trades.len() - 1]);
            }
        }
    }
}

proof fn lemma_share_of_sum(a: Num, b: Num)
    requires
        nonneg(a),
        nonneg(b),
    ensures
        (a + b).gt(Num::zero()) ==> ((a - b) / (a + b)).abs().le(Num::one()),
        (a + b).gt(Num::zero()) && b.le(a) ==> ((a - b) / (a + b)).key() >= 0,
        (a + b).gt(Num::zero()) && a.le(b) ==> ((a - b) / (a + b)).key() <= 0,
{
    let (sum, diff) = (a + b, a - b);
    lemma_add_nonneg(a, b);
    lemma_sub_finite(a, b);
    lemma_sub_shrinks(a, b);
    lemma_negated(b);
    lemma_add_key(a, b.negated());
    lemma_add_grows(b.negated(), a);
    lemma_add_key(b.negated(), a);
    assert(diff.abs().le(sum));
    if b.le(a) {
        lemma_sub_nonneg(a, b);
    }
    if a.le(b) {
        lemma_sub_turned(a, b);
        lemma_sub_nonneg(b, a);
    }
    if sum.gt(Num::zero()) {
        if sum.is_finite() {
            lemma_div_share(diff.abs(), sum);
            lemma_div_mag(diff, sum);
            lemma_div_mag(diff.abs(), sum);
        } else {
            reveal(Num::spec_div);
        }
    }
}

/// It is the money that counts, not the number of trades: a trade of no size changes
/// nothing, and of two opposite trades the one with more money gives the sign.
pub proof fn law_money_decides_the_balance(
    trades: Seq<TradeTick>,
    idle: TradeTick,
    buy: TradeTick,
    sale: TradeTick,
    cutoff: int,
)
    requires
        forall|i: int| 0 <= i < trades.len() ==> (#[trigger] trades[i]).timestamp_ms >= cutoff,
        idle.timestamp_ms >= cutoff,
        (idle.price * idle.qty).mag() == 0,
        buy.timestamp_ms >= cutoff,
        sale.timestamp_ms >= cutoff,
        buy.is_buy,
        !sale.is_buy,
        nonneg(buy.price * buy.qty),
        nonneg(sale.price * sale.qty),
    ensures
        imbalance(trades.push(idle), cutoff) == imbalance(trades, cutoff),
        ({
            let (x, y) = (buy.price * buy.qty, sale.price * sale.qty);
            let (r, q) = (
                imbalance(seq![buy, sale], cutoff),
                imbalance(seq![sale, buy], cutoff),
            );
            &&& x.ge(y) ==> r.key() >= 0 && q.key() >= 0
            &&& x.le(y) ==> r.key() <= 0 && q.key() <= 0
        }),
{
    let all = trades.push(idle);
    assert forall|i: int| 0 <= i < all.len() implies (#[trigger] all[i]).timestamp_ms >= cutoff by {
        if i < trades.len() {
            assert(all[i] == trades[i]);
        }
    }
    lemma_all_recent(all, cutoff);
    lemma_all_recent(trades, cutoff);
    assert(all.drop_last() =~= trades);
    let z = Num::zero();
    assert(z + idle.price * idle.qty == z) by {
        reveal(Num::spec_add);
        crate::num_laws::lemma_units_nonneg(0);
    }
    let (x, y) = (buy.price * buy.qty, sale.price * sale.qty);
    lemma_zero_sum(x, z);
    lemma_zero_sum(y, z);
    lemma_add_comm(x, z);
    lemma_add_comm(y, z);
    lemma_pair(buy, sale, cutoff);
    lemma_pair(sale, buy, cutoff);
    let (b, s) = (z + x, z + y);
    lemma_sum_of_zero(x);
    lemma_sum_of_zero(y);
    lemma_share_of_sum(b, s);
    lemma_add_nonneg(b, s);
}

proof fn lemma_sum_of_zero(x: Num)
    requires
        nonneg(x),
    ensures
        nonneg(Num::zero() + x),
        (Num::zero() + x).key() == x.key(),
{
    lemma_zero_sum(x, Num::zero());
    lemma_add_comm(x, Num::zero());
}

proof fn lemma_pair(a: TradeTick, b: TradeTick, cutoff: int)
    requires
        a.timestamp_ms >= cutoff,
        b.timestamp_ms >= cutoff,
        a.is_buy != b.is_buy,
    ensures
        recent(seq![a, b], cutoff) == seq![a, b],
        volume(seq![a, b], a.is_buy, Num::zero()) == Num::zero() + a.price * a.qty,
        volume(seq![a, b], b.is_buy, Num::zero()) == Num::zero() + b.price * b.qty,
{
    let s = seq![a, b];
    lemma_all_recent(s, cutoff);
    assert(s.drop_last() =~= seq![a]);
    assert(seq![a].drop_last() =~= Seq::<TradeTick>::empty());
    reveal_with_fuel(volume, 3);
}

/// Buys alone give a speed that is not negative, sales alone one that is not positive.
pub proof fn law_speed_has_the_sign_of_its_trades(
    trades: Seq<TradeTick>,
    now_ms: i64,
    window_ms: i64,
    buys: bool,
)
    requires
        0 <= window_ms,
        now_ms - window_ms >= i64::MIN,
        forall|i: int|
            0 <= i < trades.len() ==> {
                &&& (#[trigger] trades[i]).timestamp_ms >= now_ms - window_ms
                &&& trades[i].is_buy == buys
                &&& nonneg(trades[i].price)
                &&& nonneg(trades[i].qty)
                &&& nonneg(trades[i].price * trades[i].qty)
            },
        trades.len() > 0,
    ensures
        velocity(trades, now_ms, window_ms) matches Some(v) && !v.is_nan() && (if buys {
            v.ge(Num::zero())
        } else {
            v.le(Num::zero())
        }),
{
    lemma_all_recent(trades, now_ms - window_ms);
    lemma_net_sign(trades, Num::zero(), buys);
    lemma_earliest_bounds(trades, now_ms, now_ms - window_ms);
    let age = (now_ms - earliest(trades, now_ms)) as i64;
    let q = Num::whole(age) / Num::uint(1000);
    let dt = q.max(Num::ratio(1, 1000));
    lemma_thousand();
    lemma_billionth();
    lemma_ratio_nonneg(1, 1000);
    lemma_ratio_mono(1, 1_000_000_000, 1, 1000);
    lemma_ratio_one();
    lemma_ratio_mono(1, 1000, 1, 1);
    lemma_whole_is_uint(age);
    crate::j_laws::lemma_uint_finite(age as u64);
    lemma_div_mag(Num::uint(age as u64), Num::uint(1000));
    lemma_age_finite(age as u64);
    assert(dt.is_finite() && dt.key() > 0);
    let n = net_notional(trades, Num::zero());
    if buys {
        lemma_div_order(Num::zero(), n, dt);
    } else {
        lemma_div_order(n, Num::zero(), dt);
    }
}

proof fn lemma_age_finite(n: u64)
    ensures
        (Num::uint(n) / Num::uint(1000)).is_finite(),
{
    crate::j_laws::lemma_uint_finite(n);
    lemma_thousand();
    lemma_uint_is_ratio(1000);
    lemma_ratio_one();
    lemma_ratio_mono(1, 1, 1000, 1);
    lemma_quotient_by_more_than_one(Num::uint(n), Num::uint(1000));
}

/// What is divided by one or more does not grow.
proof fn lemma_quotient_by_more_than_one(x: Num, d: Num)
    requires
        nonneg(x),
        d.is_finite(),
        Num::one().le(d),
    ensures
        (x / d).is_finite(),
{
    lemma_div_mag(x, d);
    lemma_one_units();
    crate::num_laws::lemma_units_nonneg(x.mag());
    crate::num_laws::lemma_units_nonneg(d.mag());
    crate::num_laws::lemma_units_order(0x3FF0_0000_0000_0000, d.mag());
    let p = vstd::arithmetic::power2::pow2(1074) as int;
    vstd::arithmetic::power2::lemma_pow2_pos(1074);
    let (ux, ud) = (units(x.mag()), units(d.mag()));
    assert((ux * p) * 1 <= ux * ud) by (nonlinear_arith)
        requires
            ux >= 0,
            p <= ud,
    ;
    assert(0 <= ux * p) by (nonlinear_arith)
        requires
            ux >= 0,
            p > 0,
    ;
    lemma_encode_mono(ux * p, ud, ux, 1);
    lemma_encode_exact(x.mag(), 1);
    assert(ux * 1 == ux);
}

proof fn lemma_net_sign(trades: Seq<TradeTick>, acc: Num, buys: bool)
    requires
        forall|i: int|
            0 <= i < trades.len() ==> {
                &&& (#[trigger] trades[i]).is_buy == buys
                &&& nonneg(trades[i].price)
                &&& nonneg(trades[i].qty)
                &&& nonneg(trades[i].price * trades[i].qty)
            },
        !acc.is_nan(),
        if buys {
            acc.key() >= 0
        } else {
            acc.key() <= 0
        },
    ensures
        !net_notional(trades, acc).is_nan(),
        if buys {
            net_notional(trades, acc).key() >= 0
        } else {
            net_notional(trades, acc).key() <= 0
        },
    decreases trades.len(),
{
    if trades.len() > 0 {
        let t = trades.last();
        let rest = trades.drop_last();
        assert(t == trades[trades.len() - 1]);
        let sign = if t.is_buy {
            Num::one()
        } else {
            Num::one().negated()
        };
        let x = t.price * t.qty;
        lemma_one_times(t.price);
        lemma_mul_mag(t.price, t.qty);
        lemma_mul_mag(sign, t.price);
        lemma_mul_mag(Num::one(), t.price);
        let signed = sign * t.price;
        assert(signed.mag() == t.price.mag());
        lemma_mul_mag(signed, t.qty);
        let term = signed * t.qty;
        assert(term.mag() == x.mag());
        assert(term.is_finite());
        if t.price.mag() == 0 || t.qty.mag() == 0 {
            crate::num_laws::lemma_zero_product(
                if t.price.mag() == 0 {
                    t.price
                } else {
                    t.qty
                },
                if t.price.mag() == 0 {
                    t.qty
                } else {
                    t.price
                },
            );
        }
        assert(if buys { term.key() >= 0 } else { term.key() <= 0 });
        lemma_negated(term);
        if acc.is_finite() {
            lemma_add_key(acc, term);
            lemma_skey_exact(acc);
            lemma_skey_exact(term);
            if buys {
                lemma_skey_mono(0, acc.val() + term.val());
            } else {
                crate::num_laws::lemma_units_nonneg(0);
                lemma_val_order(acc, Num::zero());
                lemma_val_order(term, Num::zero());
                lemma_skey_mono(acc.val() + term.val(), 0);
            }
            assert(crate::rounding::encode(0, 1) == 0);
        } else {
            reveal(Num::spec_add);
        }
        assert forall|i: int| 0 <= i < rest.len() implies {
            &&& (#[trigger] rest[i]).is_buy == buys
            &&& nonneg(rest[i].price)
            &&& nonneg(rest[i].qty)
            &&& nonneg(rest[i].price * rest[i].qty)
        } by {
            assert(rest[i] == trades[i]);
        }
        lemma_net_sign(rest, acc + term, buys);
    }
}

/// The speed of the exchange is against UP where it falls faster than eight dollars a second,
/// and against DOWN where it rises faster than that. No speed is against neither.
pub proof fn law_speed_against_a_side(v: Num)
    requires
        v.is_finite(),
    ensures
        velocity_against(true, Some(v)) <==> v.lt(Num::uint(8).negated()),
        velocity_against(false, Some(v)) <==> v.gt(Num::uint(8)),
        !velocity_against(true, None) && !velocity_against(false, None),
{
    lemma_one_times(v);
    lemma_mul_comm(v, Num::one());
    let n = v.negated();
    lemma_negated(v);
    lemma_one_times(n);
    lemma_mul_comm(n, Num::one());
    crate::j_laws::lemma_product_of_negated(n, Num::one());
    assert(n.negated() == v);
    lemma_negated(Num::uint(8));
    crate::j_laws::lemma_uint_finite(8);
}

/// The exchange leads the spot upward where its last price is above it, and downward where
/// it is below.
pub proof fn law_lead_has_the_sign_of_the_distance(last: Num, spot: Num)
    requires
        nonneg(last),
        nonneg(spot),
        last.gt(Num::zero()),
        spot.gt(Num::zero()),
    ensures
        lead_bps(last, Some(spot)) matches Some(x) && (x.is_nan() || {
            &&& last.ge(spot) ==> x.key() >= 0
            &&& last.le(spot) ==> x.key() <= 0
        }),
        lead_bps(last, None) is None,
{
    let d = last - spot;
    lemma_sub_finite(last, spot);
    if last.ge(spot) {
        lemma_sub_nonneg(last, spot);
        lemma_div_order(Num::zero(), d, spot);
    }
    if last.le(spot) {
        lemma_sub_turned(last, spot);
        lemma_sub_nonneg(spot, last);
        lemma_div_order(d, Num::zero(), spot);
    }
    let q = d / spot;
    let k = Num::uint(10_000);
    crate::num_error::lemma_ten_thousand();
    if q.is_finite() {
        lemma_mul_mag(q, k);
        if q.key() == 0 {
            crate::num_laws::lemma_zero_product(q, k);
        }
    } else {
        reveal(Num::spec_mul);
    }
}

/// The clock of a speed starts at the oldest of its trades, and at the moment itself where
/// none is older.
pub proof fn law_clock_starts_at_the_oldest_trade(trades: Seq<TradeTick>, until: i64) -> (k: int)
    ensures
        earliest(trades, until) <= until,
        forall|i: int|
            0 <= i < trades.len() ==> earliest(trades, until) <= (#[trigger] trades[i]).timestamp_ms,
        earliest(trades, until) == until || (0 <= k < trades.len() && trades[k].timestamp_ms
            == earliest(trades, until)),
    decreases trades.len(),
{
    if trades.len() == 0 {
        0
    } else {
        let n = trades.len() - 1;
        let t = trades.last().timestamp_ms;
        let d = trades.drop_last();
        let k = law_clock_starts_at_the_oldest_trade(
            d,
            if t < until {
                t
            } else {
                until
            },
        );
        assert forall|i: int| 0 <= i < trades.len() implies earliest(trades, until) <= (
        #[trigger] trades[i]).timestamp_ms by {
            if i < n {
                assert(d[i] == trades[i]);
            }
        }
        if 0 <= k < d.len() {
            assert(d[k] == trades[k]);
        }
        if 0 <= k < d.len() && trades[k].timestamp_ms == earliest(trades, until) {
            k
        } else {
            n as int
        }
    }
}

/// The speed of a single trade is its money per second since it was made, a millisecond at
/// least; a sale counts against it.
pub proof fn law_speed_of_one_trade(t: TradeTick, now_ms: i64, window_ms: i64)
    requires
        now_ms - window_ms <= t.timestamp_ms <= now_ms,
        now_ms - t.timestamp_ms <= i64::MAX,
        nonneg(t.price) && nonneg(t.qty),
        (t.price * t.qty).is_finite(),
        Num::zero().lt(t.price * t.qty),
    ensures
        ({
            let age = (Num::whole((now_ms - t.timestamp_ms) as i64) / Num::uint(1000)).max(
                Num::ratio(1, 1000),
            );
            let v = velocity(seq![t], now_ms, window_ms);
            &&& t.is_buy ==> v == Some(t.price * t.qty / age)
            &&& !t.is_buy ==> v == Some((t.price * t.qty).negated() / age)
        }),
{
    let trades = seq![t];
    let none = Seq::<TradeTick>::empty();
    assert(trades.drop_last() =~= none);
    reveal_with_fuel(recent, 2);
    reveal_with_fuel(earliest, 2);
    reveal_with_fuel(net_notional, 2);
    assert(recent(trades, now_ms - window_ms) =~= trades) by {
        assert(recent(none, now_ms - window_ms) =~= none);
        assert(none.push(t) =~= trades);
    }
    let (z, one) = (Num::zero(), Num::one());
    let money = t.price * t.qty;
    lemma_one_times(t.price);
    if t.is_buy {
        lemma_add_comm(z, money);
        lemma_zero_sum(money, z);
    } else {
        lemma_minus_times(t.price, t.qty);
        lemma_negated(money);
        lemma_add_comm(z, money.negated());
        lemma_zero_sum(money.negated(), z);
    }
}

/// A price that was turned gives money that is turned.
proof fn lemma_minus_times(price: Num, qty: Num)
    requires
        nonneg(price),
        nonneg(qty),
        (price * qty).is_finite(),
        Num::zero().lt(price * qty),
    ensures
        Num::one().negated() * price * qty == (price * qty).negated(),
{
    let one = Num::one();
    lemma_one_units();
    lemma_negated(one);
    lemma_one_times(price);
    lemma_mul_mag(one, price);
    lemma_mul_mag(one.negated(), price);
    let p = one.negated() * price;
    lemma_mul_mag(price, qty);
    assert(p.mag() == price.mag());
    lemma_mul_mag(p, qty);
    assert((p * qty).mag() == (price * qty).mag());
    assert((price * qty).mag() > 0);
    assert(!(price * qty).is_neg());
}

/// The trades that are kept are those from the first one on that is young enough; all that
/// are forgotten are too old.
pub proof fn law_young_trades_are_kept(trades: Seq<TradeTick>, cutoff: int) -> (k: int)
    ensures
        0 <= k <= trades.len(),
        since(trades, cutoff) == trades.skip(k),
        forall|i: int| 0 <= i < k ==> (#[trigger] trades[i]).timestamp_ms < cutoff,
        k < trades.len() ==> trades[k].timestamp_ms >= cutoff,
    decreases trades.len(),
{
    if trades.len() == 0 || trades[0].timestamp_ms >= cutoff {
        assert(trades.skip(0) =~= trades);
        0
    } else {
        let d = trades.drop_first();
        let k = law_young_trades_are_kept(d, cutoff);
        assert(d.skip(k) =~= trades.skip(k + 1));
        assert forall|i: int| 0 <= i < k + 1 implies (#[trigger] trades[i]).timestamp_ms
            < cutoff by {
            if i > 0 {
                assert(d[i - 1] == trades[i]);
            }
        }
        k + 1
    }
}

/// What is seen of the exchange goes by the trades of the last three seconds, as far as the
/// balance and the number of trades go, and by those of the last one, three and five seconds
/// for the three speeds: trades before that change nothing.
pub proof fn law_flow_goes_by_its_last_seconds(
    all: CexMicroManager,
    young: CexMicroManager,
    older: Seq<TradeTick>,
    spot: Option<Num>,
    now_ms: i64,
    seconds: int,
)
    requires
        all.trades@ == older + young.trades@,
        forall|i: int|
            0 <= i < older.len() ==> (#[trigger] older[i]).timestamp_ms < now_ms - seconds * 1000,
    ensures
        ({
            let (a, y) = (all.flow_at(spot, now_ms), young.flow_at(spot, now_ms));
            &&& seconds >= 3 ==> a.buy_sell_imbalance_3s == y.buy_sell_imbalance_3s
                && a.trade_count_3s == y.trade_count_3s && a.trade_velocity_3s
                == y.trade_velocity_3s
            &&& seconds >= 1 ==> a.trade_velocity_1s == y.trade_velocity_1s
            &&& seconds >= 5 ==> a.trade_velocity_5s == y.trade_velocity_5s
        }),
{
    let newer = young.trades@;
    if seconds >= 1 {
        law_old_trades_do_not_count(older, newer, now_ms, 1_000);
    }
    if seconds >= 3 {
        law_old_trades_do_not_count(older, newer, now_ms, 3_000);
    }
    if seconds >= 5 {
        law_old_trades_do_not_count(older, newer, now_ms, 5_000);
    }
}

/// Where the trades of the last three seconds are all buys the balance that is seen is one,
/// where they are all sales minus one, where there are none nothing; and each of them counts.
pub proof fn law_flow_of_one_kind(
    m: CexMicroManager,
    older: Seq<TradeTick>,
    newer: Seq<TradeTick>,
    spot: Option<Num>,
    now_ms: i64,
    buys: bool,
)
    requires
        m.trades@ == older + newer,
        newer.len() <= u32::MAX,
        forall|i: int|
            0 <= i < older.len() ==> (#[trigger] older[i]).timestamp_ms < now_ms - 3_000,
        forall|i: int|
            0 <= i < newer.len() ==> (#[trigger] newer[i]).timestamp_ms >= now_ms - 3_000
                && newer[i].is_buy == buys,
        sound_trades(newer),
        newer.len() > 0 ==> exists|i: int|
            0 <= i < newer.len() && (#[trigger] newer[i]).is_buy == buys && (newer[i].price
                * newer[i].qty).gt(Num::zero()),
        !m.flow_at(spot, now_ms).buy_sell_imbalance_3s.is_nan(),
    ensures
        m.flow_at(spot, now_ms).trade_count_3s == newer.len(),
        newer.len() == 0 ==> m.flow_at(spot, now_ms).buy_sell_imbalance_3s == Num::zero(),
        newer.len() > 0 ==> m.flow_at(spot, now_ms).buy_sell_imbalance_3s == if buys {
            Num::one()
        } else {
            Num::one().negated()
        },
{
    law_old_trades_do_not_count(older, newer, now_ms, 3_000);
    lemma_all_recent(newer, now_ms - 3_000);
    if newer.len() > 0 {
        law_one_kind_is_all_of_the_balance(newer, now_ms - 3_000, buys);
    } else {
        lemma_zero_sum(Num::zero(), Num::zero());
    }
}

} // verus!
