//! What holds of the lead on the book, of the volatility, of the chance that a distance gives
//! and of the orders that are sent and booked.
use crate::client::{MarketWindow, PricesState};
use crate::config::ExecutionConfig;
use crate::endgame::{winner_tape_hot, StrategyTick};
use crate::j_laws::lemma_uint_finite;
use crate::live_executor::{
    booking, expected_usd, fill_of, floor_2, intent_fault, is_intent, is_stale, min_notional,
    normalize_clob_amount, order_notional, order_shares, plausible_fill_amount, round_price,
    tries_of, LiveExecutionResult, LiveOrderIntent, PostedOrder,
};
use crate::market_laws::law_expected_move_grows;
use crate::mid_cross_tracker::{
    elapsed_pct, mid_of, reports, LeadSide, MidCrossEvent, MidCrossWindowState,
};
use crate::num::Num;
use crate::num_error::{lemma_billionth, lemma_exact_one, lemma_one_times, lemma_sub_finite};
use crate::num_laws::{
    lemma_add_key, lemma_add_mono, lemma_add_nonneg, lemma_div_mag, lemma_div_order,
    lemma_div_share, lemma_mul_comm, lemma_mul_order, lemma_mul_share_finite, lemma_negated,
    lemma_ratio_one, lemma_self_quotient, lemma_skey_mono, lemma_sub_mono, lemma_sub_nonneg,
    lemma_sub_turned, lemma_units_nonneg, lemma_whole_is_uint, lemma_zero_product, lemma_zero_sum,
    nonneg, skey,
};
use crate::num_ops::{lemma_ratio_mono, lemma_ratio_nonneg, lemma_uint_is_ratio};
use crate::num_whole;
use crate::number_text::num_of_text;
use crate::rounding::{lemma_encode_exact, lemma_encode_mono, units};
use crate::strategy::{OrderOperation, OrderSignal};
use crate::strategy_j::gap_z;
use crate::text::ascii_lower_text;
use crate::trader::WindowState;
use crate::volatility::{mean_range, range_sum, true_range, Candle};
use crate::window_close::{gap_at_close, gap_chance, side_would_hold, winner_of};
use vstd::arithmetic::power2::{lemma_pow2_pos, pow2};
use vstd::prelude::*;

verus! {

/// The other side of a lead.
pub open spec fn other_lead(s: LeadSide) -> LeadSide {
    match s {
        LeadSide::Up => LeadSide::Down,
        LeadSide::Down => LeadSide::Up,
        LeadSide::Tie => LeadSide::Tie,
    }
}

pub open spec fn other_lead_if(s: Option<LeadSide>) -> Option<LeadSide> {
    match s {
        Some(l) => Some(other_lead(l)),
        None => None,
    }
}

/// The side whose middle is higher by a cent or more leads; closer than that none does; and
/// where the two middles change places so does the lead.
pub proof fn law_higher_middle_leads(up_mid: Num, down_mid: Num)
    requires
        nonneg(up_mid),
        nonneg(down_mid),
    ensures
        LeadSide::from_mids(up_mid, down_mid) == LeadSide::Up ==> down_mid.lt(up_mid) && (up_mid
            - down_mid).ge(Num::ratio(1, 100)),
        down_mid.le(up_mid) && (up_mid - down_mid).ge(Num::ratio(1, 100)) ==> LeadSide::from_mids(
            up_mid,
            down_mid,
        ) == LeadSide::Up,
        LeadSide::from_mids(down_mid, up_mid) == other_lead(
            LeadSide::from_mids(up_mid, down_mid),
        ),
{
    lemma_sub_finite(up_mid, down_mid);
    lemma_sub_finite(down_mid, up_mid);
    lemma_sub_turned(up_mid, down_mid);
    lemma_ratio_nonneg(1, 100);
    lemma_billionth();
    lemma_ratio_mono(1, 1_000_000_000, 1, 100);
    if down_mid.le(up_mid) {
        lemma_sub_nonneg(up_mid, down_mid);
    }
    if up_mid.le(down_mid) {
        lemma_sub_nonneg(down_mid, up_mid);
    }
    if up_mid.key() == down_mid.key() {
        lemma_sub_nonneg(up_mid, down_mid);
        lemma_sub_nonneg(down_mid, up_mid);
    }
}

/// A window's record of leads with the sides exchanged.
pub open spec fn turned_leads(s: MidCrossWindowState) -> MidCrossWindowState {
    MidCrossWindowState {
        up_mid: s.down_mid,
        down_mid: s.up_mid,
        current_side: other_lead_if(s.current_side),
        last_cross_from: other_lead_if(s.last_cross_from),
        last_cross_to: other_lead_if(s.last_cross_to),
        ..s
    }
}

/// The two sides are treated alike: with the sides exchanged the record is the exchanged one.
pub proof fn law_leads_are_mirrored(
    s: MidCrossWindowState,
    up_mid: Num,
    down_mid: Num,
    time_pct: Num,
    atr: Num,
)
    requires
        nonneg(up_mid),
        nonneg(down_mid),
    ensures
        turned_leads(s).after(down_mid, up_mid, time_pct, atr) == turned_leads(
            s.after(up_mid, down_mid, time_pct, atr),
        ),
{
    law_higher_middle_leads(up_mid, down_mid);
    lemma_sub_turned(up_mid, down_mid);
    match s.current_side {
        Some(l) => {},
        None => {},
    }
}

/// After a tick on which a side leads by a cent or more that side is the current one. A lead
/// change is counted exactly where another side was current before, with the old and the new
/// side noted; and it is a significant one exactly where the old lead had reached twenty
/// cents.
pub proof fn law_lead_changes_are_counted(
    s: MidCrossWindowState,
    up_mid: Num,
    down_mid: Num,
    time_pct: Num,
    atr: Num,
)
    requires
        nonneg(up_mid),
        nonneg(down_mid),
        s.valid(),
        s.cross_count < u32::MAX,
        !s.peak_lead_gap.is_nan(),
        down_mid.le(up_mid),
        (up_mid - down_mid).ge(Num::ratio(1, 100)),
    ensures
        ({
            let t = s.after(up_mid, down_mid, time_pct, atr);
            let changed = s.armed && s.current_side == Some(LeadSide::Down);
            &&& t.armed && t.current_side == Some(LeadSide::Up)
            &&& t.cross_count == s.cross_count + (if changed {
                1int
            } else {
                0
            })
            &&& t.significant_cross_count == s.significant_cross_count + (if changed
                && Num::ratio(20, 100).le(s.peak_lead_gap) {
                1int
            } else {
                0
            })
            &&& changed ==> t.last_cross_from == Some(LeadSide::Down) && t.last_cross_to == Some(
                LeadSide::Up,
            ) && t.last_cross_time_pct == Some(time_pct) && t.last_cross_atr == atr
            &&& (up_mid - down_mid).le(t.peak_lead_gap)
            &&& changed ==> t.peak_lead_gap.le(up_mid - down_mid)
            &&& s.armed && s.current_side == Some(LeadSide::Up) ==> s.peak_lead_gap.le(
                t.peak_lead_gap,
            )
        }),
{
    law_higher_middle_leads(up_mid, down_mid);
    lemma_sub_finite(up_mid, down_mid);
    lemma_sub_nonneg(up_mid, down_mid);
    lemma_ratio_nonneg(20, 100);
    match s.current_side {
        Some(l) => {
            match l {
                LeadSide::Up => {},
                LeadSide::Down => {},
                LeadSide::Tie => {},
            }
        },
        None => {},
    }
}

/// A side's middle goes by its own quotes alone and does not fall where one of them rises.
pub proof fn law_middle_follows_its_own_quotes(up: bool, p: PricesState, q: PricesState)
    requires
        up ==> nonneg(p.up.bid) && nonneg(p.up.ask) && nonneg(q.up.bid) && nonneg(q.up.ask),
        !up ==> nonneg(p.down.bid) && nonneg(p.down.ask) && nonneg(q.down.bid) && nonneg(
            q.down.ask,
        ),
        up ==> p.up.bid.le(q.up.bid) && p.up.ask.le(q.up.ask),
        !up ==> p.down.bid.le(q.down.bid) && p.down.ask.le(q.down.ask),
    ensures
        mid_of(up, p).le(mid_of(up, q)),
        mid_of(up, p).ge(Num::zero()),
{
    let (a, b, c, d) = if up {
        (p.up.bid, p.up.ask, q.up.bid, q.up.ask)
    } else {
        (p.down.bid, p.down.ask, q.down.bid, q.down.ask)
    };
    lemma_add_nonneg(a, b);
    lemma_add_nonneg(c, d);
    lemma_add_mono(a, c, b);
    lemma_add_mono(b, d, c);
    lemma_uint_finite(2);
    lemma_ratio_one();
    lemma_exact_one();
    lemma_uint_is_ratio(2);
    lemma_ratio_mono(1, 1, 2, 1);
    lemma_div_order(a + b, c + d, Num::uint(2));
}

/// None of a window has passed where all of its time is left, all of it where none is; and
/// the share does not fall as the time left does.
pub proof fn law_elapsed_share(duration: Num, more: i64, less: i64)
    requires
        duration.is_finite(),
        Num::one().le(duration),
        less <= more,
    ensures
        elapsed_pct(duration, more).le(elapsed_pct(duration, less)),
        less <= 0 ==> elapsed_pct(duration, less).key() == Num::uint(100).key(),
        more >= 0 && duration.le(Num::whole(more)) ==> elapsed_pct(duration, more).mag() == 0,
        more >= 0 ==> elapsed_pct(duration, more).ge(Num::zero()),
        elapsed_pct(duration, less).le(Num::uint(100)),
{
    lemma_exact_one();
    lemma_uint_finite(100);
    lemma_whole_order(less, more);
    let (a, b) = (Num::whole(less), Num::whole(more));
    lemma_sub_mono(duration, duration, b, a);
    let (x, y) = (
        (duration - b).clamp(Num::zero(), duration),
        (duration - a).clamp(Num::zero(), duration),
    );
    assert(nonneg(x) && nonneg(y) && x.le(y) && y.le(duration));
    lemma_div_order(x, y, duration);
    lemma_div_share(x, duration);
    lemma_div_share(y, duration);
    lemma_mul_order(Num::uint(100), x / duration, y / duration);
    lemma_mul_comm(Num::uint(100), x / duration);
    lemma_mul_comm(Num::uint(100), y / duration);
    lemma_mul_order(Num::uint(100), y / duration, Num::one());
    lemma_one_times(Num::uint(100));
    lemma_mul_comm(Num::uint(100), Num::one());
    if less <= 0 {
        lemma_whole_order(less, 0);
        lemma_whole_is_uint(0);
        lemma_nothing();
        lemma_sub_mono(duration, duration, Num::whole(0), a);
        lemma_negated(Num::whole(0));
        lemma_zero_sum(duration, Num::whole(0).negated());
        assert(y.key() == duration.key());
        assert(y == duration);
        lemma_self_quotient(duration);
    }
    if duration.le(b) {
        lemma_sub_turned(duration, b);
        lemma_sub_nonneg(b, duration);
        assert(x.mag() == 0);
        lemma_div_mag(x, duration);
        lemma_zero_product(x / duration, Num::uint(100));
    }
}

pub(crate) proof fn lemma_nothing()
    ensures
        Num::uint(0).mag() == 0,
{
    reveal(Num::spec_uint);
    lemma_encode_exact(0, 1);
    lemma_units_nonneg(0);
    assert(0 * pow2(1074) == 0);
}

/// Whole numbers are in their order as numbers.
proof fn lemma_whole_order(a: i64, b: i64)
    requires
        a <= b,
    ensures
        Num::whole(a).le(Num::whole(b)),
        Num::whole(a).is_finite(),
        Num::whole(b).is_finite(),
{
    reveal(Num::spec_whole);
    let p = pow2(1074) as int;
    lemma_pow2_pos(1074);
    assert(a * p <= b * p) by (nonlinear_arith)
        requires
            a <= b,
            p > 0,
    ;
    lemma_skey_mono(a * p, b * p);
    lemma_whole_finite(a);
    lemma_whole_finite(b);
}

proof fn lemma_whole_finite(a: i64)
    ensures
        Num::whole(a).is_finite(),
        Num::whole(a).key() == skey(
            a * pow2(1074) as int,
        ),
{
    reveal(Num::spec_whole);
    reveal(Num::spec_uint);
    let p = pow2(1074) as int;
    lemma_pow2_pos(1074);
    let n: u64 = if a < 0 {
        (-a) as u64
    } else {
        a as u64
    };
    lemma_uint_finite(n);
    assert(n * p >= 0 && (a < 0 ==> -(a * p) == n * p && a * p < 0)) by (nonlinear_arith)
        requires
            p > 0,
            a < 0 ==> n == -a,
            n >= 0,
    ;
    lemma_skey_mono(a * p, a * p);
    lemma_encode_mono(0, 1, n * p, 1);
}

/// A candle's range is the largest of its height and of the distances of its ends from the
/// close before it, and one of the three.
pub proof fn law_range_is_the_largest_distance(c: Candle, before: Num)
    requires
        nonneg(c.high),
        nonneg(c.low),
        nonneg(before),
    ensures
        ({
            let r = true_range(c, before);
            &&& (c.high - c.low).le(r)
            &&& (c.high - before).abs().le(r)
            &&& (c.low - before).abs().le(r)
            &&& r == c.high - c.low || r == (c.high - before).abs() || r == (c.low - before).abs()
            &&& r.is_finite() && r.ge(Num::zero())
        }),
        c.low.le(before) && before.le(c.high) ==> true_range(c, before).key() == (c.high
            - c.low).key(),
{
    lemma_sub_finite(c.high, c.low);
    lemma_sub_finite(c.high, before);
    lemma_sub_finite(c.low, before);
    if c.low.le(before) && before.le(c.high) {
        lemma_sub_mono(c.high, c.high, before, c.low);
        lemma_sub_mono(before, c.high, c.low, c.low);
        lemma_sub_turned(c.low, before);
        lemma_sub_nonneg(c.high, before);
        lemma_sub_nonneg(before, c.low);
        lemma_sub_finite(before, c.low);
    }
}

/// One candle has no volatility; of the oldest candle only the close counts; and one more
/// candle before the oldest adds the range that its close gives that one.
pub proof fn law_volatility_is_a_mean_of_ranges(candles: Seq<Candle>, c: Candle, d: Candle)
    requires
        candles.len() > 0,
        c.close == d.close,
    ensures
        mean_range(seq![c]) is None,
        mean_range(Seq::<Candle>::empty()) is None,
        mean_range(candles.push(c)) == mean_range(candles.push(d)),
        mean_range(candles.push(c)) is Some,
        range_sum(candles.push(c)) == range_sum(candles) + true_range(candles.last(), c.close),
        candles.len() == 1 ==> mean_range(candles.push(c))->0 == (Num::zero().negated()
            + true_range(candles[0], c.close)) / Num::uint(1),
{
    assert(candles.push(c).drop_last() == candles);
    assert(candles.push(d).drop_last() == candles);
    assert(candles.push(c)[candles.len() - 1] == candles.last());
    assert(candles.push(c).last() == c);
    if candles.len() == 1 {
        assert(range_sum(candles) == Num::zero().negated());
        assert(candles.last() == candles[0]);
        assert((candles.push(c).len() - 1) as u64 == 1);
    }
}

/// Of the spot at the close and the price to beat, the higher decides: UP wins above it,
/// DOWN at it and below; without a spot or a price to beat nobody does.
pub proof fn law_close_goes_by_the_spot(spot: Num, ptb: Num)
    requires
        !spot.is_nan(),
        Num::zero().lt(ptb),
    ensures
        winner_of(Some(spot), Some(ptb)) == "UP"@ <==> ptb.lt(spot),
        winner_of(Some(spot), Some(ptb)) == "DOWN"@ <==> spot.le(ptb),
        winner_of(None, Some(ptb)).len() == 0,
        winner_of(Some(spot), None).len() == 0,
{
    reveal_strlit("UP");
    reveal_strlit("DOWN");
    reveal_strlit("");
    assert("UP"@.len() != "DOWN"@.len());
}

/// The distance that is noted at the close is the signed distance in expected moves.
pub proof fn law_distance_at_the_close(spot: Num, ptb: Num, atr: Num, secs: i64)
    requires
        atr.is_finite(),
        Num::zero().lt(ptb),
    ensures
        gap_at_close(Some(spot), Some(ptb), atr, secs) == Some(gap_z(spot, ptb, atr, secs)),
        gap_at_close(None, Some(ptb), atr, secs) is None,
        gap_at_close(Some(spot), None, atr, secs) is None,
{
    lemma_exact_one();
    law_expected_move_grows(atr.max(Num::one()), atr.max(Num::one()), secs, secs);
    let a = atr.max(Num::one());
    assert(a.max(Num::one()) == a);
}

/// The chance that a distance gives UP does not fall where the distance rises, that of DOWN
/// does not rise; at no distance both are one half, and none leaves five to ninety-five
/// percent.
pub proof fn law_chance_follows_the_distance(near: Num, far: Num)
    requires
        near.is_finite(),
        far.is_finite(),
        near.le(far),
    ensures
        gap_chance(true, near).le(gap_chance(true, far)),
        gap_chance(false, far).le(gap_chance(false, near)),
        near.mag() == 0 ==> gap_chance(true, near) == Num::ratio(5, 10) && gap_chance(false, near)
            == Num::ratio(5, 10),
        Num::ratio(5, 100).le(gap_chance(true, near)) && gap_chance(true, near).le(
            Num::ratio(95, 100),
        ),
        Num::ratio(5, 100).le(gap_chance(false, near)) && gap_chance(false, near).le(
            Num::ratio(95, 100),
        ),
{
    let (half, slope, top) = (Num::ratio(5, 10), Num::ratio(8, 100), Num::ratio(45, 100));
    lemma_ratio_one();
    lemma_exact_one();
    lemma_ratio_nonneg(5, 10);
    lemma_ratio_nonneg(8, 100);
    lemma_ratio_nonneg(45, 100);
    lemma_ratio_nonneg(5, 100);
    lemma_ratio_nonneg(95, 100);
    lemma_ratio_mono(5, 10, 1, 1);
    lemma_ratio_mono(8, 100, 1, 1);
    lemma_ratio_mono(45, 100, 1, 1);
    lemma_ratio_mono(95, 100, 1, 1);
    lemma_ratio_mono(5, 100, 95, 100);
    lemma_ratio_mono(5, 100, 5, 10);
    lemma_ratio_mono(5, 10, 95, 100);
    lemma_billionth();
    lemma_ratio_mono(1, 1_000_000_000, 5, 10);
    lemma_mul_order(slope, near, far);
    lemma_mul_share_finite(slope, near);
    lemma_mul_share_finite(slope, far);
    let (a, b) = ((near * slope).min(top), (far * slope).min(top));
    assert(a.is_finite() && b.is_finite() && a.le(b));
    lemma_add_mono(a, b, half);
    lemma_sub_mono(half, half, b, a);
    lemma_add_key(half, a);
    lemma_add_key(half, b);
    lemma_negated(a);
    lemma_negated(b);
    lemma_add_key(half, a.negated());
    lemma_add_key(half, b.negated());
    if near.mag() == 0 {
        lemma_zero_product(near, slope);
        assert(a.mag() == 0);
        lemma_zero_sum(half, a);
        lemma_zero_sum(half, a.negated());
    }
}

/// An order goes to the token of its own side, as a buy of its dollars or as a sale of its
/// shares.
pub proof fn law_order_goes_to_its_sides_token(
    i: LiveOrderIntent,
    cfg: ExecutionConfig,
    market: MarketWindow,
    signal: OrderSignal,
)
    requires
        is_intent(i, cfg, market, signal),
    ensures
        signal.side@ == "UP"@ ==> i.token_id@ == market.tokens.up.token_id@,
        signal.side@ == "DOWN"@ ==> i.token_id@ == market.tokens.down.token_id@,
        signal.is_buy ==> i.operation == OrderOperation::Buy && i.amount_usd == Some(signal.amount),
        !signal.is_buy ==> i.operation == OrderOperation::Sell && i.amount_usd is None,
        i.side@ == signal.side@,
{
    reveal_strlit("UP");
    reveal_strlit("DOWN");
    assert("UP"@.len() != "DOWN"@.len());
}

/// No order is sent that is worth less than a dollar or than the configured smallest order,
/// a billionth aside, or that has no price, no amount or no side.
pub proof fn law_small_orders_are_refused(cfg: ExecutionConfig, signal: OrderSignal)
    requires
        intent_fault(cfg, signal) is None,
    ensures
        signal.price.is_finite() && signal.amount.is_finite(),
        signal.price.gt(Num::zero()) && signal.amount.gt(Num::zero()),
        signal.side@ == "UP"@ || signal.side@ == "DOWN"@,
        !(order_notional(signal) + Num::ratio(1, 1_000_000_000)).lt(Num::one()),
        !cfg.min_order_usd.is_nan() ==> !(order_notional(signal) + Num::ratio(1, 1_000_000_000)).lt(
            cfg.min_order_usd,
        ),
        signal.is_buy ==> !(signal.amount + Num::ratio(1, 1_000_000_000)).lt(Num::one()),
{
    lemma_exact_one();
}

/// An order of a known side with a price and an amount is refused for its size only, and a
/// sale or a buy that is large enough in both dollars and shares is sent.
pub proof fn law_large_orders_are_sent(cfg: ExecutionConfig, signal: OrderSignal)
    requires
        signal.price.is_finite() && signal.price.gt(Num::zero()),
        signal.amount.is_finite() && signal.amount.gt(Num::zero()),
        signal.side@ == "UP"@ || signal.side@ == "DOWN"@,
        min_notional(cfg).le(order_notional(signal) + Num::ratio(1, 1_000_000_000)),
        signal.is_buy ==> min_notional(cfg).le(signal.amount + Num::ratio(1, 1_000_000_000)),
        order_shares(signal).gt(Num::zero()),
        order_shares(signal).is_finite(),
    ensures
        intent_fault(cfg, signal) is None,
{
}

/// A buy's fill spends what was made and gets what was taken, a sale's the other way round,
/// as far as the answer gives both in plausible size; its price is the one over the other.
/// Without a match there is no fill.
pub proof fn law_fill_is_what_was_made_and_taken(intent: LiveOrderIntent, resp: PostedOrder)
    requires
        fill_of(intent, resp) is Some,
    ensures
        resp.success && resp.matched,
        ({
            let f = fill_of(intent, resp)->0;
            let made = normalize_clob_amount(num_of_text(resp.making_amount@));
            let took = normalize_clob_amount(num_of_text(resp.taking_amount@));
            let usd = expected_usd(intent);
            let shares = intent.shares.max(Num::zero());
            &&& f.avg_price == f.amount_usd / f.shares
            &&& f.amount_usd.gt(Num::zero()) && f.shares.gt(Num::zero())
            &&& intent.operation == OrderOperation::Buy && made is Some && plausible_fill_amount(
                made->0,
                usd,
            ) ==> f.amount_usd == made->0
            &&& intent.operation == OrderOperation::Buy && took is Some && plausible_fill_amount(
                took->0,
                shares,
            ) ==> f.shares == took->0
            &&& intent.operation == OrderOperation::Sell && made is Some && plausible_fill_amount(
                made->0,
                shares,
            ) ==> f.shares == made->0
            &&& intent.operation == OrderOperation::Sell && took is Some && plausible_fill_amount(
                took->0,
                usd,
            ) ==> f.amount_usd == took->0
        }),
{
}

/// An amount of up to a hundred thousand stands for itself, a larger one for millionths; one
/// that is not positive and finite is none.
pub proof fn law_large_amounts_are_millionths(v: Num)
    ensures
        normalize_clob_amount(Some(v)) is Some <==> v.is_finite() && Num::zero().lt(v),
        v.is_finite() && Num::zero().lt(v) && v.le(Num::uint(100_000)) ==> normalize_clob_amount(
            Some(v),
        ) == Some(v),
        v.is_finite() && Num::uint(100_000).lt(v) ==> normalize_clob_amount(Some(v)) == Some(
            v / Num::uint(1_000_000),
        ),
        normalize_clob_amount(None) is None,
{
    lemma_uint_finite(100_000);
}

/// A fill is booked as it came; an executed order without one is booked at the signal's
/// price, a buy at no more dollars than the signal asked for; and one that was not executed
/// is not booked.
pub proof fn law_bookings_follow_the_fill(sig: OrderSignal, result: LiveExecutionResult)
    ensures
        result.fill is Some ==> booking(sig, result) == Some(
            (
                result.fill->0.amount_usd,
                result.fill->0.shares,
                result.fill->0.avg_price,
                true,
            ),
        ),
        result.fill is None && !result.executed ==> booking(sig, result) is None,
        result.fill is None && result.executed && result.intent is Some ==> {
            &&& booking(sig, result) is Some
            &&& (booking(sig, result)->0).1 == (result.intent->0).shares
            &&& (booking(sig, result)->0).2 == sig.price
            &&& sig.is_buy && !sig.amount.is_nan() ==> (booking(sig, result)->0).0.le(sig.amount)
            &&& !sig.is_buy ==> (booking(sig, result)->0).0 == (result.intent->0).shares * sig.price
        },
{
}

/// What a tick reports of a lead change is what the record shows after it: the sides it went
/// from and to, both counts, and the middles that made it. The first tick of a window is
/// reported as its beginning, and no other tick is reported.
pub proof fn law_reported_change_is_recorded(
    e: Option<MidCrossEvent>,
    s: MidCrossWindowState,
    up_mid: Num,
    down_mid: Num,
    time_pct: Num,
    secs: i64,
    atr: Num,
)
    requires
        reports(e, s, up_mid, down_mid, time_pct, secs, atr),
    ensures
        ({
            let t = s.after(up_mid, down_mid, time_pct, atr);
            &&& !s.armed ==> e is Some && (e->0).event@ == "armed_init"@
            &&& s.armed && t.cross_count == s.cross_count && s.cross_count < u32::MAX ==> e is None
            &&& s.armed && t.cross_count != s.cross_count ==> {
                &&& e is Some && (e->0).event@ == "mid_cross"@
                &&& (e->0).from_side == t.last_cross_from
                &&& Some((e->0).to_side) == t.last_cross_to
                &&& (e->0).is_significant == t.last_cross_is_significant
            }
            &&& e is Some ==> (e->0).cross_count == t.cross_count
                && (e->0).significant_cross_count == t.significant_cross_count && (e->0).up_mid
                == t.up_mid && (e->0).down_mid == t.down_mid
        }),
{
}

/// Whether a side would be held at the close goes by its own shares and its own bid; without
/// shares it is not.
pub proof fn law_hold_at_the_close_goes_by_its_own_side(
    up: bool,
    w: WindowState,
    v: WindowState,
    spot: Num,
    ptb: Num,
    secs: i64,
    pct: Num,
    atr: Num,
)
    requires
        up ==> w.up_shares == v.up_shares && w.prices.up.bid == v.prices.up.bid,
        !up ==> w.down_shares == v.down_shares && w.prices.down.bid == v.prices.down.bid,
    ensures
        side_would_hold(up, w, spot, ptb, secs, pct, atr) == side_would_hold(
            up,
            v,
            spot,
            ptb,
            secs,
            pct,
            atr,
        ),
        up && w.up_shares.le(Num::zero()) ==> !side_would_hold(up, w, spot, ptb, secs, pct, atr),
        !up && w.down_shares.le(Num::zero()) ==> !side_would_hold(up, w, spot, ptb, secs, pct, atr),
{
}

/// The tape is hot where the side that the spot favours has been bought for enough dollars
/// and often enough; what was bought of the other side does not matter.
pub proof fn law_hot_tape_is_the_winners(tick: StrategyTick, spot: Num, ptb: Num)
    requires
        tick.spot_price == Some(spot),
        tick.win_state.market.price_to_beat == Some(ptb),
    ensures
        ptb.lt(spot) ==> winner_tape_hot(tick) == (tick.config.j_endgame.min_tape_usd.le(
            tick.tape.up_buy_usd,
        ) && tick.config.j_endgame.min_tape_buys <= tick.tape.up_buy_count),
        spot.lt(ptb) ==> winner_tape_hot(tick) == (tick.config.j_endgame.min_tape_usd.le(
            tick.tape.down_buy_usd,
        ) && tick.config.j_endgame.min_tape_buys <= tick.tape.down_buy_count),
        spot.key() == ptb.key() ==> !winner_tape_hot(tick),
{
    reveal_strlit("UP");
    reveal_strlit("DOWN");
    assert("UP"@.len() != "DOWN"@.len());
}

/// An order is stale only where a limit is set and its age is above it, and a stale one stays
/// stale.
pub proof fn law_old_orders_are_stale(cfg: ExecutionConfig, age: int, older: int)
    requires
        age <= older,
    ensures
        is_stale(cfg, age) ==> is_stale(cfg, older),
        is_stale(cfg, age) <==> cfg.max_order_age_ms > 0 && age > cfg.max_order_age_ms,
{
}

/// The shares of a sale are cut down to hundredths and do not fall where the amount rises; a
/// price is rounded to hundredths in the same order. Whole hundredths stay as they are.
pub proof fn law_hundredths(less: Num, more: Num)
    requires
        nonneg(less) && nonneg(more),
        less.le(more),
        (more * Num::uint(100)).is_finite(),
        (less * Num::uint(100)).key() > 0,
    ensures
        floor_2(less).le(floor_2(more)),
        round_price(less).le(round_price(more)),
        floor_2(less).le(less * Num::uint(100) / Num::uint(100)),
        units((less * Num::uint(100)).mag()) % (pow2(1074) as int) == 0 ==> floor_2(less) == less
            * Num::uint(100) / Num::uint(100) && round_price(less) == less * Num::uint(100)
            / Num::uint(100),
{
    let h = Num::uint(100);
    lemma_uint_finite(100);
    lemma_ratio_one();
    lemma_exact_one();
    lemma_uint_is_ratio(100);
    lemma_ratio_mono(1, 1, 100, 1);
    lemma_mul_order(h, less, more);
    let (x, y) = (less * h, more * h);
    num_whole::lemma_whole_order(x, y);
    lemma_div_order(x.floor(), y.floor(), h);
    lemma_div_order(x.round(), y.round(), h);
    lemma_div_order(x.floor(), x, h);
}

/// A buy is for what its dollars buy at its price, a sale for its own shares; and an order
/// that must be filled at once and whole is tried three times, any other once.
pub proof fn law_order_sizes_and_tries(signal: OrderSignal, intent: LiveOrderIntent)
    ensures
        signal.is_buy ==> order_shares(signal) == signal.amount / signal.price,
        !signal.is_buy ==> order_shares(signal) == floor_2(signal.amount),
        !signal.is_buy ==> order_notional(signal) == signal.amount * signal.price,
        intent.clob_order_type@ == "fok"@ ==> tries_of(intent) == 3,
        ascii_lower_text(intent.clob_order_type@) != ascii_lower_text("fok"@) ==> tries_of(intent)
            == 1,
{
}

} // verus!
