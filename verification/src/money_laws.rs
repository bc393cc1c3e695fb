//! What holds of the money: what an entry spends and on which side, what trades do to cash
//! and shares, and what a window's close leaves behind.
use crate::config::{PreStartConfig, SessionConfig};
use crate::entry::{
    allocation, entry_split, next_step, one_side, wanted_budget, window_budget, NextStep,
};
use crate::j_laws::lemma_uint_finite;
use crate::num::Num;
use crate::num_error::{
    dist, exact, lemma_add_error, lemma_billionth, lemma_exact_nonneg, lemma_exact_one,
    lemma_exact_order, lemma_one_times, lemma_sub_error, lemma_sub_finite, parts,
};
use crate::num_laws::{
    lemma_add_key, lemma_add_nonneg, lemma_div_order, lemma_mul_comm, lemma_mul_order,
    lemma_mul_share, lemma_negated, lemma_one_units, lemma_ratio_one, lemma_self_difference,
    lemma_sub_mono, lemma_sub_nonneg, lemma_sub_shrinks, lemma_zero_product, lemma_zero_sum, nonneg,
    unit,
};
use crate::num_ops::{lemma_ratio_mono, lemma_ratio_nonneg, lemma_uint_is_ratio};
use crate::strategy::EntrySignal;
use crate::text::has_prefix;
use crate::trader::{held, is_side, lemma_place, worth, Portfolio, WindowState};
use vstd::prelude::*;

verus! {

/// An entry on one side spends its whole budget there and nothing on the other side; one on
/// no known side, and one without a budget, spend nothing.
pub proof fn law_one_sided_entry(budget: Num, entry: EntrySignal)
    ensures
        budget.gt(Num::zero()) && one_side(entry.mode) == Some("UP"@) ==> entry_split(budget, entry)
            == (budget, Num::zero()),
        budget.gt(Num::zero()) && one_side(entry.mode) == Some("DOWN"@) ==> entry_split(
            budget,
            entry,
        ) == (Num::zero(), budget),
        !budget.gt(Num::zero()) ==> entry_split(budget, entry) == (Num::zero(), Num::zero()),
{
    reveal_strlit("UP");
    reveal_strlit("DOWN");
    assert("UP"@.len() != "DOWN"@.len());
}

/// What an entry on both sides needs to be split.
pub open spec fn sound_split(budget: Num, up_ask: Num, down_ask: Num) -> bool {
    &&& nonneg(budget) && nonneg(up_ask) && nonneg(down_ask)
    &&& budget.gt(Num::zero()) && up_ask.gt(Num::zero()) && down_ask.gt(Num::zero())
    &&& (up_ask + down_ask).is_finite()
    &&& (budget / (up_ask + down_ask)).is_finite()
    &&& (budget / (up_ask + down_ask) * up_ask).is_finite()
    &&& (budget / (up_ask + down_ask) * down_ask).is_finite()
    &&& (up_ask - down_ask).abs().ge(Num::ratio(1, 10_000))
}

/// What a split spends on the side with the higher ask.
pub open spec fn dearer_part(budget: Num, up_ask: Num, down_ask: Num, ratio: Num) -> Num {
    if up_ask.lt(down_ask) {
        allocation(budget, up_ask, down_ask, ratio).1
    } else {
        allocation(budget, up_ask, down_ask, ratio).0
    }
}

/// What a split spends on the side with the lower ask.
pub open spec fn cheaper_part(budget: Num, up_ask: Num, down_ask: Num, ratio: Num) -> Num {
    if up_ask.lt(down_ask) {
        allocation(budget, up_ask, down_ask, ratio).0
    } else {
        allocation(budget, up_ask, down_ask, ratio).1
    }
}

spec fn surplus(ratio: Num) -> Num {
    let half = Num::ratio(5, 10);
    ((ratio.clamp(half, Num::ratio(7, 10)) - half) * Num::uint(2)).clamp(
        Num::zero(),
        Num::ratio(2, 10),
    )
}

proof fn lemma_surplus(low: Num, high: Num)
    requires
        low.is_finite(),
        high.is_finite(),
        low.le(high),
    ensures
        unit(surplus(low)),
        unit(surplus(high)),
        surplus(low).le(surplus(high)),
        low.le(Num::ratio(5, 10)) ==> surplus(low).mag() == 0,
{
    let half = Num::ratio(5, 10);
    let top = Num::ratio(7, 10);
    lemma_ratio_one();
    lemma_exact_one();
    lemma_ratio_nonneg(5, 10);
    lemma_ratio_nonneg(7, 10);
    lemma_ratio_nonneg(2, 10);
    lemma_ratio_mono(5, 10, 7, 10);
    lemma_ratio_mono(7, 10, 1, 1);
    lemma_ratio_mono(2, 10, 1, 1);
    lemma_ratio_mono(5, 10, 1, 1);
    let (a, b) = (low.clamp(half, top), high.clamp(half, top));
    assert(nonneg(a) && nonneg(b) && half.le(a) && a.le(b));
    lemma_sub_mono(a, b, half, half);
    lemma_sub_nonneg(a, half);
    lemma_sub_finite(a, half);
    lemma_sub_finite(b, half);
    lemma_uint_finite(2);
    lemma_mul_order(Num::uint(2), a - half, b - half);
    if low.le(half) {
        assert(a.key() == half.key());
        lemma_billionth();
        lemma_ratio_mono(1, 1_000_000_000, 5, 10);
        assert(a == half);
        lemma_self_difference(half);
        lemma_zero_product(a - half, Num::uint(2));
    }
}

spec fn core_shares(budget: Num, sum: Num, ratio: Num) -> Num {
    (budget * (Num::one() - surplus(ratio))) / sum
}

proof fn lemma_core(budget: Num, sum: Num, low: Num, high: Num)
    requires
        low.is_finite(),
        high.is_finite(),
        low.le(high),
        nonneg(budget),
        sum.is_finite(),
        sum.key() > 0,
        (budget / sum).is_finite(),
    ensures
        nonneg(core_shares(budget, sum, low)),
        nonneg(core_shares(budget, sum, high)),
        core_shares(budget, sum, high).le(core_shares(budget, sum, low)),
        core_shares(budget, sum, low).le(budget / sum),
        low.le(Num::ratio(5, 10)) ==> core_shares(budget, sum, low) == budget / sum,
{
    let one = Num::one();
    lemma_surplus(low, high);
    lemma_exact_one();
    let (s, t) = (surplus(low), surplus(high));
    lemma_sub_mono(one, one, t, s);
    lemma_sub_nonneg(one, s);
    lemma_sub_nonneg(one, t);
    lemma_sub_shrinks(one, s);
    lemma_sub_shrinks(one, t);
    lemma_sub_finite(one, s);
    lemma_sub_finite(one, t);
    assert(unit(one - s) && unit(one - t));
    lemma_mul_share(one - s, budget);
    lemma_mul_share(one - t, budget);
    lemma_mul_order(budget, one - t, one - s);
    lemma_div_order(budget * (one - t), budget * (one - s), sum);
    lemma_div_order(budget * (one - s), budget, sum);
    if low.le(Num::ratio(5, 10)) {
        lemma_negated(s);
        lemma_one_units();
        lemma_zero_sum(one, s.negated());
        assert(one - s == one);
        lemma_one_times(budget);
        lemma_mul_comm(budget, one);
    }
}

/// The side with the higher ask gets its part of equal shares out of the whole budget where
/// nothing is favoured, and no more than that where the cheaper side is: the more that is
/// favoured, the less.
pub proof fn law_cheaper_side_is_favoured(
    budget: Num,
    up_ask: Num,
    down_ask: Num,
    low: Num,
    high: Num,
)
    requires
        sound_split(budget, up_ask, down_ask),
        low.is_finite(),
        high.is_finite(),
        low.le(high),
    ensures
        dearer_part(budget, up_ask, down_ask, high).le(
            dearer_part(budget, up_ask, down_ask, low),
        ),
        dearer_part(budget, up_ask, down_ask, low).ge(Num::zero()),
        low.le(Num::ratio(5, 10)) ==> dearer_part(budget, up_ask, down_ask, low) == budget / (up_ask
            + down_ask) * up_ask.max(down_ask),
{
    lemma_ratio_nonneg(1, 10_000);
    let sum = up_ask + down_ask;
    lemma_add_nonneg(up_ask, down_ask);
    lemma_core(budget, sum, low, high);
    let dear = if up_ask.lt(down_ask) {
        down_ask
    } else {
        up_ask
    };
    let (a, b) = (core_shares(budget, sum, low), core_shares(budget, sum, high));
    lemma_mul_order(dear, b, a);
    lemma_mul_comm(dear, a);
    lemma_mul_comm(dear, b);
    if !up_ask.lt(down_ask) && !down_ask.lt(up_ask) {
        lemma_self_difference(up_ask);
        assert(up_ask == down_ask);
        lemma_small_positive();
    }
}

/// A ten-thousandth is above zero.
proof fn lemma_small_positive()
    ensures
        Num::ratio(1, 10_000).key() > 0,
{
    lemma_billionth();
    lemma_ratio_mono(1, 1_000_000_000, 1, 10_000);
}

/// The two parts of a split make the budget, to within the rounding of its steps.
pub proof fn law_split_spends_the_budget(budget: Num, up_ask: Num, down_ask: Num, ratio: Num)
    requires
        sound_split(budget, up_ask, down_ask),
        ratio.is_finite(),
        cheaper_part(budget, up_ask, down_ask, ratio).is_finite(),
    ensures
        ({
            let (up, down) = allocation(budget, up_ask, down_ask, ratio);
            let dear = dearer_part(budget, up_ask, down_ask, ratio);
            parts() * dist(exact(up) + exact(down), exact(budget)) <= 11int as real * (exact(budget)
                + exact(dear) + exact(dear))
        }),
{
    lemma_ratio_nonneg(1, 10_000);
    let sum = up_ask + down_ask;
    lemma_add_nonneg(up_ask, down_ask);
    lemma_core(budget, sum, ratio, ratio);
    let n = core_shares(budget, sum, ratio);
    let q = budget / sum;
    lemma_mul_order(up_ask, n, q);
    lemma_mul_order(down_ask, n, q);
    lemma_mul_comm(up_ask, n);
    lemma_mul_comm(down_ask, n);
    let (x, y) = (n * up_ask, n * down_ask);
    let (z, w) = if up_ask.lt(down_ask) {
        (x, y)
    } else {
        (y, x)
    };
    assert(nonneg(x) && nonneg(y));
    if up_ask.lt(down_ask) {
        lemma_mul_order(n, up_ask, down_ask);
    } else {
        lemma_mul_order(n, down_ask, up_ask);
    }
    assert(z.le(w));
    lemma_sub_finite(budget, x);
    let a = budget - x;
    let rest = a - y;
    let r = z + rest;
    reveal(Num::spec_add);
    assert(!rest.is_nan()) by {
        lemma_negated(y);
        lemma_add_key(a, y.negated());
    }
    assert(rest.is_finite());
    lemma_sub_error(budget, x);
    lemma_sub_error(a, y);
    lemma_add_error(z, rest);
    lemma_exact_nonneg(x);
    lemma_exact_nonneg(y);
    lemma_exact_nonneg(budget);
    lemma_exact_order(z, w);
    lemma_three_steps(exact(budget), exact(x), exact(y), exact(a), exact(rest), exact(z), exact(r));
}

/// Three rounded steps stay near what they stand for.
proof fn lemma_three_steps(b: real, x: real, y: real, a: real, rest: real, z: real, r: real)
    requires
        b >= 0int as real,
        x >= 0int as real,
        y >= 0int as real,
        z == x && x <= y || z == y && y <= x,
        parts() * dist(a, b - x) <= dist(b - x, 0int as real),
        parts() * dist(rest, a - y) <= dist(a - y, 0int as real),
        parts() * dist(r, z + rest) <= dist(z + rest, 0int as real),
    ensures
        parts() * dist(r + (x + y - z), b) <= 11int as real * (b + (x + y - z) + (x + y - z)),
{
    let p = parts();
    let s = b + x + y;
    let (e, f, g) = (dist(a, b - x), dist(rest, a - y), dist(r, z + rest));
    assert(p >= 1int as real);
    assert(e <= p * e && f <= p * f && g <= p * g) by (nonlinear_arith)
        requires
            p >= 1int as real,
            e >= 0int as real,
            f >= 0int as real,
            g >= 0int as real,
    ;
    assert(p * e <= s);
    assert(p * f <= 3int as real * s);
    assert(p * g <= 7int as real * s);
    let d = dist(r + (x + y - z), b);
    assert(d <= e + f + g);
    assert(p * d <= p * e + p * f + p * g) by (nonlinear_arith)
        requires
            p >= 1int as real,
            d <= e + f + g,
    ;
}

/// Level asks share the budget in halves.
pub proof fn law_level_asks_share_alike(budget: Num, up_ask: Num, down_ask: Num, ratio: Num)
    requires
        budget.gt(Num::zero()) && up_ask.gt(Num::zero()) && down_ask.gt(Num::zero()),
        (up_ask - down_ask).abs().lt(Num::ratio(1, 10_000)),
    ensures
        allocation(budget, up_ask, down_ask, ratio).0 == budget / Num::uint(2),
        allocation(budget, up_ask, down_ask, ratio).1 == budget / Num::uint(2),
{
}

/// What a window's budget needs to be a number.
pub open spec fn sound_budget(equity: Num, s: SessionConfig) -> bool {
    &&& nonneg(equity) && nonneg(s.window_budget_pct)
    &&& (s.window_budget_pct / Num::uint(100)).is_finite()
    &&& nonneg(s.min_window_budget) && nonneg(s.max_window_budget)
    &&& s.min_window_budget.le(s.max_window_budget)
}

/// A window's budget never exceeds the cash, does not fall where the cash or the equity or
/// the multiplier rises, lies within its limits where the multiplier is one, and is all of
/// the cash where that covers the smallest budget but not the wanted one.
pub proof fn law_budget_follows_the_money(
    poor: Num,
    rich: Num,
    less: Num,
    more: Num,
    s: SessionConfig,
    low: Num,
    high: Num,
)
    requires
        sound_budget(poor, s),
        sound_budget(rich, s),
        poor.le(rich),
        nonneg(less),
        nonneg(more),
        less.le(more),
        low.is_finite(),
        high.is_finite(),
        low.le(high),
    ensures
        window_budget(poor, less, s, low).le(less),
        window_budget(poor, less, s, low).ge(Num::zero()),
        window_budget(poor, less, s, low).le(window_budget(poor, more, s, low)),
        wanted_budget(poor, s, low).le(wanted_budget(rich, s, high)),
        low == Num::one() ==> s.min_window_budget.le(wanted_budget(poor, s, low)) && wanted_budget(
            poor,
            s,
            low,
        ).le(s.max_window_budget),
        s.min_window_budget.le(less) && less.lt(wanted_budget(poor, s, low)) ==> window_budget(
            poor,
            less,
            s,
            low,
        ) == less,
        wanted_budget(poor, s, low).le(less) ==> window_budget(poor, less, s, low)
            == wanted_budget(poor, s, low),
        less.lt(s.min_window_budget) && less.lt(wanted_budget(poor, s, low)) ==> window_budget(
            poor,
            less,
            s,
            low,
        ) == Num::zero(),
{
    let c = s.window_budget_pct / Num::uint(100);
    lemma_uint_finite(100);
    lemma_ratio_one();
    lemma_exact_one();
    lemma_uint_is_ratio(100);
    lemma_ratio_mono(1, 1, 100, 1);
    lemma_div_order(s.window_budget_pct, s.window_budget_pct, Num::uint(100));
    lemma_mul_order(c, poor, rich);
    lemma_mul_comm(c, poor);
    lemma_mul_comm(c, rich);
    let (a, b) = (capped(poor, s), capped(rich, s));
    assert(nonneg(a) && nonneg(b) && a.le(b));
    lemma_ratio_mono(1, 10, 15, 10);
    lemma_ratio_nonneg(1, 10);
    lemma_ratio_nonneg(15, 10);
    lemma_ratio_mono(1, 10, 1, 1);
    lemma_ratio_mono(1, 1, 15, 10);
    lemma_fifteen_tenths();
    let (m, n) = (
        low.clamp(Num::ratio(1, 10), Num::ratio(15, 10)),
        high.clamp(Num::ratio(1, 10), Num::ratio(15, 10)),
    );
    assert(nonneg(m) && nonneg(n) && m.le(n));
    lemma_mul_order(a, m, n);
    lemma_mul_order(n, a, b);
    if low == Num::one() {
        lemma_one_times(a);
        lemma_mul_comm(a, Num::one());
    }
}

/// One and a half is finite.
proof fn lemma_fifteen_tenths()
    ensures
        Num::ratio(15, 10).is_finite(),
{
    lemma_ratio_mono(15, 10, 2, 1);
    lemma_uint_is_ratio(2);
    lemma_uint_finite(2);
    lemma_ratio_nonneg(15, 10);
}

spec fn capped(equity: Num, s: SessionConfig) -> Num {
    let share = equity * (s.window_budget_pct / Num::uint(100));
    let floored = if share.lt(s.min_window_budget) {
        s.min_window_budget
    } else {
        share
    };
    if floored.gt(s.max_window_budget) {
        s.max_window_budget
    } else {
        floored
    }
}

/// An entry is asked about only while the window waits, within the corridor before its start
/// and in volatility enough; a window is promoted from the last second before its start on,
/// and not sooner.
pub proof fn law_steps_before_the_start(
    waiting: bool,
    start: i64,
    now_ms: int,
    pre: PreStartConfig,
    pending: bool,
    atr: Num,
    min_atr: Num,
)
    ensures
        ({
            let step = next_step(waiting, Some(start), now_ms, pre, pending, atr, min_atr);
            &&& (step == NextStep::Promote) == (start - now_ms < 1000)
            &&& step is Ask ==> waiting && !pending && !atr.lt(min_atr)
            &&& step is Ask && start - now_ms <= i64::MAX ==> step->0 * 1000 <= start - now_ms
                < step->0 * 1000 + 1000 && pre.min_seconds_before_start <= step->0
                <= pre.max_seconds_before_start
            &&& waiting && !pending && !atr.lt(min_atr) && start - now_ms >= 1000
                && pre.min_seconds_before_start * 1000 <= start - now_ms
                < pre.max_seconds_before_start * 1000 + 1000 ==> step is Ask
        }),
        next_step(waiting, None, now_ms, pre, pending, atr, min_atr) == NextStep::Wait,
{
}

/// A buy takes its money from the cash and gives its shares to its own side of its own
/// window; the other side, the other windows, the record of results and the money that came
/// back stay as they are.
pub proof fn law_buy_changes_its_own_side(
    p: Portfolio,
    t: Portfolio,
    number: usize,
    side: Seq<char>,
    usd: Num,
    shares: Num,
    price: Num,
    reason: Seq<char>,
)
    requires
        p.has(number),
        is_side(side),
        p.bought(t, number, side, usd, shares, price, reason),
    ensures
        ({
            let i = p.place_of(number);
            let (w, v) = (p.windows@[i], t.windows@[i]);
            let other = if side == "UP"@ {
                "DOWN"@
            } else {
                "UP"@
            };
            &&& t.available_cash == p.available_cash - usd
            &&& held(v, side) == held(w, side) + shares
            &&& held(v, other) == held(w, other)
            &&& v.spent == w.spent + usd
            &&& v.cash_returned == w.cash_returned
            &&& v.window_number == number && v.status == w.status && v.role == w.role
            &&& t.overall_realized_pnl == p.overall_realized_pnl
            &&& t.wins == p.wins && t.losses == p.losses && t.closed_windows == p.closed_windows
            &&& t.windows@.len() == p.windows@.len()
            &&& forall|j: int|
                0 <= j < p.windows@.len() && j != i ==> #[trigger] t.windows@[j] == p.windows@[j]
            &&& v.trades@.last().side@ == side && v.trades@.last().shares == shares
                && v.trades@.last().usd_value == usd && v.trades@.last().price == price
        }),
{
    reveal_strlit("UP");
    reveal_strlit("DOWN");
    assert("UP"@.len() != "DOWN"@.len());
    lemma_place(p.windows@, number);
}

/// A sale brings its money to the cash and to what came back, and takes its shares from its
/// own side of its own window; nothing else changes.
pub proof fn law_sale_changes_its_own_side(
    p: Portfolio,
    t: Portfolio,
    number: usize,
    side: Seq<char>,
    shares: Num,
    usd: Num,
    price: Num,
    reason: Seq<char>,
)
    requires
        p.has(number),
        is_side(side),
        p.sold(t, number, side, shares, usd, price, reason),
    ensures
        ({
            let i = p.place_of(number);
            let (w, v) = (p.windows@[i], t.windows@[i]);
            let other = if side == "UP"@ {
                "DOWN"@
            } else {
                "UP"@
            };
            &&& t.available_cash == p.available_cash + usd
            &&& held(v, side) == held(w, side) - shares
            &&& held(v, other) == held(w, other)
            &&& v.cash_returned == w.cash_returned + usd
            &&& v.spent == w.spent
            &&& v.window_number == number && v.status == w.status && v.role == w.role
            &&& t.overall_realized_pnl == p.overall_realized_pnl
            &&& t.wins == p.wins && t.losses == p.losses && t.closed_windows == p.closed_windows
            &&& t.windows@.len() == p.windows@.len()
            &&& forall|j: int|
                0 <= j < p.windows@.len() && j != i ==> #[trigger] t.windows@[j] == p.windows@[j]
            &&& v.trades@.last().side@ == side && v.trades@.last().shares == shares
                && v.trades@.last().usd_value == usd && v.trades@.last().price == price
        }),
{
    reveal_strlit("UP");
    reveal_strlit("DOWN");
    assert("UP"@.len() != "DOWN"@.len());
    lemma_place(p.windows@, number);
}

/// A window's result is what came back, the winner's shares at a dollar among it, less what
/// was spent. It is counted once, as a win where it is positive and else as a loss, and only
/// where money was spent; the loser's shares do not enter it.
pub proof fn law_result_of_a_closed_window(
    p: Portfolio,
    t: Portfolio,
    number: usize,
    status: Seq<char>,
    winner: Seq<char>,
)
    requires
        p.has(number),
        is_side(winner),
        p.closed(t, number, status, winner),
        p.wins < u32::MAX,
        p.losses < u32::MAX,
    ensures
        ({
            let i = p.place_of(number);
            let w = p.windows@[i];
            let back = if held(w, winner).gt(Num::zero()) {
                w.cash_returned + held(w, winner)
            } else {
                w.cash_returned
            };
            let result = back - w.spent;
            let traded = w.spent.gt(Num::zero());
            &&& t.windows@[i].cash_returned == back
            &&& t.windows@[i].spent == w.spent
            &&& !traded ==> t.overall_realized_pnl == p.overall_realized_pnl && t.wins == p.wins
                && t.losses == p.losses
            &&& traded ==> t.overall_realized_pnl == p.overall_realized_pnl + result
            &&& traded && Num::zero().lt(result) ==> t.wins == p.wins + 1 && t.losses == p.losses
            &&& traded && result.le(Num::zero()) ==> t.losses == p.losses + 1 && t.wins == p.wins
            &&& forall|j: int|
                0 <= j < p.windows@.len() && j != i ==> #[trigger] t.windows@[j] == p.windows@[j]
        }),
{
    reveal_strlit("UP");
    reveal_strlit("DOWN");
    assert("UP"@.len() != "DOWN"@.len());
    lemma_place(p.windows@, number);
}

/// The equity without windows is the cash; one more window that is not closed adds each
/// side's shares at that side's bid.
pub proof fn law_open_windows_count_at_their_bids(
    windows: Seq<WindowState>,
    w: WindowState,
    cash: Num,
)
    ensures
        worth(Seq::<WindowState>::empty(), cash) == cash,
        !has_prefix(w.status@, "CLOSED"@) ==> worth(windows.push(w), cash) == worth(windows, cash)
            + w.up_shares * w.prices.up.bid + w.down_shares * w.prices.down.bid,
        has_prefix(w.status@, "CLOSED"@) ==> worth(windows.push(w), cash) == worth(windows, cash),
{
    assert(windows.push(w).drop_last() == windows);
}

} // verus!
