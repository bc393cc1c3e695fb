//! What holds of the figures about past windows.
use crate::llm_context::{
    ascending, fall_state, first_bought, first_redeemed, has_buy, hedge_cost_of, inserted,
    is_tail_sale, median_of, redeems, shares_of_kind, tail_value_of,
};
use crate::num::Num;
use crate::num_laws::{lemma_sub_nonneg, lemma_sub_turned};
use crate::trader::TradeRecord;
use vstd::prelude::*;

verus! {

/// Numbers that can be put in order.
pub open spec fn comparable(values: Seq<Num>) -> bool {
    forall|i: int| 0 <= i < values.len() ==> !(#[trigger] values[i]).is_nan()
}

/// Numbers none of which is above a later one.
pub open spec fn rising(values: Seq<Num>) -> bool {
    forall|i: int, j: int|
        0 <= i <= j < values.len() ==> (#[trigger] values[i]).le(#[trigger] values[j])
}

proof fn lemma_inserted(sorted: Seq<Num>, x: Num)
    requires
        comparable(sorted),
        rising(sorted),
        !x.is_nan(),
    ensures
        comparable(inserted(sorted, x)),
        rising(inserted(sorted, x)),
        inserted(sorted, x).len() == sorted.len() + 1,
        inserted(sorted, x).to_multiset() == sorted.to_multiset().insert(x),
        forall|i: int|
            0 <= i < inserted(sorted, x).len() ==> (#[trigger] inserted(sorted, x)[i]) == x
                || sorted.contains(inserted(sorted, x)[i]),
    decreases sorted.len(),
{
    broadcast use vstd::seq_lib::group_to_multiset_ensures;

    if sorted.len() == 0 || !x.lt(sorted.last()) {
        let r = sorted.push(x);
        assert forall|i: int, j: int| 0 <= i <= j < r.len() implies (#[trigger] r[i]).le(
            #[trigger] r[j],
        ) by {
            if j == sorted.len() && i < sorted.len() {
                assert(sorted[i].le(sorted[sorted.len() - 1]));
            }
        }
        assert forall|i: int| 0 <= i < r.len() implies (#[trigger] r[i]) == x || sorted.contains(
            r[i],
        ) by {
            if i < sorted.len() {
                assert(sorted[i] == r[i]);
            }
        }
    } else {
        let front = sorted.drop_last();
        let last = sorted.last();
        lemma_inserted(front, x);
        let a = inserted(front, x);
        let r = a.push(last);
        assert(front.push(last) =~= sorted);
        assert forall|i: int, j: int| 0 <= i <= j < r.len() implies (#[trigger] r[i]).le(
            #[trigger] r[j],
        ) by {
            if j == a.len() && i < a.len() {
                if a[i] != x {
                    let k = choose|k: int| 0 <= k < front.len() && front[k] == a[i];
                    assert(sorted[k].le(sorted[sorted.len() - 1]));
                }
            }
        }
        assert forall|i: int| 0 <= i < r.len() implies (#[trigger] r[i]) == x || sorted.contains(
            r[i],
        ) by {
            if i < a.len() {
                if a[i] != x {
                    let k = choose|k: int| 0 <= k < front.len() && front[k] == a[i];
                    assert(sorted[k] == r[i]);
                }
            } else {
                assert(sorted[sorted.len() - 1] == r[i]);
            }
        }
        assert(r.to_multiset() == a.to_multiset().insert(last));
        assert(sorted.to_multiset() == front.to_multiset().insert(last));
        assert(front.to_multiset().insert(x).insert(last) =~= front.to_multiset().insert(
            last,
        ).insert(x));
    }
}

/// Sorting puts the same numbers in rising order.
pub proof fn law_sorted_values_rise(values: Seq<Num>)
    requires
        comparable(values),
    ensures
        rising(ascending(values)),
        comparable(ascending(values)),
        ascending(values).len() == values.len(),
        ascending(values).to_multiset() == values.to_multiset(),
    decreases values.len(),
{
    broadcast use vstd::seq_lib::group_to_multiset_ensures;

    if values.len() > 0 {
        let d = values.drop_last();
        assert(comparable(d)) by {
            assert forall|i: int| 0 <= i < d.len() implies !(#[trigger] d[i]).is_nan() by {
                assert(d[i] == values[i]);
            }
        }
        law_sorted_values_rise(d);
        lemma_inserted(ascending(d), values.last());
        assert(d.push(values.last()) =~= values);
    }
}

/// The median of an odd number of values is the middle one: as many lie before it in the
/// order as behind it. Of an even number it is halfway between the two in the middle.
pub proof fn law_median_is_in_the_middle(values: Seq<Num>, k: int)
    requires
        comparable(values),
        0 <= k,
    ensures
        values.len() == 2 * k + 1 ==> {
            &&& values.contains(median_of(values))
            &&& forall|i: int| 0 <= i <= k ==> (#[trigger] ascending(values)[i]).le(median_of(values))
            &&& forall|i: int|
                k <= i < values.len() ==> median_of(values).le(#[trigger] ascending(values)[i])
        },
        k > 0 && values.len() == 2 * k ==> median_of(values) == (ascending(values)[k - 1]
            + ascending(values)[k]) / Num::uint(2),
        values.len() == 0 ==> median_of(values) == Num::zero(),
{
    broadcast use vstd::seq_lib::group_to_multiset_ensures;

    law_sorted_values_rise(values);
    let s = ascending(values);
    if values.len() == 2 * k + 1 {
        assert(s.contains(s[k]));
        assert(s.to_multiset().count(s[k]) > 0);
        assert(values.to_multiset().count(s[k]) > 0);
    }
}

/// The deepest fall is never negative and never lessened by another result; results that are
/// not negative leave it as it was; and it covers the fall from the peak to the last sum.
pub proof fn law_deepest_fall(pnls: Seq<Num>, last: Num)
    requires
        comparable(pnls),
        ({
            let (cum, peak, deepest) = fall_state(pnls);
            cum.is_finite() && peak.is_finite() && cum.le(peak) && deepest.ge(Num::zero())
        }),
        last.is_finite(),
        (fall_state(pnls).0 + last).is_finite(),
    ensures
        ({
            let (cum, peak, deepest) = fall_state(pnls);
            let (now, high, worst) = fall_state(pnls.push(last));
            &&& now == cum + last
            &&& peak.le(high) && now.le(high)
            &&& high == peak || high == now
            &&& deepest.le(worst)
            &&& (high - now).le(worst)
            &&& worst == deepest || worst == high - now
            &&& peak.le(now) ==> worst == deepest
        }),
{
    assert(pnls.push(last).drop_last() == pnls);
    let (cum, peak, deepest) = fall_state(pnls);
    let now = cum + last;
    let high = if now.gt(peak) {
        now
    } else {
        peak
    };
    lemma_sub_nonneg(high, now);
    if peak.le(now) {
        lemma_sub_turned(high, now);
        lemma_sub_nonneg(now, high);
    }
}

/// One more trade: a buy on the other side than the first adds its dollars to the cost of
/// hedging, and nothing else does; a sale of a tail adds its dollars to what tails brought;
/// shares are counted by the kind of the trade.
pub proof fn law_one_more_trade(
    trades: Seq<TradeRecord>,
    t: TradeRecord,
    side: Seq<char>,
    kind: Seq<char>,
)
    requires
        trades.len() > 0 && trades[0].trade_type@ == "BUY"@,
        side.len() > 0,
    ensures
        hedge_cost_of(trades.push(t), side) == if t.trade_type@ == "BUY"@ && t.side@ != side {
            hedge_cost_of(trades, side) + t.usd_value
        } else {
            hedge_cost_of(trades, side)
        },
        tail_value_of(trades.push(t)) == if is_tail_sale(t) {
            tail_value_of(trades) + t.usd_value
        } else {
            tail_value_of(trades)
        },
        shares_of_kind(trades.push(t), kind) == if t.trade_type@ == kind {
            shares_of_kind(trades, kind) + t.shares
        } else {
            shares_of_kind(trades, kind)
        },
        first_bought(trades.push(t)) == Some(trades[0]),
{
    assert(trades.push(t).drop_last() == trades);
    assert(trades.push(t)[0] == trades[0]);
    assert(has_buy(trades));
}

/// The side that was redeemed is that of the first redemption, whatever follows.
pub proof fn law_first_redemption_counts(trades: Seq<TradeRecord>, t: TradeRecord)
    ensures
        first_redeemed(trades.push(t)) == match first_redeemed(trades) {
            Some(s) => Some(s),
            None => if redeems(t) {
                Some(t.side@)
            } else {
                None
            },
        },
    decreases trades.len(),
{
    if trades.len() == 0 {
        assert(trades.push(t).skip(1) =~= Seq::<TradeRecord>::empty());
        assert(first_redeemed(trades.push(t).skip(1)) is None);
    } else {
        assert(trades.push(t)[0] == trades[0]);
        assert(trades.push(t).skip(1) =~= trades.skip(1).push(t));
        law_first_redemption_counts(trades.skip(1), t);
    }
}

} // verus!
