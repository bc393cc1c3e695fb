//! Whether an in-the-money leg is worth holding to redemption.
use crate::num::Num;
use crate::text::same_text;
use vstd::prelude::*;

verus! {

/// Seconds before the end from which a window counts as late.
pub const REDEEM_HOLD_LATE_SECS: i64 = 180;

#[derive(Debug, Clone, Copy)]
pub struct RedeemHoldInput<'a> {
    pub side: &'a str,
    pub spot: Num,
    pub ptb: Num,
    pub secs_to_end: i64,
    pub time_pct: Num,
    pub current_atr: Num,
    pub bid: Num,
    pub fair_prob: Num,
    pub ptb_crossed: bool,
    pub counter_velocity_against: bool,
    pub cex_velocity_against: bool,
}

#[derive(Debug, Clone, Copy)]
pub struct RedeemHoldDecision {
    pub should_hold: bool,
    pub reason: &'static str,
}

pub open spec fn spec_expected_move_usd(current_atr: Num, secs_left: i64) -> Num {
    current_atr.max(Num::one()) * (Num::whole(secs_left).max(Num::one()) / Num::uint(60)).sqrt()
}

/// The move that the volatility makes likely in the time left.
#[verifier::when_used_as_spec(spec_expected_move_usd)]
pub fn expected_move_usd(current_atr: Num, secs_left: i64) -> (r: Num)
    ensures
        r == spec_expected_move_usd(current_atr, secs_left),
{
    current_atr.max(Num::one()) * (Num::whole(secs_left).max(Num::one()) / Num::uint(60)).sqrt()
}

/// Distance in the money over the expected move.
pub open spec fn itm_gap(up: bool, spot: Num, ptb: Num, current_atr: Num, secs_to_end: i64) -> Num {
    let distance = if up {
        (spot - ptb).max(Num::zero())
    } else {
        (ptb - spot).max(Num::zero())
    };
    let m = expected_move_usd(current_atr, secs_to_end);
    if m.le(Num::zero()) {
        Num::zero()
    } else {
        distance / m
    }
}

pub fn itm_gap_z(side: &str, spot: Num, ptb: Num, current_atr: Num, secs_to_end: i64) -> (r: Num)
    ensures
        r == itm_gap(side@ == "UP"@, spot, ptb, current_atr, secs_to_end),
{
    let distance: Num = if same_text(side, "UP") {
        (spot - ptb).max(Num::zero())
    } else {
        (ptb - spot).max(Num::zero())
    };
    let expected_move: Num = expected_move_usd(current_atr, secs_to_end);
    if expected_move.le(Num::zero()) {
        return Num::zero();
    }
    distance / expected_move
}

pub open spec fn in_the_money(up: bool, spot: Num, ptb: Num) -> bool {
    if up {
        spot.gt(ptb)
    } else {
        spot.lt(ptb)
    }
}

pub fn side_is_itm(side: &str, spot: Num, ptb: Num) -> (r: bool)
    ensures
        r == in_the_money(side@ == "UP"@, spot, ptb),
{
    if same_text(side, "UP") {
        spot.gt(ptb)
    } else {
        spot.lt(ptb)
    }
}

/// Distance from the price to beat in percent of it.
pub open spec fn itm_percent(spot: Num, ptb: Num) -> Num {
    if ptb.abs().gt(Num::zero()) {
        (spot - ptb).abs() / ptb.abs() * Num::uint(100)
    } else {
        Num::zero()
    }
}

pub open spec fn is_late(i: RedeemHoldInput<'_>) -> bool {
    i.secs_to_end <= 180 || i.time_pct.ge(Num::uint(75))
}

pub open spec fn is_deep(i: RedeemHoldInput<'_>) -> bool {
    ||| itm_gap(i.side@ == "UP"@, i.spot, i.ptb, i.current_atr, i.secs_to_end).ge(Num::one())
    ||| itm_percent(i.spot, i.ptb).ge(Num::ratio(4, 100))
}

/// The first ground against holding, or the one ground for it.
pub open spec fn hold_reason(i: RedeemHoldInput<'_>) -> Seq<char> {
    if !in_the_money(i.side@ == "UP"@, i.spot, i.ptb) {
        "otm"@
    } else if i.ptb_crossed {
        "ptb_crossed"@
    } else if i.fair_prob.lt(Num::ratio(5, 10)) {
        "salvage_overpay"@
    } else if i.bid.ge(Num::ratio(95, 100)) {
        "bid_near_par"@
    } else if !is_late(i) {
        "time_not_late"@
    } else if !is_deep(i) {
        "distance_not_deep"@
    } else if i.fair_prob.lt(Num::ratio(65, 100)) {
        "fair_prob_low"@
    } else if i.counter_velocity_against || i.cex_velocity_against {
        "counter_momentum"@
    } else {
        "itm_deep_late"@
    }
}

/// A leg is held exactly where it is in the money, uncrossed, fairly likely, below par,
/// late, deep and without momentum against it.
pub open spec fn holds(i: RedeemHoldInput<'_>) -> bool {
    &&& in_the_money(i.side@ == "UP"@, i.spot, i.ptb)
    &&& !i.ptb_crossed
    &&& !i.fair_prob.lt(Num::ratio(5, 10))
    &&& !i.bid.ge(Num::ratio(95, 100))
    &&& is_late(i)
    &&& is_deep(i)
    &&& !i.fair_prob.lt(Num::ratio(65, 100))
    &&& !i.counter_velocity_against
    &&& !i.cex_velocity_against
}

fn verdict(should_hold: bool, reason: &'static str) -> (r: RedeemHoldDecision)
    ensures
        r.should_hold == should_hold,
        r.reason@ == reason@,
{
    RedeemHoldDecision { should_hold, reason }
}

pub fn evaluate_redeem_hold(input: &RedeemHoldInput<'_>) -> (r: RedeemHoldDecision)
    ensures
        r.should_hold == holds(*input),
        r.reason@ == hold_reason(*input),
{
    if !side_is_itm(input.side, input.spot, input.ptb) {
        return verdict(false, "otm");
    }
    if input.ptb_crossed {
        return verdict(false, "ptb_crossed");
    }
    if input.fair_prob.lt(Num::ratio(5, 10)) {
        return verdict(false, "salvage_overpay");
    }
    if input.bid.ge(Num::ratio(95, 100)) {
        return verdict(false, "bid_near_par");
    }
    let late_time: bool = input.secs_to_end <= REDEEM_HOLD_LATE_SECS || input.time_pct.ge(
        Num::uint(75),
    );
    if !late_time {
        return verdict(false, "time_not_late");
    }
    let gap_z: Num = itm_gap_z(
        input.side,
        input.spot,
        input.ptb,
        input.current_atr,
        input.secs_to_end,
    );
    let itm_pct: Num = if input.ptb.abs().gt(Num::zero()) {
        (input.spot - input.ptb).abs() / input.ptb.abs() * Num::uint(100)
    } else {
        Num::zero()
    };
    let deep_itm: bool = gap_z.ge(Num::one()) || itm_pct.ge(Num::ratio(4, 100));
    if !deep_itm {
        return verdict(false, "distance_not_deep");
    }
    if input.fair_prob.lt(Num::ratio(65, 100)) {
        return verdict(false, "fair_prob_low");
    }
    if input.counter_velocity_against || input.cex_velocity_against {
        return verdict(false, "counter_momentum");
    }
    verdict(true, "itm_deep_late")
}

/// The ground that is named is the one for holding exactly where the leg is held.
pub proof fn law_reason_tells_the_verdict(i: RedeemHoldInput<'_>)
    ensures
        holds(i) <==> hold_reason(i) == "itm_deep_late"@,
{
    reveal_strlit("otm");
    reveal_strlit("ptb_crossed");
    reveal_strlit("salvage_overpay");
    reveal_strlit("bid_near_par");
    reveal_strlit("time_not_late");
    reveal_strlit("distance_not_deep");
    reveal_strlit("fair_prob_low");
    reveal_strlit("counter_momentum");
    reveal_strlit("itm_deep_late");
    assert("time_not_late"@[0] == 't' && "fair_prob_low"@[0] == 'f' && "itm_deep_late"@[0] == 'i');
}

/// Never are both sides of a window in the money.
pub proof fn law_one_side_in_the_money(spot: Num, ptb: Num)
    ensures
        !(in_the_money(true, spot, ptb) && in_the_money(false, spot, ptb)),
{
}

} // verus!
