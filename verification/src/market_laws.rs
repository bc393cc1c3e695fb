//! What holds of the expected move, of the distance measured in it, of the verdict on a
//! leg near its redemption and of the fees.
use crate::cex_micro::lead_bps;
use crate::j_fees::{endgame_buy_hold_net, endgame_scalp_net, leg_fee_usd};
use crate::j_laws::lemma_uint_finite;
use crate::num::Num;
use crate::num_error::{lemma_exact_one, lemma_one_times, lemma_sub_finite, lemma_ten_thousand};
use crate::num_laws::{
    lemma_div_anti, lemma_div_mag, lemma_div_order, lemma_mul_comm, lemma_mul_mono, lemma_mul_order,
    lemma_negated, lemma_one_units, lemma_ratio_one, lemma_self_quotient, lemma_skey_mono,
    lemma_sub_mono, lemma_sub_nonneg, lemma_sub_turned, lemma_units_order, lemma_whole_is_uint,
    lemma_zero_product, lemma_zero_sum, nonneg,
};
use crate::num_ops::{lemma_ratio_mono, lemma_ratio_nonneg, lemma_uint_is_ratio};
use crate::num_root::{lemma_sqrt_one, lemma_sqrt_order};
use crate::redeem_hold::{
    expected_move_usd, holds, in_the_money, itm_gap, itm_percent, RedeemHoldInput,
};
use crate::rounding::{encode, expo, lemma_encode_exact, lemma_encode_mono, sig, units, INF_BITS};
use crate::strategy_j::{gap_z, ptb_dist_pct};
use vstd::arithmetic::power2::{
    lemma2_to64, lemma_pow2_adds, lemma_pow2_pos, lemma_pow2_strictly_increases, pow2,
};
use vstd::prelude::*;

verus! {

/// Seconds, at least one, in minutes.
spec fn minutes(secs: i64) -> Num {
    Num::whole(secs).max(Num::one()) / Num::uint(60)
}

/// A number from one on over another such number is positive and no larger than the first.
proof fn lemma_part(a: Num, d: Num)
    requires
        a.is_finite(),
        d.is_finite(),
        Num::one().le(a),
        Num::one().le(d),
    ensures
        nonneg(a / d),
        (a / d).key() > 0,
        (a / d).le(a),
{
    lemma_div_mag(a, d);
    lemma_one_units();
    lemma_pow2_pos(1074);
    let p = pow2(1074) as int;
    let (ua, ud) = (units(a.mag()), units(d.mag()));
    let one = 0x3FF0_0000_0000_0000int;
    lemma_units_order(one, a.mag());
    lemma_units_order(one, d.mag());
    lemma_units_order(d.mag(), INF_BITS as int);
    lemma_top_units();
    assert(0 < ud && 0 <= ua * p && ua * p * 1 <= ua * ud && 1 * ud <= (ua * p) * 1)
        by (nonlinear_arith)
        requires
            p <= ua,
            p <= ud,
            ud <= p * p,
            0 < p,
    ;
    lemma_encode_mono(ua * p, ud, ua, 1);
    lemma_encode_mono(1, 1, ua * p, ud);
    lemma_encode_exact(a.mag(), 1);
    assert(ua * 1 == ua);
    assert(encode(1, 1) == 1);
}

/// Beyond all finite numbers is less than the square of one's units.
proof fn lemma_top_units()
    ensures
        units(INF_BITS as int) <= pow2(1074) * pow2(1074),
{
    lemma_pow2_adds(1074, 1074);
    lemma_pow2_adds(52, 2046);
    assert(pow2(52) == 0x10_0000_0000_0000) by {
        lemma2_to64();
        lemma_pow2_adds(32, 20);
    }
    let b = INF_BITS as int;
    assert(sig(b) == 0x10_0000_0000_0000 && expo(b) == 2046);
    lemma_pow2_strictly_increases(2098, 2148);
}

/// A count of seconds, and one where there is none, as a number.
proof fn lemma_seconds(secs: i64)
    ensures
        Num::whole(secs).max(Num::one()) == Num::uint(
            if secs < 1 {
                1
            } else {
                secs as u64
            },
        ),
{
    lemma_ratio_one();
    lemma_exact_one();
    if secs >= 0 {
        lemma_whole_is_uint(secs);
        lemma_uint_is_ratio(secs as u64);
        lemma_uint_is_ratio(1);
        lemma_uint_finite(secs as u64);
        if secs >= 1 {
            lemma_ratio_mono(1, 1, secs as u64, 1);
        } else {
            lemma_ratio_mono(0, 1, 1, 1);
        }
    } else {
        reveal(Num::spec_whole);
        lemma_pow2_pos(1074);
        assert(secs * pow2(1074) < 0) by (nonlinear_arith)
            requires
                secs < 0,
                pow2(1074) > 0,
        ;
        let n = secs * pow2(1074);
        lemma_skey_mono(n, n);
        lemma_skey_mono(n, 0);
        lemma_encode_exact(0, 1);
        assert(encode(-n, 1) >= 0) by {
            lemma_encode_mono(0, 1, -n, 1);
        }
    }
}

proof fn lemma_minutes(less: i64, more: i64)
    requires
        less <= more,
    ensures
        nonneg(minutes(less)),
        nonneg(minutes(more)),
        minutes(less).key() > 0,
        minutes(less).le(minutes(more)),
{
    lemma_seconds(less);
    lemma_seconds(more);
    let x: u64 = if less < 1 {
        1
    } else {
        less as u64
    };
    let y: u64 = if more < 1 {
        1
    } else {
        more as u64
    };
    lemma_ratio_one();
    lemma_uint_is_ratio(x);
    lemma_uint_is_ratio(y);
    lemma_uint_is_ratio(60);
    lemma_ratio_mono(1, 1, x, 1);
    lemma_ratio_mono(1, 1, y, 1);
    lemma_ratio_mono(1, 1, 60, 1);
    lemma_ratio_mono(x, 1, y, 1);
    lemma_uint_finite(x);
    lemma_uint_finite(y);
    lemma_uint_finite(60);
    lemma_exact_one();
    lemma_part(Num::uint(x), Num::uint(60));
    lemma_part(Num::uint(y), Num::uint(60));
    lemma_div_order(Num::uint(x), Num::uint(y), Num::uint(60));
}

/// The expected move is positive; it does not fall where the volatility or the time left
/// rises, it is what one dollar or one second make where there is less, and over a minute
/// it is the volatility itself.
pub proof fn law_expected_move_grows(calm: Num, wild: Num, less: i64, more: i64)
    requires
        calm.is_finite(),
        wild.is_finite(),
        calm.le(wild),
        less <= more,
    ensures
        expected_move_usd(calm, less).gt(Num::zero()),
        expected_move_usd(calm, less).le(expected_move_usd(wild, more)),
        calm.le(Num::one()) ==> expected_move_usd(calm, less) == expected_move_usd(
            Num::one(),
            less,
        ),
        less <= 1 ==> expected_move_usd(calm, less) == expected_move_usd(calm, 1),
        Num::one().le(calm) ==> expected_move_usd(calm, 60) == calm,
{
    lemma_minutes(less, more);
    lemma_sqrt_order(minutes(less), minutes(more));
    let (a, b) = (calm.max(Num::one()), wild.max(Num::one()));
    let (s, t) = (minutes(less).sqrt(), minutes(more).sqrt());
    lemma_exact_one();
    lemma_one_units();
    assert(nonneg(a) && nonneg(b) && a.le(b));
    lemma_mul_mono(a, s, t);
    lemma_mul_mono(t, a, b);
    lemma_mul_comm(t, a);
    lemma_mul_comm(t, b);
    lemma_one_times(s);
    lemma_mul_mono(s, Num::one(), a);
    lemma_mul_comm(s, a);
    lemma_mul_comm(s, Num::one());
    assert(minutes(60) == Num::one()) by {
        lemma_seconds(60);
        lemma_uint_finite(60);
        lemma_ratio_one();
        lemma_uint_is_ratio(60);
        lemma_ratio_mono(1, 1, 60, 1);
        lemma_self_quotient(Num::uint(60));
    }
    lemma_sqrt_one();
    lemma_one_times(a);
    lemma_mul_comm(a, Num::one());
    if less <= 1 {
        lemma_seconds(less);
        lemma_seconds(1);
    }
}

/// What the distance over the expected move needs to be a number.
pub open spec fn sound_distance(spot: Num, ptb: Num, atr: Num, secs: i64) -> bool {
    nonneg(spot) && nonneg(ptb) && atr.is_finite() && expected_move_usd(atr, secs).is_finite()
}

/// The distance in expected moves has the sign of the spot's distance from the price to
/// beat, does not fall where the spot rises, and turns its sign where the two prices change
/// places.
pub proof fn law_gap_follows_the_spot(low: Num, high: Num, ptb: Num, atr: Num, secs: i64)
    requires
        sound_distance(low, ptb, atr, secs),
        sound_distance(high, ptb, atr, secs),
        low.le(high),
    ensures
        gap_z(low, ptb, atr, secs).le(gap_z(high, ptb, atr, secs)),
        low.le(ptb) ==> gap_z(low, ptb, atr, secs).le(Num::zero()),
        high.ge(ptb) ==> gap_z(high, ptb, atr, secs).ge(Num::zero()),
        gap_z(low, ptb, atr, secs).key() == -gap_z(ptb, low, atr, secs).key(),
{
    let m = expected_move_usd(atr, secs);
    law_expected_move_grows(atr, atr, secs, secs);
    lemma_sub_mono(low, high, ptb, ptb);
    lemma_sub_finite(low, ptb);
    lemma_sub_finite(high, ptb);
    lemma_sub_finite(ptb, low);
    lemma_div_order(low - ptb, high - ptb, m);
    if low.le(ptb) {
        lemma_sub_nonneg(ptb, low);
        lemma_sub_turned(low, ptb);
        lemma_div_order(low - ptb, low - ptb, m);
    }
    if high.ge(ptb) {
        lemma_sub_nonneg(high, ptb);
    }
    lemma_sub_turned(low, ptb);
    lemma_div_mag(low - ptb, m);
    lemma_div_mag(ptb - low, m);
    assert((low - ptb).mag() > 0 ==> (low - ptb).is_neg() != (ptb - low).is_neg());
}

/// A distance counts for no more where the volatility is higher or more time is left.
pub proof fn law_gap_shrinks_with_the_move(
    spot: Num,
    ptb: Num,
    calm: Num,
    wild: Num,
    less: i64,
    more: i64,
)
    requires
        sound_distance(spot, ptb, calm, less),
        sound_distance(spot, ptb, wild, more),
        calm.le(wild),
        less <= more,
    ensures
        gap_z(spot, ptb, wild, more).mag() <= gap_z(spot, ptb, calm, less).mag(),
{
    law_expected_move_grows(calm, wild, less, more);
    let d = spot - ptb;
    lemma_sub_finite(spot, ptb);
    let (m, n) = (expected_move_usd(calm, less), expected_move_usd(wild, more));
    lemma_div_mag(d, m);
    lemma_div_mag(d, n);
    let a = Num::of(false, d.mag());
    lemma_div_mag(a, m);
    lemma_div_mag(a, n);
    lemma_div_anti(a, m, n);
}

/// For the side in the money its distance is that of the spot, whatever its sign; for the
/// other side it is nothing.
pub proof fn law_distance_in_the_money(up: bool, spot: Num, ptb: Num, atr: Num, secs: i64)
    requires
        sound_distance(spot, ptb, atr, secs),
    ensures
        (if up {
            spot.ge(ptb)
        } else {
            spot.le(ptb)
        }) ==> itm_gap(up, spot, ptb, atr, secs).mag() == gap_z(spot, ptb, atr, secs).mag(),
        !in_the_money(up, spot, ptb) ==> itm_gap(up, spot, ptb, atr, secs).mag() == 0,
        itm_gap(up, spot, ptb, atr, secs).ge(Num::zero()),
        itm_gap(true, spot, ptb, atr, secs) == itm_gap(false, ptb, spot, atr, secs),
{
    law_expected_move_grows(atr, atr, secs, secs);
    let m = expected_move_usd(atr, secs);
    lemma_sub_finite(spot, ptb);
    lemma_sub_finite(ptb, spot);
    lemma_sub_turned(spot, ptb);
    if spot.ge(ptb) {
        lemma_sub_nonneg(spot, ptb);
    }
    if spot.le(ptb) {
        lemma_sub_nonneg(ptb, spot);
    }
    let d = if up {
        spot - ptb
    } else {
        ptb - spot
    };
    let x = d.max(Num::zero());
    lemma_div_mag(x, m);
    lemma_div_mag(spot - ptb, m);
    lemma_div_order(x, x, m);
}

/// A leg that is held is still held with less time left, further in the money, at a lower
/// bid and with a higher fair probability.
pub proof fn law_better_legs_are_held(i: RedeemHoldInput<'_>, j: RedeemHoldInput<'_>)
    requires
        holds(i),
        sound_distance(i.spot, i.ptb, i.current_atr, i.secs_to_end),
        sound_distance(j.spot, j.ptb, j.current_atr, j.secs_to_end),
        (i.side@ == "UP"@) == (j.side@ == "UP"@),
        i.ptb == j.ptb,
        i.ptb.gt(Num::zero()),
        if i.side@ == "UP"@ {
            i.spot.le(j.spot)
        } else {
            j.spot.le(i.spot)
        },
        j.current_atr.le(i.current_atr),
        j.secs_to_end <= i.secs_to_end,
        i.time_pct.le(j.time_pct),
        j.bid.le(i.bid),
        i.fair_prob.le(j.fair_prob),
        !j.ptb_crossed && !j.counter_velocity_against && !j.cex_velocity_against,
        ((j.spot - j.ptb).abs() / j.ptb).is_finite(),
    ensures
        holds(j),
{
    let up = i.side@ == "UP"@;
    law_expected_move_grows(j.current_atr, i.current_atr, j.secs_to_end, i.secs_to_end);
    lemma_sub_finite(i.spot, i.ptb);
    lemma_sub_finite(i.ptb, i.spot);
    lemma_sub_finite(j.spot, j.ptb);
    lemma_sub_finite(j.ptb, j.spot);
    lemma_sub_turned(i.spot, i.ptb);
    lemma_sub_turned(j.spot, j.ptb);
    let (p, q) = if up {
        (i.spot - i.ptb, j.spot - j.ptb)
    } else {
        (i.ptb - i.spot, j.ptb - j.spot)
    };
    if up {
        lemma_sub_mono(i.spot, j.spot, i.ptb, j.ptb);
        lemma_sub_nonneg(i.spot, i.ptb);
    } else {
        lemma_sub_mono(i.ptb, j.ptb, i.spot, j.spot);
        lemma_sub_nonneg(i.ptb, i.spot);
    }
    assert(p.le(q) && p.key() >= 0);
    let (m, n) = (
        expected_move_usd(i.current_atr, i.secs_to_end),
        expected_move_usd(j.current_atr, j.secs_to_end),
    );
    let (a, b) = (p.max(Num::zero()), q.max(Num::zero()));
    lemma_div_order(a, b, m);
    lemma_div_anti(b, n, m);
    // in percent
    let (c, d) = ((i.spot - i.ptb).abs(), (j.spot - j.ptb).abs());
    assert(c.le(d) && nonneg(c) && nonneg(d));
    lemma_div_order(c, d, i.ptb);
    assert((c / i.ptb).key() >= 0 && (d / j.ptb).key() >= 0);
    lemma_uint_finite(100);
    lemma_mul_order(Num::uint(100), c / i.ptb, d / j.ptb);
    lemma_mul_comm(Num::uint(100), c / i.ptb);
    lemma_mul_comm(Num::uint(100), d / j.ptb);
    assert(i.ptb.abs() == i.ptb);
}

/// A leg is held only in the money and never crossed, below 95 cents, fair at 65 percent or
/// more, within the last three minutes or the last quarter, and with no speed against it;
/// and it is held where it is all that and the spot is an expected move or more away.
pub proof fn law_what_a_held_leg_is(i: RedeemHoldInput<'_>)
    requires
        i.side@ == "UP"@ || i.side@ == "DOWN"@,
        sound_distance(i.spot, i.ptb, i.current_atr, i.secs_to_end),
        !i.fair_prob.is_nan(),
        !i.bid.is_nan(),
    ensures
        holds(i) ==> !i.ptb_crossed && !i.counter_velocity_against && !i.cex_velocity_against,
        holds(i) ==> i.bid.lt(Num::ratio(95, 100)) && i.fair_prob.ge(Num::ratio(65, 100)),
        holds(i) ==> i.secs_to_end <= 180 || i.time_pct.ge(Num::uint(75)),
        holds(i) && i.side@ == "UP"@ ==> i.ptb.lt(i.spot),
        holds(i) && i.side@ == "DOWN"@ ==> i.spot.lt(i.ptb),
        ({
            let gz = gap_z(i.spot, i.ptb, i.current_atr, i.secs_to_end);
            &&& if i.side@ == "UP"@ {
                gz.ge(Num::one())
            } else {
                gz.le(Num::one().negated())
            }
            &&& i.secs_to_end <= 180 || i.time_pct.ge(Num::uint(75))
            &&& i.fair_prob.ge(Num::ratio(65, 100))
            &&& i.bid.lt(Num::ratio(95, 100))
            &&& !i.ptb_crossed && !i.counter_velocity_against && !i.cex_velocity_against
        }) ==> holds(i),
{
    reveal_strlit("UP");
    reveal_strlit("DOWN");
    assert("UP"@.len() != "DOWN"@.len());
    let up = i.side@ == "UP"@;
    let (spot, ptb, atr, secs) = (i.spot, i.ptb, i.current_atr, i.secs_to_end);
    lemma_ratio_mono(5, 10, 65, 100);
    lemma_ratio_nonneg(65, 100);
    lemma_ratio_nonneg(95, 100);
    lemma_exact_one();
    lemma_one_units();
    lemma_negated(Num::one());
    law_gap_follows_the_spot(spot, spot, ptb, atr, secs);
    law_distance_in_the_money(up, spot, ptb, atr, secs);
    let gz = gap_z(spot, ptb, atr, secs);
    let g = itm_gap(up, spot, ptb, atr, secs);
    if up && gz.ge(Num::one()) {
        assert(in_the_money(true, spot, ptb));
        assert(g.key() == gz.key());
    }
    if !up && gz.le(Num::one().negated()) {
        assert(in_the_money(false, spot, ptb));
        assert(g.key() == -gz.key());
    }
}

/// What the fees of a clip need to be numbers.
pub open spec fn sound_fees(price: Num, shares: Num, rate: Num) -> bool {
    nonneg(price) && nonneg(shares) && nonneg(rate) && (price * shares).is_finite() && leg_fee_usd(
        price,
        shares,
        rate,
    ).is_finite()
}

/// A leg's fee is not negative, nothing at a rate of nothing, the whole value at ten
/// thousand basis points, and it does not fall where the rate rises.
pub proof fn law_fee_follows_its_rate(price: Num, shares: Num, low: Num, high: Num)
    requires
        sound_fees(price, shares, low),
        sound_fees(price, shares, high),
        low.le(high),
    ensures
        leg_fee_usd(price, shares, low).ge(Num::zero()),
        leg_fee_usd(price, shares, low).le(leg_fee_usd(price, shares, high)),
        low.mag() == 0 ==> leg_fee_usd(price, shares, low).mag() == 0,
        low == Num::uint(10_000) && price.gt(Num::zero()) && shares.gt(Num::zero())
            ==> leg_fee_usd(price, shares, low).key() == (price * shares).key(),
{
    let d = Num::uint(10_000);
    let v = price * shares;
    lemma_ten_thousand();
    lemma_ratio_one();
    lemma_uint_is_ratio(10_000);
    lemma_ratio_mono(1, 1, 10_000, 1);
    lemma_mul_order(price, shares, shares);
    lemma_div_order(low, high, d);
    lemma_div_mag(low, d);
    lemma_part_of(low, d);
    lemma_part_of(high, d);
    lemma_mul_order(v, low / d, high / d);
    if low.mag() == 0 {
        lemma_zero_product(low / d, v);
    }
    if low == d {
        lemma_self_quotient(d);
        lemma_one_times(v);
        lemma_mul_comm(v, Num::one());
    }
}

/// A number from zero on over one from one on is finite.
pub(crate) proof fn lemma_part_of(a: Num, d: Num)
    requires
        nonneg(a),
        d.is_finite(),
        Num::one().le(d),
    ensures
        nonneg(a / d),
        (a / d).le(a),
{
    lemma_div_mag(a, d);
    lemma_one_units();
    lemma_pow2_pos(1074);
    let p = pow2(1074) as int;
    let (ua, ud) = (units(a.mag()), units(d.mag()));
    lemma_units_order(0x3FF0_0000_0000_0000, d.mag());
    lemma_units_order(0, a.mag());
    lemma_units_order(a.mag(), a.mag());
    assert(0 < ud && 0 <= ua * p && ua * p * 1 <= ua * ud) by (nonlinear_arith)
        requires
            0 <= ua,
            p <= ud,
            0 < p,
    ;
    lemma_encode_mono(ua * p, ud, ua, 1);
    lemma_encode_exact(a.mag(), 1);
    assert(ua * 1 == ua);
    lemma_div_order(a, a, d);
}

/// What a clip's result needs to be a number.
pub open spec fn sound_result(price: Num, out: Num, clip: Num, rate: Num) -> bool {
    let shares = clip / price;
    &&& price.is_finite() && price.gt(Num::zero()) && nonneg(out) && out.gt(Num::zero())
    &&& nonneg(clip) && clip.gt(Num::zero())
    &&& sound_fees(price, shares, rate) && sound_fees(out, shares, rate)
    &&& (shares * out - clip - leg_fee_usd(price, shares, rate)).is_finite()
}

/// Higher fees do not make the result of a clip better, lost or won. Without fees a lost
/// clip costs itself, and a won one that was bought at a dollar or less costs nothing.
pub proof fn law_fees_lower_the_result(price: Num, clip: Num, won: bool, low: Num, high: Num)
    requires
        sound_result(price, Num::one(), clip, low),
        sound_result(price, Num::one(), clip, high),
        low.le(high),
    ensures
        endgame_buy_hold_net(price, clip, won, high).le(
            endgame_buy_hold_net(price, clip, won, low),
        ),
        low.mag() == 0 ==> endgame_buy_hold_net(price, clip, false, low).key() == -clip.key(),
        low.mag() == 0 && price.le(Num::one()) ==> endgame_buy_hold_net(
            price,
            clip,
            true,
            low,
        ).ge(Num::zero()),
{
    let shares = clip / price;
    let one = Num::one();
    lemma_exact_one();
    law_fee_follows_its_rate(price, shares, low, high);
    law_fee_follows_its_rate(price, shares, high, high);
    law_fee_follows_its_rate(one, shares, low, high);
    law_fee_follows_its_rate(one, shares, high, high);
    let (a, b) = (leg_fee_usd(price, shares, low), leg_fee_usd(price, shares, high));
    let (c, d) = (leg_fee_usd(one, shares, low), leg_fee_usd(one, shares, high));
    lemma_negated(clip);
    lemma_sub_mono(clip.negated(), clip.negated(), b, a);
    lemma_one_times(shares);
    lemma_mul_comm(shares, one);
    lemma_sub_finite(shares, clip);
    lemma_sub_mono(shares - clip, shares - clip, b, a);
    lemma_sub_mono(shares - clip - b, shares - clip - a, d, c);
    if low.mag() == 0 {
        lemma_less_nothing(clip.negated(), a);
        lemma_less_nothing(shares - clip, a);
        lemma_less_nothing(shares - clip - a, c);
        if price.le(one) {
            lemma_div_anti(clip, price, one);
            lemma_over_one(clip);
            lemma_sub_nonneg(shares, clip);
        }
    }
}

/// Higher fees do not make the result of a round trip better; without them a higher price
/// of the sale does not make it worse.
pub proof fn law_fees_lower_the_round_trip(buy: Num, sell: Num, clip: Num, low: Num, high: Num)
    requires
        sound_result(buy, sell, clip, low),
        sound_result(buy, sell, clip, high),
        low.le(high),
    ensures
        endgame_scalp_net(buy, sell, clip, high).le(endgame_scalp_net(buy, sell, clip, low)),
        low.mag() == 0 && buy.lt(sell) ==> endgame_scalp_net(buy, sell, clip, low).key() == (clip
            / buy * sell - clip).key(),
{
    let shares = clip / buy;
    law_fee_follows_its_rate(buy, shares, low, high);
    law_fee_follows_its_rate(buy, shares, high, high);
    law_fee_follows_its_rate(sell, shares, low, high);
    law_fee_follows_its_rate(sell, shares, high, high);
    let (a, b) = (leg_fee_usd(buy, shares, low), leg_fee_usd(buy, shares, high));
    let (c, d) = (leg_fee_usd(sell, shares, low), leg_fee_usd(sell, shares, high));
    lemma_mul_comm(shares, sell);
    lemma_mul_order(sell, shares, shares);
    let gross = shares * sell;
    lemma_sub_finite(gross, clip);
    lemma_sub_mono(gross - clip, gross - clip, b, a);
    lemma_sub_mono(gross - clip - b, gross - clip - a, d, c);
    if low.mag() == 0 {
        lemma_less_nothing(gross - clip, a);
        lemma_less_nothing(gross - clip - a, c);
    }
}

/// Nothing taken away leaves a number where it was.
proof fn lemma_less_nothing(x: Num, z: Num)
    requires
        !x.is_nan(),
        z.mag() == 0,
    ensures
        (x - z).key() == x.key(),
        !(x - z).is_nan(),
{
    lemma_negated(z);
    lemma_zero_sum(x, z.negated());
}

/// A number over one is itself.
proof fn lemma_over_one(x: Num)
    requires
        nonneg(x),
    ensures
        (x / Num::one()).key() == x.key(),
{
    lemma_exact_one();
    lemma_one_units();
    lemma_pow2_pos(1074);
    lemma_div_mag(x, Num::one());
    lemma_units_order(x.mag(), x.mag());
    lemma_encode_exact(x.mag(), pow2(1074) as int);
    lemma_div_order(x, x, Num::one());
}

/// The distance from the price to beat in percent is not negative, the same on both sides of
/// it, does not fall as the distance grows, and is a hundred where the distance is the price
/// itself.
pub proof fn law_distance_in_percent(near: Num, far: Num, ptb: Num)
    requires
        nonneg(near),
        nonneg(far),
        nonneg(ptb),
        ptb.gt(Num::zero()),
        (near - ptb).abs().le((far - ptb).abs()),
        ((far - ptb).abs() / ptb).is_finite(),
    ensures
        ptb_dist_pct(near, ptb).ge(Num::zero()),
        ptb_dist_pct(near, ptb).le(ptb_dist_pct(far, ptb)),
        near.key() == ptb.key() ==> ptb_dist_pct(near, ptb).mag() == 0,
        (far - ptb).abs() == ptb ==> ptb_dist_pct(far, ptb).key() == Num::uint(100).key(),
        itm_percent(near, ptb) == ptb_dist_pct(near, ptb),
{
    let (a, b) = ((near - ptb).abs(), (far - ptb).abs());
    lemma_sub_finite(near, ptb);
    lemma_sub_finite(far, ptb);
    lemma_uint_finite(100);
    lemma_div_order(a, b, ptb);
    lemma_mul_order(Num::uint(100), a / ptb, b / ptb);
    lemma_mul_comm(Num::uint(100), a / ptb);
    lemma_mul_comm(Num::uint(100), b / ptb);
    if near.key() == ptb.key() {
        lemma_sub_nonneg(near, ptb);
        lemma_sub_nonneg(ptb, near);
        lemma_sub_turned(near, ptb);
        lemma_div_mag(a, ptb);
        lemma_zero_product(a / ptb, Num::uint(100));
    }
    if b == ptb {
        lemma_self_quotient(ptb);
        lemma_one_times(Num::uint(100));
    }
}

/// The lead of the exchange is ten thousand basis points where it is as far from the spot as
/// the spot is from nothing, and does not fall where the last price rises.
pub proof fn law_lead_in_basis_points(low: Num, high: Num, spot: Num)
    requires
        nonneg(low) && nonneg(high) && nonneg(spot),
        low.gt(Num::zero()) && spot.gt(Num::zero()),
        low.le(high),
        ((low - spot) / spot).is_finite(),
        ((high - spot) / spot).is_finite(),
    ensures
        lead_bps(low, Some(spot)) is Some && lead_bps(high, Some(spot)) is Some,
        (lead_bps(low, Some(spot))->0).le(lead_bps(high, Some(spot))->0),
        high - spot == spot ==> (lead_bps(high, Some(spot))->0).key() == Num::uint(10_000).key(),
        lead_bps(low, None) is None,
{
    lemma_ten_thousand();
    lemma_sub_finite(low, spot);
    lemma_sub_finite(high, spot);
    lemma_sub_mono(low, high, spot, spot);
    lemma_div_order(low - spot, high - spot, spot);
    lemma_mul_order(Num::uint(10_000), (low - spot) / spot, (high - spot) / spot);
    if high - spot == spot {
        lemma_self_quotient(spot);
        lemma_one_times(Num::uint(10_000));
    }
}

} // verus!
