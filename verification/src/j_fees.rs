//! Polymarket crypto fee model for J endgame clip math (paper).
use crate::num::Num;
use vstd::prelude::*;

verus! {

pub open spec fn spec_default_crypto_fee_rate_bps() -> Num {
    Num::uint(70)
}

/// Fee rate where none is configured, in basis points.
#[verifier::when_used_as_spec(spec_default_crypto_fee_rate_bps)]
pub fn default_crypto_fee_rate_bps() -> (r: Num)
    ensures
        r == spec_default_crypto_fee_rate_bps(),
{
    Num::uint(70)
}

pub open spec fn spec_leg_fee_usd(price: Num, shares: Num, fee_rate_bps: Num) -> Num {
    if price.le(Num::zero()) || shares.le(Num::zero()) {
        Num::zero()
    } else {
        price * shares * (fee_rate_bps / Num::uint(10_000))
    }
}

/// Fee on notional for a buy/sell leg (simplified: bps × price × shares).
#[verifier::when_used_as_spec(spec_leg_fee_usd)]
pub fn leg_fee_usd(price: Num, shares: Num, fee_rate_bps: Num) -> (r: Num)
    ensures
        r == spec_leg_fee_usd(price, shares, fee_rate_bps),
{
    if price.le(Num::zero()) || shares.le(Num::zero()) {
        return Num::zero();
    }
    price * shares * (fee_rate_bps / Num::uint(10_000))
}

pub open spec fn spec_endgame_buy_hold_net(
    entry_price: Num,
    clip_usd: Num,
    won: bool,
    fee_rate_bps: Num,
) -> Num {
    if entry_price.le(Num::zero()) || clip_usd.le(Num::zero()) {
        Num::zero()
    } else {
        let shares = clip_usd / entry_price;
        let buy_fee = leg_fee_usd(entry_price, shares, fee_rate_bps);
        if !won {
            clip_usd.negated() - buy_fee
        } else {
            shares * Num::one() - clip_usd - buy_fee - leg_fee_usd(
                Num::one(),
                shares,
                fee_rate_bps,
            )
        }
    }
}

/// Net PnL per $1 notional clip: buy at `entry_price`, redeem at $1/share if win.
#[verifier::when_used_as_spec(spec_endgame_buy_hold_net)]
pub fn endgame_buy_hold_net(entry_price: Num, clip_usd: Num, won: bool, fee_rate_bps: Num) -> (r:
    Num)
    ensures
        r == spec_endgame_buy_hold_net(entry_price, clip_usd, won, fee_rate_bps),
{
    if entry_price.le(Num::zero()) || clip_usd.le(Num::zero()) {
        return Num::zero();
    }
    let shares: Num = clip_usd / entry_price;
    let buy_fee: Num = leg_fee_usd(entry_price, shares, fee_rate_bps);
    if !won {
        return clip_usd.negated() - buy_fee;
    }
    let redeem_gross: Num = shares * Num::one();
    let redeem_fee: Num = leg_fee_usd(Num::one(), shares, fee_rate_bps);
    redeem_gross - clip_usd - buy_fee - redeem_fee
}

pub open spec fn spec_endgame_scalp_net(
    buy_price: Num,
    sell_price: Num,
    clip_usd: Num,
    fee_rate_bps: Num,
) -> Num {
    if buy_price.le(Num::zero()) || sell_price.le(buy_price) || clip_usd.le(Num::zero()) {
        Num::zero()
    } else {
        let shares = clip_usd / buy_price;
        shares * sell_price - clip_usd - leg_fee_usd(buy_price, shares, fee_rate_bps) - leg_fee_usd(
            sell_price,
            shares,
            fee_rate_bps,
        )
    }
}

/// Round-trip scalp: buy at buy_price, sell at sell_price (same shares).
#[verifier::when_used_as_spec(spec_endgame_scalp_net)]
pub fn endgame_scalp_net(buy_price: Num, sell_price: Num, clip_usd: Num, fee_rate_bps: Num) -> (r:
    Num)
    ensures
        r == spec_endgame_scalp_net(buy_price, sell_price, clip_usd, fee_rate_bps),
{
    if buy_price.le(Num::zero()) || sell_price.le(buy_price) || clip_usd.le(Num::zero()) {
        return Num::zero();
    }
    let shares: Num = clip_usd / buy_price;
    let buy_fee: Num = leg_fee_usd(buy_price, shares, fee_rate_bps);
    let sell_gross: Num = shares * sell_price;
    let sell_fee: Num = leg_fee_usd(sell_price, shares, fee_rate_bps);
    sell_gross - clip_usd - buy_fee - sell_fee
}

#[derive(Debug, Clone, Copy)]
pub struct EndgameFeeComparison {
    pub buy_98_net: Num,
    pub buy_99_net: Num,
    pub scalp_98_99_net: Num,
}

/// The three endgame clips side by side.
pub fn compare_endgame_clips(clip_usd: Num, fee_rate_bps: Num) -> (r: EndgameFeeComparison)
    ensures
        r.buy_98_net == endgame_buy_hold_net(Num::ratio(98, 100), clip_usd, true, fee_rate_bps),
        r.buy_99_net == endgame_buy_hold_net(Num::ratio(99, 100), clip_usd, true, fee_rate_bps),
        r.scalp_98_99_net == endgame_scalp_net(
            Num::ratio(98, 100),
            Num::ratio(99, 100),
            clip_usd,
            fee_rate_bps,
        ),
{
    EndgameFeeComparison {
        buy_98_net: endgame_buy_hold_net(Num::ratio(98, 100), clip_usd, true, fee_rate_bps),
        buy_99_net: endgame_buy_hold_net(Num::ratio(99, 100), clip_usd, true, fee_rate_bps),
        scalp_98_99_net: endgame_scalp_net(
            Num::ratio(98, 100),
            Num::ratio(99, 100),
            clip_usd,
            fee_rate_bps,
        ),
    }
}

} // verus!
