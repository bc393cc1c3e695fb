//! What the endgame owes: how far the entry bar falls, how much a safe gap deploys, and the
//! conditions under which a buy is made and not only allowed.
use crate::cex_micro::CexMicroSnapshot;
use crate::client::PricesState;
use crate::config::{Config, JEndgameConfig};
use crate::j_controller::{
    avg_entry, blend, book_contradicts, book_score, composite_plan, confidence_of, deployed,
    enter_bar, eps, exposure_cap, flow_score, full_gap, gap_score, insurance_plan,
    lemma_cap_is_number, momentum_score, profit_gap_usd, profit_increment, ramp, redeem_edge,
    redeem_pnl, reload_left, reload_plan, rescue_left, tail_cap, target_exposure, tick_plan,
    weight_sum,
};
use crate::j_fees::leg_fee_usd;
use crate::j_laws::{
    law_ramp_full_above, law_ramp_is_share, lemma_blend_share, sound_bar, sound_flow, sound_scores,
};
use crate::market_laws::{law_fee_follows_its_rate, sound_fees};
use crate::mid_cross_tracker::MidCrossSnapshot;
use crate::num::Num;
use crate::num_error::{
    dist, exact, lemma_billionth, lemma_div_error, lemma_exact_one, lemma_one_times,
    lemma_sub_finite, parts, trace,
};
use crate::num_laws::{
    lemma_add_comm, lemma_add_grows, lemma_add_nonneg, lemma_mul_comm, lemma_mul_mag,
    lemma_mul_mono, lemma_mul_share, lemma_negated, lemma_ratio_one, lemma_self_difference,
    lemma_sub_mono, lemma_sum_mono, lemma_zero_sum, nonneg,
};
use crate::num_ops::{lemma_ratio_mono, lemma_ratio_nonneg};
use crate::plan_laws::{lemma_two_is_finite, sound_target};
use crate::score_laws::lemma_scores_are_shares;
use crate::strategy::{SpotSignalSnapshot, TradeTapeSnapshot};
use crate::strategy_j::{directional_entry_allowed, gap_z, ptb_dist_pct, EndgameTier, JWindowState};
use crate::trader::WindowState;
use vstd::prelude::*;

verus! {

/// The entry bar is the configured one where the ask is not cheap and the gap not safe. A
/// gap that is safe in full lowers it by ten hundredths, a cheap ask by fourteen hundredths
/// of the share by which it lies below the cheap limit; never below forty hundredths.
pub proof fn law_bar_at_its_ends(cfg: JEndgameConfig, ask: Num, gz: Num)
    requires
        sound_bar(cfg),
        gz.is_finite(),
        !ask.is_nan(),
    ensures
        ({
            let (safe, full) = (
                cfg.full_size_gap_z * Num::ratio(75, 100),
                cfg.full_size_gap_z * Num::ratio(125, 100),
            );
            let cheap = Num::zero().lt(ask) && ask.le(cfg.cheap_max_ask);
            let bar = enter_bar(cfg, ask, gz);
            let low = Num::ratio(40, 100);
            let below = (cfg.cheap_max_ask - ask) / cfg.cheap_max_ask.max(Num::ratio(1, 100));
            &&& !cheap && gz.abs().lt(safe) ==> bar == cfg.conf_enter
            &&& !cheap && full.le(gz.abs()) && safe.le(gz.abs()) ==> bar == (cfg.conf_enter
                - Num::ratio(10, 100)).clamp(low, cfg.conf_enter)
            &&& cheap && gz.abs().lt(safe) && Num::zero().le(below) && below.le(Num::one()) ==> bar
                == (cfg.conf_enter - Num::ratio(14, 100) * below).clamp(low, cfg.conf_enter)
        }),
{
    let full = cfg.full_size_gap_z;
    lemma_ratio_one();
    lemma_ratio_nonneg(75, 100);
    lemma_ratio_mono(75, 100, 1, 1);
    lemma_mul_share(Num::ratio(75, 100), full);
    lemma_ratio_nonneg(40, 100);
    lemma_ratio_nonneg(10, 100);
    lemma_ratio_mono(10, 100, 1, 1);
    lemma_one_times(Num::ratio(10, 100));
    lemma_mul_comm(Num::ratio(10, 100), Num::one());
    if (full * Num::ratio(125, 100)).le(gz.abs()) {
        law_ramp_full_above(
            gz.abs(),
            full * Num::ratio(75, 100),
            full * Num::ratio(125, 100),
        );
    }
}

/// A safe gap deploys at least fifty-five hundredths of the rescue limit, and one of half as
/// much again as the full gap all of it, as far as the cap allows.
pub proof fn law_safe_gap_deploys(
    config: Config,
    rescue_spent: Num,
    gap: Num,
    gz: Num,
    confidence: Num,
    enter: Num,
    ask: Num,
)
    requires
        sound_target(config, enter),
        gz.is_finite(),
        gz.abs().ge(config.j_endgame.full_size_gap_z * Num::ratio(75, 100)),
    ensures
        ({
            let t = target_exposure(config, rescue_spent, gap, gz, confidence, enter, ask);
            let cap = exposure_cap(config, ask);
            let limit = config.j_endgame.effective_max_rescue_usd(&config.session);
            let wide = config.j_endgame.full_size_gap_z * Num::ratio(15, 10);
            &&& (Num::ratio(55, 100) * limit).min(cap).le(t)
            &&& gz.abs().ge(wide) ==> ((Num::ratio(55, 100) + Num::ratio(45, 100)) * limit).min(
                cap,
            ).le(t)
        }),
{
    let cfg = config.j_endgame;
    let full = cfg.full_size_gap_z;
    let (lo, hi) = (full * Num::ratio(75, 100), full * Num::ratio(15, 10));
    let m = cfg.effective_max_rescue_usd(&config.session);
    lemma_cap_is_number(config, ask);
    lemma_ratio_one();
    lemma_ratio_nonneg(75, 100);
    lemma_ratio_mono(75, 100, 1, 1);
    lemma_mul_share(Num::ratio(75, 100), full);
    law_ramp_is_share(gz.abs(), lo, hi);
    let r = ramp(gz.abs(), lo, hi);
    let (a, b) = (Num::ratio(55, 100), Num::ratio(45, 100));
    lemma_ratio_nonneg(55, 100);
    lemma_ratio_nonneg(45, 100);
    lemma_ratio_mono(55, 100, 1, 1);
    lemma_ratio_mono(45, 100, 1, 1);
    lemma_mul_share(r, b);
    lemma_two_is_finite();
    lemma_sum_mono(a, Num::one(), b * r, Num::one());
    lemma_sum_mono(a, Num::one(), b, Num::one());
    lemma_add_grows(a, b * r);
    law_ramp_is_share(confidence, enter, Num::one());
    let eff = ramp(confidence, enter, Num::one());
    let s = eff.max(a + b * r);
    lemma_mul_mono(m, a, s);
    lemma_mul_comm(m, a);
    lemma_mul_comm(m, s);
    lemma_mul_mag(s, m);
    lemma_mul_mag(a, m);
    if gz.abs().ge(hi) {
        law_ramp_full_above(gz.abs(), lo, hi);
        lemma_one_times(b);
        lemma_mul_comm(b, Num::one());
        lemma_mul_mono(m, a + b, s);
        lemma_mul_comm(m, a + b);
        lemma_mul_mag(a + b, m);
    }
}

/// Where nothing vetoes, a gap whose score is forty-five hundredths or more carries
/// seventy-two hundredths of that score into the confidence, whatever the other signals say;
/// and a gap of a quarter more than the full one makes it ninety-six hundredths.
pub proof fn law_strong_gap_carries_the_confidence(
    cfg: JEndgameConfig,
    winner: Seq<char>,
    gz: Num,
    s: SpotSignalSnapshot,
    m: MidCrossSnapshot,
    c: CexMicroSnapshot,
    t: TradeTapeSnapshot,
)
    requires
        sound_scores(cfg),
        sound_flow(c, t),
        gz.is_finite(),
        !gap_score(cfg, gz).le(Num::zero()),
        !book_contradicts(cfg, winner, m),
        !weight_sum(cfg).le(Num::zero()),
    ensures
        gap_score(cfg, gz).ge(Num::ratio(45, 100)) ==> (gap_score(cfg, gz) * Num::ratio(72, 100)).le(
            confidence_of(cfg, winner, gz, s, m, c, t),
        ),
        gz.abs().ge(full_gap(cfg) * Num::ratio(125, 100)) && gz.abs().ge(
            full_gap(cfg) * Num::ratio(75, 100),
        ) ==> (Num::ratio(58, 100) + Num::ratio(38, 100)).le(
            confidence_of(cfg, winner, gz, s, m, c, t),
        ),
{
    lemma_scores_are_shares(cfg, winner, gz, s, m, c, t);
    let gap = gap_score(cfg, gz);
    let full = full_gap(cfg);
    let (lo, hi) = (full * Num::ratio(75, 100), full * Num::ratio(125, 100));
    lemma_ratio_one();
    lemma_ratio_nonneg(75, 100);
    lemma_ratio_mono(75, 100, 1, 1);
    lemma_billionth();
    lemma_mul_share(Num::ratio(75, 100), full);
    lemma_ratio_nonneg(72, 100);
    lemma_ratio_nonneg(28, 100);
    lemma_ratio_mono(72, 100, 1, 1);
    lemma_ratio_mono(28, 100, 1, 1);
    let mom = momentum_score(cfg, winner, s);
    let book = book_score(cfg, winner, m);
    let flow = flow_score(winner, c, t);
    lemma_blend_share(cfg, gap, mom, book, flow);
    let b = blend(cfg, gap, mom, book, flow);
    lemma_mul_share(gap, Num::ratio(72, 100));
    lemma_mul_share(b, Num::ratio(28, 100));
    lemma_mul_comm(b, Num::ratio(28, 100));
    lemma_mul_comm(gap, Num::ratio(72, 100));
    let x = gap * Num::ratio(72, 100);
    let y = b * Num::ratio(28, 100);
    lemma_add_nonneg(x, y);
    lemma_ratio_nonneg(58, 100);
    lemma_ratio_nonneg(38, 100);
    lemma_ratio_mono(58, 100, 1, 1);
    lemma_ratio_mono(38, 100, 1, 1);
    law_ramp_is_share(gz.abs(), lo, hi);
    lemma_mul_share(ramp(gz.abs(), lo, hi), Num::ratio(38, 100));
    lemma_add_nonneg(Num::ratio(58, 100), Num::ratio(38, 100) * ramp(gz.abs(), lo, hi));
    lemma_add_nonneg(Num::ratio(58, 100), Num::ratio(38, 100));
    if hi.le(gz.abs()) {
        law_ramp_full_above(gz.abs(), lo, hi);
        lemma_one_times(Num::ratio(38, 100));
        lemma_mul_comm(Num::ratio(38, 100), Num::one());
    }
}

/// A winner that is sure enough is bought: where the ask may be paid and is not a first buy
/// too dear for its gap, the confidence reaches the bar, there is room under the cap, the
/// profit target is within reach, and the step is large enough.
pub proof fn law_sure_winner_is_bought(
    config: Config,
    state: JWindowState,
    win_state: WindowState,
    winner: Seq<char>,
    ask: Num,
    gz: Num,
    confidence: Num,
    elapsed_pct: Num,
    available_cash: Num,
)
    requires
        Num::zero().lt(ask),
        ask.le(config.j_endgame.final_seal_max_ask),
        ({
            ||| !state.rescue_spent_usd.lt(eps())
            ||| ask.le(config.j_endgame.expensive_ask_threshold)
            ||| config.j_endgame.expensive_min_gap_z.le(gz.abs() + eps())
        }),
        enter_bar(config.j_endgame, ask, gz).le(confidence),
        eps().lt(exposure_cap(config, ask)),
        (state.rescue_spent_usd + eps()).lt(exposure_cap(config, ask)),
        ({
            let spent = state.rescue_spent_usd;
            let gap = profit_increment(config, win_state, winner, ask);
            let left = rescue_left(config, spent, win_state.spent, available_cash);
            let enter = enter_bar(config.j_endgame, ask, gz);
            let want = target_exposure(config, spent, gap, gz, confidence, enter, ask) - spent;
            let step = want.clamp(Num::zero(), left);
            &&& gap.le(Num::zero()) || (ask.le(config.j_endgame.abort_rescue_if_ask_above)
                && gap.le(left + eps()) && (spent + gap).le(exposure_cap(config, ask) + eps()))
            &&& config.j_endgame.effective_probe_clip_usd(&config.session).le(step + eps())
            &&& spent.gt(eps()) ==> config.j_endgame.effective_min_increment_usd(
                &config.session,
            ).le(step + eps())
        }),
    ensures
        composite_plan(
            config,
            state,
            win_state,
            winner,
            ask,
            gz,
            confidence,
            elapsed_pct,
            available_cash,
        ) matches Some(p) && p.side == winner && p.tier == EndgameTier::FinalSeal && p.max_pay
            == ask.min(config.j_endgame.taker_max_ask),
{
}

/// A fallen ask of the committed side is bought again: where reloads are on and not used up,
/// that side wins by enough, and the ask is low and far enough below the average paid.
pub proof fn law_fallen_ask_is_reloaded(
    config: Config,
    state: JWindowState,
    win_state: WindowState,
    winner: Seq<char>,
    ask: Num,
    gz: Num,
    available_cash: Num,
)
    requires
        config.j_endgame.discount_reload_enabled,
        state.has_primary_exposure(),
        state.primary() == Some(winner),
        winner == "UP"@ || winner == "DOWN"@,
        Num::zero().lt(ask),
        ask.le(config.j_endgame.discount_reload_max_ask),
        state.discount_reload_clips < config.j_endgame.discount_reload_max_clips,
        avg_entry(state, win_state.up_shares, win_state.down_shares) is Some,
        config.j_endgame.discount_reload_min_drop.le(
            avg_entry(state, win_state.up_shares, win_state.down_shares)->0 - ask + eps(),
        ),
        winner == "UP"@ ==> config.j_endgame.discount_reload_min_gap_z.le(gz + eps()),
        winner == "DOWN"@ ==> config.j_endgame.discount_reload_min_gap_z.le(gz.negated() + eps()),
        config.j_endgame.effective_probe_clip_usd(&config.session).le(
            reload_left(config, state, win_state.spent, ask, available_cash) + eps(),
        ),
    ensures
        reload_plan(config, state, win_state, winner, ask, gz, available_cash) matches Some(p)
            && p.side == winner && p.tier == EndgameTier::DiscountReload && p.max_pay == ask.min(
            config.j_endgame.taker_max_ask,
        ),
{
    reveal_strlit("UP");
    reveal_strlit("DOWN");
    assert("UP"@.len() != "DOWN"@.len());
}

/// Insurance that is on is bought early in a window that hangs in the balance, on a side that
/// is cheap enough.
pub proof fn law_cheap_insurance_is_bought(
    cfg: JEndgameConfig,
    state: JWindowState,
    elapsed_pct: Num,
    spot: Num,
    ptb: Num,
    prices: PricesState,
    m: MidCrossSnapshot,
    min_atr: Num,
    current_atr: Num,
)
    requires
        cfg.insurance_enabled,
        elapsed_pct.le(cfg.insurance_max_elapsed_pct),
        state.insurance_clips < cfg.insurance_max_clips,
        (state.insurance_spent_usd + eps()).lt(cfg.insurance_tier_usd),
        min_atr.le(current_atr),
        ptb_dist_pct(spot, ptb).is_finite(),
        ptb_dist_pct(spot, ptb).le(cfg.insurance_max_ptb_dist_pct),
        m.peak_lead_gap.lt(cfg.insurance_max_lead_gap),
        Num::zero().lt(prices.up.ask) && Num::zero().lt(prices.down.ask),
        prices.up.ask.le(cfg.insurance_max_ask) || prices.down.ask.le(cfg.insurance_max_ask),
    ensures
        insurance_plan(
            cfg,
            state,
            elapsed_pct,
            spot,
            ptb,
            prices,
            m,
            min_atr,
            current_atr,
        ) matches Some(p) && p.tier == EndgameTier::Insurance && p.max_pay.le(prices.up.ask)
            && p.max_pay.le(prices.down.ask),
{
}

/// The money that closes the profit gap is no more than that: what it earns at the edge of
/// the ask is what was missing, up to rounding. Where nothing is missing it is nothing.
pub proof fn law_profit_gap_is_not_overdone(
    up_shares: Num,
    down_shares: Num,
    spent: Num,
    winner: Seq<char>,
    ask: Num,
    target: Num,
    fee_bps: Num,
)
    requires
        redeem_edge(ask, fee_bps).ge(eps()),
        redeem_edge(ask, fee_bps).is_finite(),
    ensures
        ({
            let pnl = redeem_pnl(up_shares, down_shares, spent, winner, fee_bps);
            let r = profit_gap_usd(
                up_shares,
                down_shares,
                spent,
                winner,
                ask,
                target,
                fee_bps,
            );
            let missing = target - pnl;
            let edge = redeem_edge(ask, fee_bps);
            &&& target.le(pnl + eps()) ==> r == Num::zero()
            &&& nonneg(missing) && (pnl + eps()).lt(target) && r.is_finite() ==> parts() * dist(
                exact(r) * exact(edge),
                exact(missing),
            ) <= exact(missing) + parts() * trace() * exact(edge)
        }),
{
    lemma_billionth();
    let pnl = redeem_pnl(up_shares, down_shares, spent, winner, fee_bps);
    let missing = target - pnl;
    let edge = redeem_edge(ask, fee_bps);
    if nonneg(missing) && (missing / edge).is_finite() {
        lemma_div_error(missing, edge);
    }
}

/// A profit target that is out of reach is not chased: where its ask is above the abort limit,
/// or it needs more than the money left, or more than the cap leaves room for, nothing is
/// bought.
pub proof fn law_hopeless_target_is_not_chased(
    config: Config,
    state: JWindowState,
    win_state: WindowState,
    winner: Seq<char>,
    ask: Num,
    gz: Num,
    confidence: Num,
    elapsed_pct: Num,
    available_cash: Num,
)
    requires
        ({
            let spent = state.rescue_spent_usd;
            let gap = profit_increment(config, win_state, winner, ask);
            &&& Num::zero().lt(gap)
            &&& {
                ||| config.j_endgame.abort_rescue_if_ask_above.lt(ask)
                ||| (rescue_left(config, spent, win_state.spent, available_cash) + eps()).lt(gap)
                ||| (exposure_cap(config, ask) + eps()).lt(spent + gap)
            }
        }),
    ensures
        composite_plan(
            config,
            state,
            win_state,
            winner,
            ask,
            gz,
            confidence,
            elapsed_pct,
            available_cash,
        ) is None,
{
}

/// A reload costs no more than the money left for the rescue, than the room under the cap of
/// its ask and than what reloads may still cost.
pub proof fn law_reload_money_is_the_smallest_limit(
    config: Config,
    state: JWindowState,
    win_spent: Num,
    ask: Num,
    available_cash: Num,
)
    requires
        !rescue_left(config, state.rescue_spent_usd, win_spent, available_cash).is_nan(),
        !(tail_cap(config, ask) - state.rescue_spent_usd).is_nan(),
        !(config.j_endgame.effective_discount_reload_max_usd(&config.session)
            - state.discount_reload_spent_usd).is_nan(),
    ensures
        ({
            let r = reload_left(config, state, win_spent, ask, available_cash);
            let by_money = rescue_left(
                config,
                state.rescue_spent_usd,
                win_spent,
                available_cash,
            );
            let by_cap = tail_cap(config, ask) - state.rescue_spent_usd;
            let by_reloads = config.j_endgame.effective_discount_reload_max_usd(&config.session)
                - state.discount_reload_spent_usd;
            &&& r.le(by_money.max(Num::zero()))
            &&& r.le(by_cap.max(Num::zero()))
            &&& r.le(by_reloads.max(Num::zero()))
            &&& r == by_money || r == by_cap || r == by_reloads || r == Num::zero()
            &&& Num::zero().le(by_money) && Num::zero().le(by_cap) && Num::zero().le(by_reloads)
                ==> (r == by_money || r == by_cap || r == by_reloads)
        }),
{
}

/// A higher fee does not raise the profit at redemption, and one of everything leaves the
/// loss of what was spent.
pub proof fn law_fee_lowers_the_redeem_profit(
    shares: Num,
    other: Num,
    spent: Num,
    low: Num,
    high: Num,
)
    requires
        nonneg(shares) && Num::zero().lt(shares),
        nonneg(spent),
        sound_fees(Num::one(), shares, low),
        sound_fees(Num::one(), shares, high),
        low.le(high),
    ensures
        redeem_pnl(shares, other, spent, "UP"@, high).le(
            redeem_pnl(shares, other, spent, "UP"@, low),
        ),
        redeem_pnl(other, shares, spent, "DOWN"@, low) == redeem_pnl(
            shares,
            other,
            spent,
            "UP"@,
            low,
        ),
        low == Num::uint(10_000) ==> redeem_pnl(shares, other, spent, "UP"@, low).key()
            == -spent.key(),
{
    reveal_strlit("UP");
    reveal_strlit("DOWN");
    assert("UP"@.len() != "DOWN"@.len());
    let one = Num::one();
    lemma_exact_one();
    law_fee_follows_its_rate(one, shares, low, high);
    law_fee_follows_its_rate(one, shares, high, high);
    let (a, b) = (leg_fee_usd(one, shares, low), leg_fee_usd(one, shares, high));
    lemma_sub_finite(shares, a);
    lemma_sub_finite(shares, b);
    lemma_sub_mono(shares, shares, b, a);
    lemma_sub_mono(shares - b, shares - a, spent, spent);
    if low == Num::uint(10_000) {
        lemma_one_times(shares);
        assert(a.key() == shares.key());
        assert(a == shares);
        lemma_self_difference(shares);
        lemma_negated(spent);
        lemma_add_comm(shares - a, spent.negated());
        lemma_zero_sum(spent.negated(), shares - a);
    }
}

/// Money is deployed in a window where anything was spent or any shares are held, and the
/// fee is seventy basis points where none is set.
pub proof fn law_any_position_counts_as_deployed(
    config: Config,
    same: Config,
    win_state: WindowState,
    winner: Seq<char>,
    ask: Num,
)
    requires
        config.j_endgame.fee_rate_bps is None,
        same.j_endgame.fee_rate_bps == Some(Num::uint(70)),
        same.j_endgame.target_profit_usd == config.j_endgame.target_profit_usd,
    ensures
        deployed(win_state.spent, win_state.up_shares, win_state.down_shares) <==> eps().lt(
            win_state.spent,
        ) || eps().lt(win_state.up_shares) || eps().lt(win_state.down_shares),
        profit_increment(config, win_state, winner, ask) == profit_increment(
            same,
            win_state,
            winner,
            ask,
        ),
{
}

/// Whatever a tick plans on the winner it plans with confidence: the side that the spot is on
/// may be bought, and what the spot, the book, the exchange and the tape say of it reaches the
/// bar at its own ask. Without a side that the spot is on nothing is planned.
pub proof fn law_tick_buys_with_confidence(
    config: Config,
    state: JWindowState,
    win_state: WindowState,
    prices: PricesState,
    spot: Num,
    ptb: Num,
    secs_to_end: i64,
    elapsed_pct: Num,
    current_atr: Num,
    min_atr: Num,
    s: SpotSignalSnapshot,
    m: MidCrossSnapshot,
    c: CexMicroSnapshot,
    t: TradeTapeSnapshot,
    available_cash: Num,
)
    ensures
        ({
            let plan = tick_plan(
                config,
                state,
                win_state,
                prices,
                spot,
                ptb,
                secs_to_end,
                elapsed_pct,
                current_atr,
                min_atr,
                s,
                m,
                c,
                t,
                available_cash,
            );
            let gz = gap_z(spot, ptb, current_atr, secs_to_end);
            &&& !spot.gt(ptb) && !spot.lt(ptb) ==> plan is None
            &&& plan is Some && (plan->0).tier == EndgameTier::FinalSeal ==> {
                let p = plan->0;
                let ask = if p.side == "UP"@ {
                    prices.up.ask
                } else {
                    prices.down.ask
                };
                &&& p.side == "UP"@ <==> spot.gt(ptb)
                &&& directional_entry_allowed(&config.j_endgame, spot, ptb, &m)
                &&& !confidence_of(config.j_endgame, p.side, gz, s, m, c, t).lt(
                    enter_bar(config.j_endgame, ask, gz),
                )
                &&& !p.max_pay.gt(ask)
            }
        }),
{
    reveal_strlit("UP");
    reveal_strlit("DOWN");
    assert("UP"@.len() != "DOWN"@.len());
}

} // verus!
