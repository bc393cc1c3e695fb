//! What a plan buys, for how much, and when.
use crate::client::PricesState;
use crate::config::{Config, JEndgameConfig};
use crate::j_controller::{
    avg_entry, clip_cap, composite_plan, deploy_share, endgame_plan, enter_bar, eps, exposure_cap,
    hedge_plan, insurance_plan, lemma_cap_is_number, opposite, phase_of, profit_increment, ramp,
    redeem_pnl, reload_plan, rescue_left, tail_cap, target_exposure, underdog, window_plan,
    JWindowPhase,
};
use crate::j_fees::leg_fee_usd;
use crate::j_laws::{
    law_ramp_full_above, law_ramp_is_share, law_ramp_rises, law_ramp_zero_below, lemma_uint_finite,
};
use crate::mid_cross_tracker::MidCrossSnapshot;
use crate::num::Num;
use crate::num_error::{lemma_billionth, lemma_one_times, lemma_sub_finite, lemma_ten_thousand};
use crate::num_laws::{
    lemma_add_grows, lemma_add_key, lemma_div_mag, lemma_mul_comm, lemma_mul_mag, lemma_mul_mono,
    lemma_mul_share, lemma_negated, lemma_one_units, lemma_ratio_one, lemma_self_difference,
    lemma_sub_mono, lemma_sum_mono, lemma_units_nonneg, lemma_zero_product, lemma_zero_sum, nonneg,
};
use crate::num_ops::{lemma_ratio_mono, lemma_ratio_nonneg};
use crate::rounding::{expo, lemma_encode_exact, sig, units};
use crate::strategy_j::{directional_entry_allowed, leader, ptb_dist_pct, EndgameTier, JWindowState};
use crate::trader::WindowState;
use vstd::arithmetic::power2::{lemma2_to64, lemma_pow2_adds, lemma_pow2_unfold, pow2};
use vstd::prelude::*;

verus! {

proof fn lemma_sides()
    ensures
        "UP"@ != "DOWN"@,
{
    reveal_strlit("UP");
    reveal_strlit("DOWN");
    assert("UP"@.len() != "DOWN"@.len());
}

/// The spot's winner is UP above the price to beat, DOWN below it, and nobody at it.
pub proof fn law_spot_names_the_winner(spot: Num, ptb: Num)
    requires
        !spot.is_nan(),
        !ptb.is_nan(),
    ensures
        leader(spot, ptb) == Some("UP"@) <==> ptb.lt(spot),
        leader(spot, ptb) == Some("DOWN"@) <==> spot.lt(ptb),
        leader(spot, ptb) is None <==> spot.key() == ptb.key(),
        leader(spot, ptb) == Some("UP"@) <==> leader(ptb, spot) == Some("DOWN"@),
{
    lemma_sides();
}

/// Settings under which the wanted exposure can be compared: a full gap, a bar and a limit
/// that are numbers and not negative.
pub open spec fn sound_target(config: Config, enter: Num) -> bool {
    &&& nonneg(config.j_endgame.full_size_gap_z)
    &&& (config.j_endgame.full_size_gap_z * Num::ratio(15, 10)).is_finite()
    &&& nonneg(enter)
    &&& nonneg(config.j_endgame.effective_max_rescue_usd(&config.session))
}

proof fn lemma_deploy_share(cfg: JEndgameConfig, g1: Num, g2: Num, c1: Num, c2: Num, enter: Num)
    requires
        nonneg(cfg.full_size_gap_z),
        (cfg.full_size_gap_z * Num::ratio(15, 10)).is_finite(),
        nonneg(enter),
        g1.is_finite(),
        g2.is_finite(),
        g1.abs().le(g2.abs()),
        c1.is_finite(),
        c2.is_finite(),
        c1.le(c2),
    ensures
        nonneg(deploy_share(cfg, g1, c1, enter)),
        nonneg(deploy_share(cfg, g2, c2, enter)),
        ramp(c1, enter, Num::one()).le(deploy_share(cfg, g1, c1, enter)),
        deploy_share(cfg, g1, c1, enter).le(deploy_share(cfg, g2, c2, enter)),
{
    let full = cfg.full_size_gap_z;
    let (lo, hi) = (full * Num::ratio(75, 100), full * Num::ratio(15, 10));
    lemma_ratio_one();
    lemma_ratio_mono(75, 100, 1, 1);
    lemma_ratio_nonneg(75, 100);
    lemma_mul_share(Num::ratio(75, 100), full);
    law_ramp_is_share(c1, enter, Num::one());
    law_ramp_is_share(c2, enter, Num::one());
    law_ramp_rises(c1, c2, enter, Num::one());
    let (r1, r2) = (ramp(g1.abs(), lo, hi), ramp(g2.abs(), lo, hi));
    law_ramp_is_share(g1.abs(), lo, hi);
    law_ramp_is_share(g2.abs(), lo, hi);
    law_ramp_rises(g1.abs(), g2.abs(), lo, hi);
    let (a, b) = (Num::ratio(55, 100), Num::ratio(45, 100));
    lemma_ratio_mono(55, 100, 1, 1);
    lemma_ratio_mono(45, 100, 1, 1);
    lemma_ratio_nonneg(55, 100);
    lemma_ratio_nonneg(45, 100);
    lemma_two_is_finite();
    lemma_mul_mono(b, r1, r2);
    lemma_mul_share(r1, b);
    lemma_mul_share(r2, b);
    lemma_sum_mono(a, Num::one(), b * r2, Num::one());
    lemma_sum_mono(a, a, b * r1, b * r2);
}

/// One and one are a finite number.
pub(crate) proof fn lemma_two_is_finite()
    ensures
        (Num::one() + Num::one()).is_finite(),
{
    let b = 0x4000_0000_0000_0000int;
    lemma2_to64();
    lemma_pow2_unfold(1075);
    lemma_pow2_adds(52, 1023);
    assert(pow2(52) == 0x10_0000_0000_0000) by {
        lemma_pow2_adds(32, 20);
    }
    assert(sig(b) == 0x10_0000_0000_0000 && expo(b) == 1023);
    lemma_one_units();
    lemma_encode_exact(b, 1);
    lemma_add_key(Num::one(), Num::one());
    assert(units(b) * 1 == units(b));
}

/// More confidence or a wider gap does not lower the exposure that is wanted on the winner.
pub proof fn law_target_follows_confidence_and_gap(
    config: Config,
    rescue_spent: Num,
    gap: Num,
    g1: Num,
    g2: Num,
    c1: Num,
    c2: Num,
    enter: Num,
    ask: Num,
)
    requires
        sound_target(config, enter),
        g1.is_finite(),
        g2.is_finite(),
        g1.abs().le(g2.abs()),
        c1.is_finite(),
        c2.is_finite(),
        c1.le(c2),
    ensures
        target_exposure(config, rescue_spent, gap, g1, c1, enter, ask).le(
            target_exposure(config, rescue_spent, gap, g2, c2, enter, ask),
        ),
{
    let cfg = config.j_endgame;
    let m = cfg.effective_max_rescue_usd(&config.session);
    lemma_cap_is_number(config, ask);
    lemma_deploy_share(cfg, g1, g2, c1, c2, enter);
    let (s1, s2) = (deploy_share(cfg, g1, c1, enter), deploy_share(cfg, g2, c2, enter));
    lemma_mul_mono(m, s1, s2);
    lemma_mul_comm(m, s1);
    lemma_mul_comm(m, s2);
    lemma_mul_mag(s1, m);
    lemma_mul_mag(s2, m);
}

/// Full confidence asks for everything that the caps allow; confidence that just reaches the
/// bar, on a gap that is not safe, asks for no more than the profit target does.
pub proof fn law_target_at_its_ends(
    config: Config,
    rescue_spent: Num,
    gap: Num,
    gz: Num,
    confidence: Num,
    enter: Num,
    ask: Num,
)
    requires
        sound_target(config, enter),
        gz.is_finite(),
        confidence.is_finite(),
        enter.lt(Num::one()),
    ensures
        ({
            let t = target_exposure(config, rescue_spent, gap, gz, confidence, enter, ask);
            let cap = exposure_cap(config, ask);
            let full = config.j_endgame.full_size_gap_z;
            &&& t.le(cap)
            &&& confidence.ge(Num::one()) ==> cap.le(t)
            &&& confidence.le(enter) && !gz.abs().ge(full * Num::ratio(75, 100)) && !(rescue_spent
                + gap).is_nan() ==> t.le((rescue_spent + gap).max(Num::zero()))
            &&& !(rescue_spent + gap).is_nan() ==> (rescue_spent + gap).min(cap).le(t)
        }),
{
    let cfg = config.j_endgame;
    let m = cfg.effective_max_rescue_usd(&config.session);
    let cap = exposure_cap(config, ask);
    lemma_cap_is_number(config, ask);
    lemma_deploy_share(cfg, gz, gz, confidence, confidence, enter);
    let s = deploy_share(cfg, gz, confidence, enter);
    lemma_mul_mag(s, m);
    if confidence.ge(Num::one()) {
        law_ramp_full_above(confidence, enter, Num::one());
        lemma_mul_mono(m, Num::one(), s);
        lemma_mul_comm(m, Num::one());
        lemma_mul_comm(m, s);
        lemma_one_times(m);
    }
    if confidence.le(enter) {
        law_ramp_zero_below(confidence, enter, Num::one());
        if !gz.abs().ge(cfg.full_size_gap_z * Num::ratio(75, 100)) {
            lemma_zero_product(s, m);
        }
    }
}

/// A clip on the winner is everything that may be bought at once: it falls short of the
/// wanted exposure only where the money left or the cap on a clip stops it.
pub proof fn law_clip_is_all_it_may_be(
    config: Config,
    state: JWindowState,
    win_state: WindowState,
    winner: Seq<char>,
    ask: Num,
    gz: Num,
    confidence: Num,
    elapsed_pct: Num,
    available_cash: Num,
)
    ensures
        composite_plan(
            config,
            state,
            win_state,
            winner,
            ask,
            gz,
            confidence,
            elapsed_pct,
            available_cash,
        ) matches Some(p) ==> {
            let spent = state.rescue_spent_usd;
            let enter = enter_bar(config.j_endgame, ask, gz);
            let want = target_exposure(
                config,
                spent,
                profit_increment(config, win_state, winner, ask),
                gz,
                confidence,
                enter,
                ask,
            ) - spent;
            let left = rescue_left(config, spent, win_state.spent, available_cash);
            let cap = clip_cap(config, spent, gz, ask, elapsed_pct);
            ||| p.clip_usd == want
            ||| p.clip_usd == left
            ||| p.clip_usd == cap
            ||| p.clip_usd == Num::zero() && want.lt(Num::zero())
        },
{
}

/// The money left for the rescue is the smallest of what the window, the budget, the rescue
/// limit and the cash leave.
pub proof fn law_rescue_money_is_the_smallest_limit(
    config: Config,
    rescue_spent: Num,
    win_spent: Num,
    available_cash: Num,
)
    requires
        ({
            let j = config.j_endgame;
            &&& nonneg(j.effective_max_usd_per_window(&config.session))
            &&& nonneg(j.effective_max_rescue_usd(&config.session))
            &&& nonneg(rescue_spent)
            &&& nonneg(win_spent)
            &&& nonneg(available_cash)
            &&& nonneg(config.session.max_window_budget)
        }),
    ensures
        ({
            let j = config.j_endgame;
            let r = rescue_left(config, rescue_spent, win_spent, available_cash);
            let by_window = (j.effective_max_usd_per_window(&config.session) - win_spent).max(
                Num::zero(),
            );
            let by_rescue = j.effective_max_rescue_usd(&config.session) - rescue_spent;
            let budget = config.session.max_window_budget;
            &&& r.le(by_window)
            &&& r.le(by_rescue)
            &&& r.le(available_cash)
            &&& budget.gt(Num::zero()) ==> r.le(budget)
            &&& {
                ||| r.key() == by_window.key()
                ||| r.key() == by_rescue.key()
                ||| r.key() == available_cash.key()
                ||| budget.gt(Num::zero()) && r.key() == budget.key()
            }
        }),
{
    let j = config.j_endgame;
    lemma_sub_finite(j.effective_max_usd_per_window(&config.session), win_spent);
    lemma_sub_finite(j.effective_max_rescue_usd(&config.session), rescue_spent);
}

/// The cap on the exposure goes by the ask in five steps, and is nothing without an ask or
/// above 0.97.
pub proof fn law_tail_cap_goes_by_the_ask(config: Config, ask: Num)
    ensures
        ({
            let (j, s) = (config.j_endgame, &config.session);
            let cap = tail_cap(config, ask);
            let z = Num::zero();
            let (a70, a88, a94, a97) = (
                Num::ratio(70, 100),
                Num::ratio(88, 100),
                Num::ratio(94, 100),
                Num::ratio(97, 100),
            );
            &&& z.le(cap)
            &&& ask.le(z) || ask.gt(a97) || !ask.is_finite() ==> cap == z
            &&& ask.gt(z) && ask.le(a70) ==> cap == j.effective_tail_cap_ask70_usd(s).max(z)
            &&& ask.gt(a70) && ask.le(a88) ==> cap == j.effective_tail_cap_ask88_usd(s).max(z)
            &&& ask.gt(a88) && ask.le(a94) ==> cap == j.effective_tail_cap_ask94_usd(s).max(z)
            &&& ask.gt(a94) && ask.le(a97) ==> cap == j.effective_tail_cap_ask97_usd(s).max(z)
        }),
{
    lemma_ratio_nonneg(70, 100);
    lemma_ratio_mono(70, 100, 88, 100);
    lemma_ratio_mono(88, 100, 94, 100);
    lemma_ratio_mono(94, 100, 97, 100);
    lemma_ratio_one();
    lemma_ratio_mono(97, 100, 1, 1);
}

/// The profit at redemption is that of the winner's own shares: it does not fall with more of
/// them, does not rise with more money spent, and does not change with the loser's.
pub proof fn law_redeem_profit_follows_the_winners_shares(
    less: Num,
    more: Num,
    loser: Num,
    other_loser: Num,
    spent: Num,
    more_spent: Num,
)
    requires
        nonneg(less),
        nonneg(more),
        nonneg(spent),
        nonneg(more_spent),
        less.le(more),
        spent.le(more_spent),
    ensures
        redeem_pnl(less, loser, spent, "UP"@, Num::zero()).le(
            redeem_pnl(more, other_loser, spent, "UP"@, Num::zero()),
        ),
        redeem_pnl(loser, less, spent, "DOWN"@, Num::zero()).le(
            redeem_pnl(other_loser, more, spent, "DOWN"@, Num::zero()),
        ),
        redeem_pnl(less, loser, more_spent, "UP"@, Num::zero()).le(
            redeem_pnl(less, other_loser, spent, "UP"@, Num::zero()),
        ),
        redeem_pnl(less, loser, spent, "UP"@, Num::zero()) == redeem_pnl(
            other_loser,
            less,
            spent,
            "DOWN"@,
            Num::zero(),
        ),
        redeem_pnl(less, loser, spent, "UP"@, Num::zero()).key() == (less - spent).key(),
{
    lemma_sides();
    lemma_no_fee(less);
    lemma_no_fee(more);
    lemma_same_less_nothing(less, spent);
    lemma_same_less_nothing(less, more_spent);
    lemma_same_less_nothing(more, spent);
    lemma_sub_mono(less, more, spent, spent);
    lemma_sub_mono(less, less, more_spent, spent);
}

proof fn lemma_no_fee(shares: Num)
    requires
        nonneg(shares),
    ensures
        leg_fee_usd(Num::one(), shares, Num::zero()).mag() == 0,
{
    lemma_ten_thousand();
    lemma_div_mag(Num::zero(), Num::uint(10_000));
    let q = Num::zero() / Num::uint(10_000);
    lemma_one_times(shares);
    lemma_zero_product(q, shares);
}

proof fn lemma_same_less_nothing(x: Num, spent: Num)
    requires
        nonneg(x),
        nonneg(spent),
        leg_fee_usd(Num::one(), x, Num::zero()).mag() == 0,
    ensures
        (x - leg_fee_usd(Num::one(), x, Num::zero()) - spent).key() == (x
            - spent).key(),
        !(x - spent).is_nan(),
        !(x - leg_fee_usd(Num::one(), x, Num::zero()) - spent).is_nan(),
{
    let f = leg_fee_usd(Num::one(), x, Num::zero());
    lemma_negated(f);
    lemma_zero_sum(x, f.negated());
    assert(x - f == x.spec_add(f.negated()));
    let y = x - f;
    assert(y.key() == x.key());
    lemma_negated(spent);
    lemma_sub_finite(x, spent);
    lemma_add_key(x, spent.negated());
    lemma_add_key(y, spent.negated());
    lemma_units_nonneg(0);
    assert(y.val() == x.val());
}

/// Insurance takes the cheaper of the two sides, at an ask that is positive and within its
/// limit; exchanging the two asks exchanges the side, where they differ.
pub proof fn law_insurance_takes_the_underdog(prices: PricesState, exchanged: PricesState, max_ask: Num)
    requires
        !prices.up.ask.is_nan(),
        !prices.down.ask.is_nan(),
        exchanged.up.ask == prices.down.ask,
        exchanged.down.ask == prices.up.ask,
    ensures
        ({
            let (up, down) = (prices.up.ask, prices.down.ask);
            let r = underdog(prices, max_ask);
            &&& r matches Some((side, ask)) ==> {
                &&& side == "UP"@ && ask == up || side == "DOWN"@ && ask == down
                &&& ask.gt(Num::zero()) && ask.le(max_ask)
                &&& side == "UP"@ ==> up.le(down)
                &&& side == "DOWN"@ ==> down.lt(up) || up.le(Num::zero())
            }
            &&& up.gt(Num::zero()) && up.lt(down) && up.le(max_ask) ==> r == Some(("UP"@, up))
            &&& down.gt(Num::zero()) && down.lt(up) && down.le(max_ask) ==> r == Some(
                ("DOWN"@, down),
            )
            &&& up.gt(max_ask) && down.gt(max_ask) ==> r is None
            &&& r is Some && up.gt(Num::zero()) && down.gt(Num::zero()) && up.key() != down.key()
                ==> underdog(exchanged, max_ask) == Some(
                (opposite((r->0).0), (r->0).1),
            )
        }),
{
    lemma_sides();
}

/// Insurance is bought only where it is on, early enough, within its clips, its money and its
/// distance, and costs no more than it has left.
pub proof fn law_insurance_within_its_limits(
    cfg: JEndgameConfig,
    state: JWindowState,
    elapsed_pct: Num,
    spot: Num,
    ptb: Num,
    prices: PricesState,
    mid_cross: MidCrossSnapshot,
    min_atr: Num,
    current_atr: Num,
)
    ensures
        ({
            let r = insurance_plan(
                cfg,
                state,
                elapsed_pct,
                spot,
                ptb,
                prices,
                mid_cross,
                min_atr,
                current_atr,
            );
            &&& !cfg.insurance_enabled ==> r is None
            &&& elapsed_pct.gt(cfg.insurance_max_elapsed_pct) ==> r is None
            &&& state.insurance_clips >= cfg.insurance_max_clips ==> r is None
            &&& state.insurance_spent_usd.ge(cfg.insurance_tier_usd)
                && !state.insurance_spent_usd.is_nan() ==> r is None
            &&& min_atr.gt(Num::zero()) && current_atr.lt(min_atr) ==> r is None
            &&& cfg.insurance_max_lead_gap.gt(Num::zero()) && mid_cross.peak_lead_gap.ge(
                cfg.insurance_max_lead_gap,
            ) ==> r is None
            &&& r matches Some(p) ==> {
                &&& p.tier == EndgameTier::Insurance
                &&& p.side == "UP"@ && p.max_pay == prices.up.ask || p.side == "DOWN"@ && p.max_pay
                    == prices.down.ask
                &&& p.max_pay.gt(Num::zero()) && p.max_pay.le(cfg.insurance_max_ask)
                &&& !p.budget_left.gt(cfg.insurance_tier_usd - state.insurance_spent_usd)
                &&& !p.budget_left.gt(p.clip_usd)
                &&& !p.clip_usd.lt(cfg.insurance_clip_usd) && !p.clip_usd.lt(cfg.probe_clip_usd)
                &&& p.clip_usd == cfg.insurance_clip_usd || p.clip_usd == cfg.probe_clip_usd
            }
        }),
{
    lemma_billionth();
    if !state.insurance_spent_usd.is_nan() {
        lemma_add_grows(state.insurance_spent_usd, eps());
    }
}

/// A reload needs a committed side that still wins, an ask within its limit that has fallen
/// far enough below what was paid on average, and a gap toward that side.
pub proof fn law_reload_needs_a_discount(
    config: Config,
    state: JWindowState,
    win_state: WindowState,
    winner: Seq<char>,
    ask: Num,
    gz: Num,
    available_cash: Num,
)
    ensures
        ({
            let cfg = config.j_endgame;
            let r = reload_plan(config, state, win_state, winner, ask, gz, available_cash);
            let paid = avg_entry(state, win_state.up_shares, win_state.down_shares);
            &&& !cfg.discount_reload_enabled ==> r is None
            &&& ask.le(Num::zero()) || ask.gt(cfg.discount_reload_max_ask) ==> r is None
            &&& paid is None ==> r is None
            &&& paid is Some && (paid->0 - ask + eps()).lt(cfg.discount_reload_min_drop) ==> r is None
            &&& winner == "UP"@ && (gz + eps()).lt(cfg.discount_reload_min_gap_z) ==> r is None
            &&& winner == "DOWN"@ && (gz.negated() + eps()).lt(cfg.discount_reload_min_gap_z) ==> r
                is None
            &&& r matches Some(p) ==> {
                let left = cfg.effective_discount_reload_max_usd(&config.session)
                    - state.discount_reload_spent_usd;
                &&& p.tier == EndgameTier::DiscountReload
                &&& p.side == winner && state.primary() == Some(winner)
                &&& !p.max_pay.gt(ask) && !p.max_pay.gt(cfg.taker_max_ask)
                &&& !p.clip_usd.gt(p.budget_left)
                &&& !left.is_nan() ==> !p.budget_left.gt(left.max(Num::zero()))
                &&& !p.clip_usd.gt(
                    cfg.effective_discount_reload_clip_usd(&config.session).max(
                        cfg.effective_probe_clip_usd(&config.session),
                    ),
                )
            }
        }),
{
    lemma_sides();
}

/// What was paid on average is the money over the shares of the committed side itself.
pub proof fn law_average_goes_by_the_committed_side(
    state: JWindowState,
    up: Num,
    down: Num,
    other: Num,
)
    ensures
        state.primary() == Some("UP"@) ==> avg_entry(state, up, down) == avg_entry(state, up, other),
        state.primary() == Some("DOWN"@) ==> avg_entry(state, up, down) == avg_entry(
            state,
            other,
            down,
        ),
        state.primary() is None ==> avg_entry(state, up, down) is None,
        state.primary() == Some("UP"@) ==> (avg_entry(state, up, down) matches Some(a) ==> a
            == state.primary_exposure_usd() / up),
        state.primary() == Some("DOWN"@) ==> (avg_entry(state, up, down) matches Some(a) ==> a
            == state.primary_exposure_usd() / down),
{
    lemma_sides();
}

/// Whatever is planned pays no more than the ask of the side it buys.
pub proof fn law_plan_pays_no_more_than_its_sides_ask(
    config: Config,
    state: JWindowState,
    win_state: WindowState,
    prices: PricesState,
    spot: Num,
    ptb: Num,
    secs_to_end: i64,
    elapsed_pct: Num,
    current_atr: Num,
    min_atr: Num,
    mid_cross: MidCrossSnapshot,
    allow_directional: bool,
    confidence: Num,
    available_cash: Num,
)
    requires
        state.primary() is None || state.primary() == Some("UP"@) || state.primary() == Some(
            "DOWN"@,
        ),
    ensures
        window_plan(
            config,
            state,
            win_state,
            prices,
            spot,
            ptb,
            secs_to_end,
            elapsed_pct,
            current_atr,
            min_atr,
            mid_cross,
            allow_directional,
            confidence,
            available_cash,
        ) matches Some(p) ==> {
            &&& p.side == "UP"@ || p.side == "DOWN"@
            &&& p.side == "UP"@ ==> !p.max_pay.gt(prices.up.ask)
            &&& p.side == "DOWN"@ ==> !p.max_pay.gt(prices.down.ask)
            &&& p.tier == EndgameTier::FinalSeal || p.tier == EndgameTier::DiscountReload ==> {
                &&& allow_directional
                &&& p.side == "UP"@ <==> spot.gt(ptb)
                &&& p.side == "DOWN"@ <==> spot.lt(ptb)
            }
            &&& p.tier == EndgameTier::FlipHedge ==> state.primary() is Some && p.side
                != state.primary()->0
            &&& spot.key() != ptb.key() || spot.is_nan() || ptb.is_nan()
        },
{
    lemma_sides();
}

/// The order of the phases of a window.
pub open spec fn rank(p: JWindowPhase) -> int {
    match p {
        JWindowPhase::Warmup => 0,
        JWindowPhase::Insurance => 1,
        JWindowPhase::MidWindow => 2,
        JWindowPhase::Accumulate => 3,
        JWindowPhase::Late => 4,
        JWindowPhase::Rescue => 5,
        JWindowPhase::FinalSeal => 6,
    }
}

/// A window goes through its phases in order: as its time runs out it never falls back,
/// where the zones lie one in the other.
pub proof fn law_phases_come_in_order(
    cfg: JEndgameConfig,
    e1: Num,
    secs1: i64,
    m1: MidCrossSnapshot,
    e2: Num,
    secs2: i64,
    m2: MidCrossSnapshot,
)
    requires
        cfg.final_seal_secs <= cfg.rescue_zone_secs <= cfg.late_max_secs <= cfg.endgame_secs,
        !e1.is_nan(),
        !e2.is_nan(),
        e1.le(e2),
        secs2 <= secs1,
        m1.armed ==> m2.armed,
        secs1 > cfg.endgame_secs || e1.ge(Num::uint(8)) || m1.armed,
    ensures
        rank(phase_of(e1, secs1, cfg, m1)) <= rank(phase_of(e2, secs2, cfg, m2)) || phase_of(
            e2,
            secs2,
            cfg,
            m2,
        ) == JWindowPhase::Warmup,
        phase_of(e1, secs1, cfg, m1) == JWindowPhase::FinalSeal ==> phase_of(e2, secs2, cfg, m2)
            == JWindowPhase::FinalSeal,
        phase_of(e2, secs2, cfg, m2) == JWindowPhase::Warmup ==> phase_of(e1, secs1, cfg, m1)
            == JWindowPhase::Warmup,
{
}

/// Each zone begins where the seconds left fall to its limit; before the endgame begins, and
/// before the window is far enough, nothing but insurance is bought.
pub proof fn law_zones_begin_at_their_seconds(
    cfg: JEndgameConfig,
    elapsed_pct: Num,
    secs: i64,
    m: MidCrossSnapshot,
)
    requires
        m.armed,
    ensures
        ({
            let p = phase_of(elapsed_pct, secs, cfg, m);
            &&& secs <= 0 || secs <= cfg.final_seal_secs <==> p == JWindowPhase::FinalSeal
            &&& secs > cfg.endgame_secs && secs > cfg.late_max_secs && secs > cfg.rescue_zone_secs
                ==> p == JWindowPhase::Insurance || p == JWindowPhase::MidWindow || p
                == JWindowPhase::FinalSeal
            &&& secs <= cfg.endgame_secs && secs > cfg.late_max_secs && secs > cfg.rescue_zone_secs
                && secs > cfg.final_seal_secs && secs > 0 ==> (p == JWindowPhase::Accumulate
                <==> elapsed_pct.ge(cfg.cheap_min_elapsed_pct))
            &&& secs <= cfg.endgame_secs && secs <= cfg.late_max_secs && secs > cfg.rescue_zone_secs
                && secs > cfg.final_seal_secs && secs > 0 ==> p == JWindowPhase::Late
            &&& secs <= cfg.endgame_secs && secs <= cfg.rescue_zone_secs && secs
                > cfg.final_seal_secs && secs > 0 ==> p == JWindowPhase::Rescue
        }),
{
}

/// Whether a side may be bought: not closer to the price to beat than allowed, and not after
/// as many lead changes as the limits say, where a limit of zero on all of them is none.
pub proof fn law_directional_limits(
    cfg: JEndgameConfig,
    spot: Num,
    ptb: Num,
    near: MidCrossSnapshot,
    calm: MidCrossSnapshot,
)
    requires
        calm.cross_count <= near.cross_count,
        calm.significant_cross_count <= near.significant_cross_count,
    ensures
        directional_entry_allowed(&cfg, spot, ptb, &near) ==> directional_entry_allowed(
            &cfg,
            spot,
            ptb,
            &calm,
        ),
        near.significant_cross_count >= cfg.max_sig_crosses_directional ==> !directional_entry_allowed(
            &cfg,
            spot,
            ptb,
            &near,
        ),
        cfg.max_crosses_directional > 0 && near.cross_count >= cfg.max_crosses_directional
            ==> !directional_entry_allowed(&cfg, spot, ptb, &near),
        calm.cross_count == 0 && calm.significant_cross_count == 0 && cfg.max_sig_crosses_directional
            > 0 && ptb_dist_pct(spot, ptb).ge(cfg.min_ptb_dist_pct)
            ==> directional_entry_allowed(&cfg, spot, ptb, &calm),
        spot == ptb && nonneg(ptb) && ptb.gt(Num::zero()) && cfg.min_ptb_dist_pct.gt(Num::zero())
            ==> !directional_entry_allowed(&cfg, spot, ptb, &calm),
{
    if spot == ptb && nonneg(ptb) && ptb.gt(Num::zero()) {
        lemma_self_difference(ptb);
        let d = (spot - ptb).abs();
        assert(d.mag() == 0);
        lemma_div_mag(d, ptb);
        lemma_uint_finite(100);
        lemma_zero_product(d / ptb, Num::uint(100));
    }
}

/// Reloads come before composite buys, hedges before both, and a side may only be bought
/// where that is allowed.
pub proof fn law_order_of_the_engines(
    config: Config,
    state: JWindowState,
    win_state: WindowState,
    prices: PricesState,
    winner: Seq<char>,
    gz: Num,
    elapsed_pct: Num,
    mid_cross: MidCrossSnapshot,
    allow_directional: bool,
    confidence: Num,
    available_cash: Num,
)
    requires
        winner == "UP"@ || winner == "DOWN"@,
    ensures
        ({
            let ask = if winner == "UP"@ {
                prices.up.ask
            } else {
                prices.down.ask
            };
            let plan = endgame_plan(
                config,
                state,
                win_state,
                prices,
                winner,
                gz,
                elapsed_pct,
                mid_cross,
                allow_directional,
                confidence,
                available_cash,
            );
            let hedge = hedge_plan(config, state, winner, gz, prices, mid_cross);
            let reload = reload_plan(config, state, win_state, winner, ask, gz, available_cash);
            let composite = composite_plan(
                config,
                state,
                win_state,
                winner,
                ask,
                gz,
                confidence,
                elapsed_pct,
                available_cash,
            );
            &&& hedge is Some ==> plan == hedge
            &&& hedge is None && !allow_directional ==> plan is None
            &&& hedge is None && allow_directional && reload is Some ==> plan == reload
            &&& hedge is None && allow_directional && reload is None ==> plan == composite
        }),
{
    lemma_sides();
}

/// Before the tracker is armed and eight percent of the window have passed it warms up, and
/// only then; early in a window with insurance on, before the endgame, insurance comes.
pub proof fn law_warmup_and_insurance(
    cfg: JEndgameConfig,
    elapsed_pct: Num,
    secs: i64,
    m: MidCrossSnapshot,
)
    requires
        secs > 0,
        secs > cfg.final_seal_secs,
        !elapsed_pct.is_nan(),
    ensures
        phase_of(elapsed_pct, secs, cfg, m) == JWindowPhase::Warmup <==> !m.armed
            && elapsed_pct.lt(Num::uint(8)),
        phase_of(elapsed_pct, secs, cfg, m) == JWindowPhase::Insurance <==> cfg.insurance_enabled
            && (m.armed || Num::uint(8).le(elapsed_pct)) && elapsed_pct.le(
            cfg.insurance_max_elapsed_pct,
        ) && secs > cfg.endgame_secs,
{
    lemma_uint_finite(8);
}

} // verus!
