//! When the hedge against a broken thesis is bought, and when it is not.
use crate::client::PricesState;
use crate::config::{Config, JEndgameConfig};
use crate::j_controller::{eps, hedge_cap, hedge_plan};
use crate::mid_cross_tracker::{LeadSide, MidCrossSnapshot};
use crate::num::Num;
use crate::num_error::lemma_billionth;
use crate::num_laws::{lemma_add_nonneg, lemma_zero_sum, nonneg};
use crate::strategy_j::{flip_triggered, EndgameTier, JWindowState};
use vstd::prelude::*;

verus! {

/// Money that is counted as deployed on the committed side: any of its three sums is more
/// than a billionth.
pub open spec fn money_is_deployed(state: JWindowState) -> bool {
    let least = Num::ratio(1, 1_000_000_000);
    ||| state.cheap_spent_usd.gt(least)
    ||| state.late_spent_usd.gt(least)
    ||| state.rescue_spent_usd.gt(least)
}

/// Sums that can have been spent.
pub open spec fn sound_sums(state: JWindowState) -> bool {
    &&& nonneg(state.cheap_spent_usd)
    &&& nonneg(state.late_spent_usd)
    &&& nonneg(state.rescue_spent_usd)
    &&& (state.cheap_spent_usd + state.late_spent_usd).is_finite()
}

proof fn lemma_deployed(state: JWindowState)
    requires
        sound_sums(state),
        state.primary_side is Some,
        money_is_deployed(state),
    ensures
        state.has_primary_exposure(),
{
    let (a, b, c) = (state.cheap_spent_usd, state.late_spent_usd, state.rescue_spent_usd);
    lemma_add_nonneg(a, b);
    lemma_add_nonneg(a + b, c);
}

/// Once money is deployed and the spot's winner is the other side, any one piece of evidence
/// triggers the hedge: the significant lead changes, all lead changes, or the gap. So does a
/// book that leads the other side, where the spot need not have crossed.
pub proof fn law_any_evidence_triggers_the_hedge(
    cfg: JEndgameConfig,
    state: JWindowState,
    primary: Seq<char>,
    winner: Seq<char>,
    gz: Num,
    m: MidCrossSnapshot,
)
    requires
        cfg.flip_hedge_enabled,
        state.primary_side is Some,
        sound_sums(state),
        money_is_deployed(state),
        ({
            ||| winner != primary
            ||| !cfg.flip_require_spot_cross && primary == "UP"@ && m.current_side == Some(
                LeadSide::Down,
            )
            ||| !cfg.flip_require_spot_cross && primary == "DOWN"@ && m.current_side == Some(
                LeadSide::Up,
            )
        }),
    ensures
        gz.abs().ge(cfg.flip_min_gap_z) ==> flip_triggered(cfg, state, primary, winner, gz, m),
        m.significant_cross_count >= cfg.flip_min_sig_crosses ==> flip_triggered(
            cfg,
            state,
            primary,
            winner,
            gz,
            m,
        ),
        m.cross_count >= cfg.flip_min_crosses ==> flip_triggered(
            cfg,
            state,
            primary,
            winner,
            gz,
            m,
        ),
{
    lemma_deployed(state);
    reveal_strlit("UP");
    reveal_strlit("DOWN");
    assert("UP"@.len() != "DOWN"@.len());
}

/// Without a broken thesis there is no hedge: not where it is off, not without a committed
/// side or money on it, not while the spot is for it and the book is not against it or does
/// not count, and not without evidence.
pub proof fn law_no_hedge_without_a_broken_thesis(
    cfg: JEndgameConfig,
    state: JWindowState,
    primary: Seq<char>,
    winner: Seq<char>,
    gz: Num,
    m: MidCrossSnapshot,
)
    requires
        ({
            ||| !cfg.flip_hedge_enabled
            ||| state.primary_side is None
            ||| state.cheap_spent_usd.mag() == 0 && state.late_spent_usd.mag() == 0
                && state.rescue_spent_usd.mag() == 0
            ||| winner == primary && cfg.flip_require_spot_cross
            ||| winner == primary && (m.current_side is None || m.current_side == Some(
                LeadSide::Tie,
            ))
            ||| winner == primary && primary == "UP"@ && m.current_side == Some(LeadSide::Up)
            ||| winner == primary && primary == "DOWN"@ && m.current_side == Some(LeadSide::Down)
            ||| m.significant_cross_count < cfg.flip_min_sig_crosses && m.cross_count
                < cfg.flip_min_crosses && !gz.abs().ge(cfg.flip_min_gap_z)
        }),
    ensures
        !flip_triggered(cfg, state, primary, winner, gz, m),
{
    let (a, b, c) = (state.cheap_spent_usd, state.late_spent_usd, state.rescue_spent_usd);
    if a.mag() == 0 && b.mag() == 0 && c.mag() == 0 {
        lemma_zero_sum(a, b);
        lemma_zero_sum(a + b, c);
        lemma_billionth();
    }
}

/// More evidence never takes a hedge back: a wider gap, more lead changes, more money.
pub proof fn law_more_evidence_keeps_the_hedge(
    cfg: JEndgameConfig,
    state: JWindowState,
    primary: Seq<char>,
    winner: Seq<char>,
    g1: Num,
    g2: Num,
    m1: MidCrossSnapshot,
    m2: MidCrossSnapshot,
)
    requires
        flip_triggered(cfg, state, primary, winner, g1, m1),
        g1.abs().le(g2.abs()),
        m1.cross_count <= m2.cross_count,
        m1.significant_cross_count <= m2.significant_cross_count,
        m1.current_side == m2.current_side,
    ensures
        flip_triggered(cfg, state, primary, winner, g2, m2),
{
}

/// The ask of the side opposite to the committed one.
pub open spec fn other_ask(primary: Seq<char>, prices: PricesState) -> Num {
    if primary == "UP"@ {
        prices.down.ask
    } else {
        prices.up.ask
    }
}

/// A broken thesis is hedged: where the hedge is triggered, its budget is not used up and
/// the other side's ask is not above the limit, the other side is bought, for the hedge
/// clip or what is left of the budget. Where one of these fails, nothing is.
pub proof fn law_broken_thesis_is_hedged(
    config: Config,
    state: JWindowState,
    winner: Seq<char>,
    gz: Num,
    prices: PricesState,
    m: MidCrossSnapshot,
)
    requires
        state.primary() == Some("UP"@) || state.primary() == Some("DOWN"@),
    ensures
        ({
            let cfg = config.j_endgame;
            let primary = state.primary()->0;
            let plan = hedge_plan(config, state, winner, gz, prices, m);
            let used_up = (state.hedge_spent_usd + eps()).ge(hedge_cap(config, state));
            let dear = other_ask(primary, prices).gt(cfg.flip_max_ask);
            let clip = cfg.effective_flip_hedge_clip_usd(&config.session).max(
                cfg.effective_probe_clip_usd(&config.session),
            );
            &&& plan is Some <==> flip_triggered(cfg, state, primary, winner, gz, m) && !used_up
                && !dear
            &&& plan matches Some(p) ==> {
                &&& p.tier == EndgameTier::FlipHedge
                &&& p.side != primary && (p.side == "UP"@ || p.side == "DOWN"@)
                &&& !p.max_pay.gt(other_ask(primary, prices))
                &&& !p.clip_usd.gt(p.budget_left)
                &&& !clip.is_nan() && !p.budget_left.is_nan() ==> !p.clip_usd.lt(
                    clip.min(p.budget_left),
                ) && !p.clip_usd.gt(clip)
                &&& p.need_tape == cfg.flip_require_tape
            }
        }),
{
    reveal_strlit("UP");
    reveal_strlit("DOWN");
    assert("UP"@.len() != "DOWN"@.len());
}

/// The plan with the evidence of the gap alone: whatever the book's lead changes are, a spot
/// far on the other side is hedged against.
pub proof fn law_far_spot_is_hedged(
    config: Config,
    state: JWindowState,
    gz: Num,
    prices: PricesState,
    m: MidCrossSnapshot,
)
    requires
        config.j_endgame.flip_hedge_enabled,
        sound_sums(state),
        money_is_deployed(state),
        gz.abs().ge(config.j_endgame.flip_min_gap_z),
        !(state.hedge_spent_usd + eps()).ge(hedge_cap(config, state)),
    ensures
        state.primary() == Some("DOWN"@) && !prices.up.ask.gt(config.j_endgame.flip_max_ask) ==> (
        hedge_plan(config, state, "UP"@, gz, prices, m) matches Some(p) && p.side == "UP"@
            && p.tier == EndgameTier::FlipHedge),
        state.primary() == Some("UP"@) && !prices.down.ask.gt(config.j_endgame.flip_max_ask) ==> (
        hedge_plan(config, state, "DOWN"@, gz, prices, m) matches Some(p) && p.side == "DOWN"@
            && p.tier == EndgameTier::FlipHedge),
{
    reveal_strlit("UP");
    reveal_strlit("DOWN");
    assert("UP"@.len() != "DOWN"@.len());
    if state.primary_side is Some {
        lemma_deployed(state);
    }
}

} // verus!
