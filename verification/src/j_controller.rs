//! J endgame window timeline controller: one objective, to close at +target via phased
//! buys.
//!
//! Timeline (5m window example):
//!   50–120s ACCUMULATE — ramped clips on winner when gap_z + confidence clear
//!   ≤25s   LATE       — tape-driven winner sweep
//!   ≤20s   RESCUE     — solve USD to hit target_profit; flip hedge if thesis broke
//!
//! Profit source: hold winner leg to $1 redeem — no sells.
use crate::cex_micro::CexMicroSnapshot;
use crate::client::PricesState;
use crate::config::{Config, JEndgameConfig};
use crate::j_fees::{default_crypto_fee_rate_bps, leg_fee_usd};
use crate::mid_cross_tracker::{mid_cross_arm_time_pct, LeadSide, MidCrossSnapshot};
use crate::num::Num;
use crate::num_laws::{lemma_add_grows, lemma_sub_nonneg, nonneg};
use crate::num_ops::{lemma_ratio_mono, lemma_ratio_nonneg};
use crate::strategy::{SpotSignalSnapshot, TradeTapeSnapshot};
use crate::strategy_j::{
    ask_of, directional_entry_allowed, flip_hedge_triggered, flip_triggered, gap_z, is_plan,
    leader, ptb_dist_pct, side_ask, winner_side, EndgameTier, JWindowState, Plan, TierPlan,
};
use crate::text::same_text;
use crate::trader::WindowState;
use vstd::prelude::*;

verus! {

#[derive(Debug, Clone, Copy, PartialEq, Eq, Structural)]
pub enum JWindowPhase {
    Warmup,
    Insurance,
    MidWindow,
    Accumulate,
    Late,
    Rescue,
    FinalSeal,
}

impl JWindowPhase {
    pub fn label(self) -> (r: &'static str)
        ensures
            r@ == match self {
                JWindowPhase::Warmup => "warmup"@,
                JWindowPhase::Insurance => "insurance"@,
                JWindowPhase::MidWindow => "mid"@,
                JWindowPhase::Accumulate => "accumulate"@,
                JWindowPhase::Late => "late"@,
                JWindowPhase::Rescue => "rescue"@,
                JWindowPhase::FinalSeal => "final_seal"@,
            },
    {
        match self {
            JWindowPhase::Warmup => "warmup",
            JWindowPhase::Insurance => "insurance",
            JWindowPhase::MidWindow => "mid",
            JWindowPhase::Accumulate => "accumulate",
            JWindowPhase::Late => "late",
            JWindowPhase::Rescue => "rescue",
            JWindowPhase::FinalSeal => "final_seal",
        }
    }
}

/// The phase of a window: the seal at the very end, warmup until the tracker arms,
/// insurance early where it is on, then the zones by the seconds left.
pub open spec fn phase_of(
    elapsed_pct: Num,
    secs_to_end: i64,
    cfg: JEndgameConfig,
    mid_cross: MidCrossSnapshot,
) -> JWindowPhase {
    if secs_to_end <= 0 || secs_to_end <= cfg.final_seal_secs {
        JWindowPhase::FinalSeal
    } else if elapsed_pct.lt(mid_cross_arm_time_pct()) && !mid_cross.armed {
        JWindowPhase::Warmup
    } else if cfg.insurance_enabled && elapsed_pct.le(cfg.insurance_max_elapsed_pct) && secs_to_end
        > cfg.endgame_secs {
        JWindowPhase::Insurance
    } else if secs_to_end <= cfg.rescue_zone_secs {
        JWindowPhase::Rescue
    } else if secs_to_end <= cfg.late_max_secs {
        JWindowPhase::Late
    } else if secs_to_end <= cfg.endgame_secs && elapsed_pct.ge(cfg.cheap_min_elapsed_pct) {
        JWindowPhase::Accumulate
    } else {
        JWindowPhase::MidWindow
    }
}

pub fn detect_phase(
    elapsed_pct: Num,
    secs_to_end: i64,
    cfg: &JEndgameConfig,
    mid_cross: &MidCrossSnapshot,
) -> (r: JWindowPhase)
    ensures
        r == phase_of(elapsed_pct, secs_to_end, *cfg, *mid_cross),
{
    if secs_to_end <= 0 {
        return JWindowPhase::FinalSeal;
    }
    if secs_to_end <= cfg.final_seal_secs {
        return JWindowPhase::FinalSeal;
    }
    if elapsed_pct.lt(mid_cross_arm_time_pct()) && !mid_cross.armed {
        return JWindowPhase::Warmup;
    }
    if cfg.insurance_enabled && elapsed_pct.le(cfg.insurance_max_elapsed_pct) && secs_to_end
        > cfg.endgame_secs {
        return JWindowPhase::Insurance;
    }
    if secs_to_end <= cfg.rescue_zone_secs {
        return JWindowPhase::Rescue;
    }
    if secs_to_end <= cfg.late_max_secs {
        return JWindowPhase::Late;
    }
    if secs_to_end <= cfg.endgame_secs && elapsed_pct.ge(cfg.cheap_min_elapsed_pct) {
        return JWindowPhase::Accumulate;
    }
    JWindowPhase::MidWindow
}

/// Profit at redemption if `winner` wins: its shares, less the redeem fee and what was
/// spent.
pub open spec fn redeem_pnl(
    up_shares: Num,
    down_shares: Num,
    spent: Num,
    winner: Seq<char>,
    fee_bps: Num,
) -> Num {
    let shares = if winner == "UP"@ {
        up_shares
    } else if winner == "DOWN"@ {
        down_shares
    } else {
        Num::zero()
    };
    shares - leg_fee_usd(Num::one(), shares, fee_bps) - spent
}

pub fn redeem_pnl_if_wins(
    up_shares: Num,
    down_shares: Num,
    spent: Num,
    winner: &str,
    fee_bps: Num,
) -> (r: Num)
    ensures
        r == redeem_pnl(up_shares, down_shares, spent, winner@, fee_bps),
{
    let shares: Num = if same_text(winner, "UP") {
        up_shares
    } else if same_text(winner, "DOWN") {
        down_shares
    } else {
        Num::zero()
    };
    let redeem_fee: Num = leg_fee_usd(Num::one(), shares, fee_bps);
    shares - redeem_fee - spent
}

/// The cheaper side with its ask, where it is positive and not above `max_ask`.
pub open spec fn underdog(prices: PricesState, max_ask: Num) -> Option<(Seq<char>, Num)> {
    let up = prices.up.ask;
    let down = prices.down.ask;
    if up.le(down) && up.gt(Num::zero()) && up.le(max_ask) {
        Some(("UP"@, up))
    } else if down.gt(Num::zero()) && down.le(max_ask) {
        Some(("DOWN"@, down))
    } else {
        None
    }
}

pub fn pick_underdog(prices: &PricesState, max_ask: Num) -> (r: Option<(&'static str, Num)>)
    ensures
        match (r, underdog(*prices, max_ask)) {
            (None, None) => true,
            (Some(a), Some(b)) => a.0@ == b.0 && a.1 == b.1,
            _ => false,
        },
{
    let up: Num = prices.up.ask;
    let down: Num = prices.down.ask;
    if up.le(down) && up.gt(Num::zero()) && up.le(max_ask) {
        Some(("UP", up))
    } else if down.gt(Num::zero()) && down.le(max_ask) {
        Some(("DOWN", down))
    } else {
        None
    }
}

pub open spec fn spec_eps() -> Num {
    Num::ratio(1, 1_000_000_000)
}

/// Slack for comparisons of money.
#[verifier::when_used_as_spec(spec_eps)]
pub fn eps() -> (r: Num)
    ensures
        r == spec_eps(),
{
    Num::ratio(1, 1_000_000_000)
}

/// Whether insurance may still be bought at all.
pub open spec fn insurance_open(
    cfg: JEndgameConfig,
    state: JWindowState,
    elapsed_pct: Num,
    spot: Num,
    ptb: Num,
    mid_cross: MidCrossSnapshot,
    min_atr: Num,
    current_atr: Num,
) -> bool {
    &&& cfg.insurance_enabled
    &&& !elapsed_pct.gt(cfg.insurance_max_elapsed_pct)
    &&& state.insurance_clips < cfg.insurance_max_clips
    &&& !(state.insurance_spent_usd + eps()).ge(cfg.insurance_tier_usd)
    &&& !(min_atr.gt(Num::zero()) && current_atr.lt(min_atr))
    &&& ptb_dist_pct(spot, ptb).is_finite()
    &&& !ptb_dist_pct(spot, ptb).gt(cfg.insurance_max_ptb_dist_pct)
    &&& !(cfg.insurance_max_lead_gap.gt(Num::zero()) && mid_cross.peak_lead_gap.ge(
        cfg.insurance_max_lead_gap,
    ))
}

/// One insurance clip on the underdog.
pub open spec fn insurance_plan(
    cfg: JEndgameConfig,
    state: JWindowState,
    elapsed_pct: Num,
    spot: Num,
    ptb: Num,
    prices: PricesState,
    mid_cross: MidCrossSnapshot,
    min_atr: Num,
    current_atr: Num,
) -> Option<Plan> {
    let clip = cfg.insurance_clip_usd.max(cfg.probe_clip_usd);
    match underdog(prices, cfg.insurance_max_ask) {
        Some((side, ask)) => if insurance_open(
            cfg,
            state,
            elapsed_pct,
            spot,
            ptb,
            mid_cross,
            min_atr,
            current_atr,
        ) {
            Some(
                Plan {
                    tier: EndgameTier::Insurance,
                    max_pay: ask,
                    need_tape: false,
                    budget_left: (cfg.insurance_tier_usd - state.insurance_spent_usd).min(clip),
                    sweep_clips: 1,
                    side,
                    clip_usd: clip,
                },
            )
        } else {
            None
        },
        None => None,
    }
}

pub fn plan_insurance(
    cfg: &JEndgameConfig,
    state: &JWindowState,
    elapsed_pct: Num,
    spot: Num,
    ptb: Num,
    prices: &PricesState,
    mid_cross: &MidCrossSnapshot,
    min_atr: Num,
    current_atr: Num,
) -> (r: Option<TierPlan>)
    ensures
        is_plan(
            r,
            insurance_plan(
                *cfg,
                *state,
                elapsed_pct,
                spot,
                ptb,
                *prices,
                *mid_cross,
                min_atr,
                current_atr,
            ),
        ),
{
    if !cfg.insurance_enabled || elapsed_pct.gt(cfg.insurance_max_elapsed_pct) {
        return None;
    }
    if state.insurance_clips >= cfg.insurance_max_clips {
        return None;
    }
    if (state.insurance_spent_usd + eps()).ge(cfg.insurance_tier_usd) {
        return None;
    }
    if min_atr.gt(Num::zero()) && current_atr.lt(min_atr) {
        return None;
    }
    let dist: Num = ptb_dist_pct(spot, ptb);
    if !dist.is_finite() || dist.gt(cfg.insurance_max_ptb_dist_pct) {
        return None;
    }
    if cfg.insurance_max_lead_gap.gt(Num::zero()) && mid_cross.peak_lead_gap.ge(
        cfg.insurance_max_lead_gap,
    ) {
        return None;
    }
    match pick_underdog(prices, cfg.insurance_max_ask) {
        Some((side, ask)) => {
            let clip: Num = cfg.insurance_clip_usd.max(cfg.probe_clip_usd);
            Some(
                TierPlan {
                    tier: EndgameTier::Insurance,
                    max_pay: ask,
                    need_tape: false,
                    budget_left: (cfg.insurance_tier_usd - state.insurance_spent_usd).min(clip),
                    sweep_clips: 1,
                    side: Some(side.to_owned()),
                    clip_usd: clip,
                },
            )
        },
        None => None,
    }
}

/// Money that may still go into the window's rescue: within the window's limits, the
/// rescue limit and the cash at hand.
pub open spec fn rescue_left(cfg: Config, rescue_spent: Num, win_spent: Num, available_cash: Num) -> Num {
    let j = cfg.j_endgame;
    let max_window = j.effective_max_usd_per_window(&cfg.session);
    let max_rescue = j.effective_max_rescue_usd(&cfg.session);
    let left = (max_window - win_spent).max(Num::zero());
    let capped = if cfg.session.max_window_budget.gt(Num::zero()) {
        left.min(cfg.session.max_window_budget)
    } else {
        left
    };
    capped.max(Num::zero()).min(max_rescue - rescue_spent).min(available_cash.max(Num::zero()))
}

pub fn rescue_budget(cfg: &Config, state: &JWindowState, win_spent: Num, available_cash: Num) -> (r:
    Num)
    ensures
        r == rescue_left(*cfg, state.rescue_spent_usd, win_spent, available_cash),
{
    let j: &JEndgameConfig = &cfg.j_endgame;
    let max_window: Num = j.effective_max_usd_per_window(&cfg.session);
    let max_rescue: Num = j.effective_max_rescue_usd(&cfg.session);
    let window_left: Num = (max_window - win_spent).max(Num::zero());
    let window_left: Num = if cfg.session.max_window_budget.gt(Num::zero()) {
        window_left.min(cfg.session.max_window_budget)
    } else {
        window_left
    };
    window_left.max(Num::zero()).min(max_rescue - state.rescue_spent_usd).min(
        available_cash.max(Num::zero()),
    )
}

pub open spec fn spec_ramp(x: Num, lo: Num, hi: Num) -> Num {
    if !x.is_finite() {
        Num::zero()
    } else if hi.le(lo) {
        if x.ge(hi) {
            Num::one()
        } else {
            Num::zero()
        }
    } else {
        ((x - lo) / (hi - lo)).clamp(Num::zero(), Num::one())
    }
}

/// Linear rise from zero at `lo` to one at `hi`.
#[verifier::when_used_as_spec(spec_ramp)]
pub fn ramp(x: Num, lo: Num, hi: Num) -> (r: Num)
    ensures
        r == spec_ramp(x, lo, hi),
{
    if !x.is_finite() {
        return Num::zero();
    }
    if hi.le(lo) {
        return if x.ge(hi) {
            Num::one()
        } else {
            Num::zero()
        };
    }
    ((x - lo) / (hi - lo)).clamp(Num::zero(), Num::one())
}

/// The gap at which the gap score is full: above the floor.
pub open spec fn full_gap(cfg: JEndgameConfig) -> Num {
    cfg.full_size_gap_z.max(cfg.final_seal_min_gap_z + Num::ratio(1, 1_000_000))
}

/// Score of the gap: from nothing at the risk floor to one at full size.
pub open spec fn gap_score(cfg: JEndgameConfig, gz: Num) -> Num {
    ramp(gz.abs(), cfg.final_seal_min_gap_z, full_gap(cfg))
}

/// The side that the book leads.
pub open spec fn book_leader(mid_cross: MidCrossSnapshot) -> Option<Seq<char>> {
    match mid_cross.current_side {
        Some(LeadSide::Up) => Some("UP"@),
        Some(LeadSide::Down) => Some("DOWN"@),
        _ => None,
    }
}

/// Whether the book firmly leads the side opposite to the winner.
pub open spec fn book_contradicts(
    cfg: JEndgameConfig,
    winner: Seq<char>,
    mid_cross: MidCrossSnapshot,
) -> bool {
    &&& book_leader(mid_cross) is Some
    &&& book_leader(mid_cross) != Some(winner)
    &&& mid_cross.lead_gap.ge(cfg.book_contradict_gap)
}

/// What is left of the book score after the significant crosses.
pub open spec fn calm(cfg: JEndgameConfig, mid_cross: MidCrossSnapshot) -> Num {
    let limit: u32 = if cfg.book_max_sig_cross >= 1 {
        cfg.book_max_sig_cross
    } else {
        1
    };
    Num::one() - (Num::uint(mid_cross.significant_cross_count as u64) / Num::uint(
        limit as u64,
    )).clamp(Num::zero(), Num::one())
}

/// Score of the book: its lead on the winner, less the chop.
pub open spec fn book_score(
    cfg: JEndgameConfig,
    winner: Seq<char>,
    mid_cross: MidCrossSnapshot,
) -> Num {
    if book_leader(mid_cross) == Some(winner) {
        ramp(mid_cross.lead_gap, Num::zero(), cfg.book_full_lead_gap) * calm(cfg, mid_cross)
    } else {
        Num::zero()
    }
}

/// One toward UP, minus one toward DOWN.
pub open spec fn direction(winner: Seq<char>) -> Num {
    if winner == "UP"@ {
        Num::one()
    } else {
        Num::one().negated()
    }
}

/// Score of the spot's momentum toward the winner.
pub open spec fn momentum_score(
    cfg: JEndgameConfig,
    winner: Seq<char>,
    spot_sig: SpotSignalSnapshot,
) -> Num {
    let v = match spot_sig.smoothed_velocity_usd_per_sec {
        Some(v) => v,
        None => Num::zero(),
    };
    ramp(
        v * direction(winner),
        Num::zero(),
        cfg.mom_full_vel_usd_per_sec.max(Num::ratio(1, 1_000_000)),
    )
}

/// Balance of the tape's buys toward the winner.
pub open spec fn tape_balance(winner: Seq<char>, tape: TradeTapeSnapshot) -> Num {
    let (win_buy, lose_buy) = if winner == "UP"@ {
        (tape.up_buy_usd, tape.down_buy_usd)
    } else {
        (tape.down_buy_usd, tape.up_buy_usd)
    };
    if (win_buy + lose_buy).gt(Num::zero()) {
        (win_buy - lose_buy) / (win_buy + lose_buy)
    } else {
        Num::zero()
    }
}

/// Score of the order flow toward the winner, half tape and half exchange.
pub open spec fn flow_score(
    winner: Seq<char>,
    cex: CexMicroSnapshot,
    tape: TradeTapeSnapshot,
) -> Num {
    (Num::ratio(5, 10) * tape_balance(winner, tape) + Num::ratio(5, 10) * (
    cex.buy_sell_imbalance_3s * direction(winner))).clamp(Num::zero(), Num::one())
}

pub open spec fn weight_sum(cfg: JEndgameConfig) -> Num {
    cfg.conf_w_gap + cfg.conf_w_mom + cfg.conf_w_book + cfg.conf_w_flow
}

/// The weighted mean of the four scores.
pub open spec fn blend(cfg: JEndgameConfig, gap: Num, mom: Num, book: Num, flow: Num) -> Num {
    (cfg.conf_w_gap * gap + cfg.conf_w_mom * mom + cfg.conf_w_book * book + cfg.conf_w_flow * flow)
        / weight_sum(cfg)
}

/// The blend, raised where the gap alone is strong.
pub open spec fn gap_trust(c: Num, gap: Num) -> Num {
    if gap.ge(Num::ratio(45, 100)) {
        c.max(gap * Num::ratio(72, 100) + c * Num::ratio(28, 100))
    } else {
        c
    }
}

/// A floor under the confidence where the gap is safe.
pub open spec fn safe_boost(c: Num, gz: Num, full: Num) -> Num {
    let lo = full * Num::ratio(75, 100);
    let hi = full * Num::ratio(125, 100);
    if gz.abs().ge(lo) {
        c.max(Num::ratio(58, 100) + Num::ratio(38, 100) * ramp(gz.abs(), lo, hi))
    } else {
        c
    }
}

/// Composite confidence: zero under a veto, else the boosted blend.
pub open spec fn confidence_of(
    cfg: JEndgameConfig,
    winner: Seq<char>,
    gz: Num,
    spot_sig: SpotSignalSnapshot,
    mid_cross: MidCrossSnapshot,
    cex: CexMicroSnapshot,
    tape: TradeTapeSnapshot,
) -> Num {
    let gap = gap_score(cfg, gz);
    if gap.le(Num::zero()) || book_contradicts(cfg, winner, mid_cross) || weight_sum(cfg).le(
        Num::zero(),
    ) {
        Num::zero()
    } else {
        safe_boost(
            gap_trust(
                blend(
                    cfg,
                    gap,
                    momentum_score(cfg, winner, spot_sig),
                    book_score(cfg, winner, mid_cross),
                    flow_score(winner, cex, tape),
                ),
                gap,
            ),
            gz,
            full_gap(cfg),
        )
    }
}

/// Composite confidence C ∈ [0,1] that the current `winner` side will hold to
/// settlement. Built from a weighted blend of the live signals the bot actually
/// receives each tick:
///   - gap_z:     winner distance from PTB ÷ expected move (time/vol-normalized)
///   - momentum:  Binance/Bybit smoothed spot velocity, toward the winner
///   - book:      mid-cross lead on the winner, discounted by chop (sig crosses)
///   - flow:      Polymarket tape imbalance + CEX buy/sell imbalance, toward winner
///
/// Hard vetoes (return 0): gap below the risk floor (coin flip), or the book
/// clearly leading the OPPOSITE side. The number of endgame buys is an emergent
/// consequence of how C evolves — it is never a fixed schedule or count.
pub fn endgame_confidence(
    cfg: &JEndgameConfig,
    winner: &str,
    gz: Num,
    spot_sig: &SpotSignalSnapshot,
    mid_cross: &MidCrossSnapshot,
    cex: &CexMicroSnapshot,
    tape: &TradeTapeSnapshot,
) -> (r: Num)
    ensures
        r == confidence_of(*cfg, winner@, gz, *spot_sig, *mid_cross, *cex, *tape),
{
    let is_up: bool = same_text(winner, "UP");
    let dir: Num = if is_up {
        Num::one()
    } else {
        Num::one().negated()
    };
    let floor: Num = cfg.final_seal_min_gap_z;
    let full: Num = cfg.full_size_gap_z.max(floor + Num::ratio(1, 1_000_000));
    let c_gap: Num = ramp(gz.abs(), floor, full);
    if c_gap.le(Num::zero()) {
        return Num::zero();
    }
    let book_winner: Option<&str> = match mid_cross.current_side {
        Some(LeadSide::Up) => Some("UP"),
        Some(LeadSide::Down) => Some("DOWN"),
        Some(LeadSide::Tie) | None => None,
    };
    let book_aligned: bool = match book_winner {
        Some(bw) => {
            let agrees: bool = same_text(bw, winner);
            if !agrees && mid_cross.lead_gap.ge(cfg.book_contradict_gap) {
                return Num::zero();
            }
            agrees
        },
        None => false,
    };
    let limit: u32 = if cfg.book_max_sig_cross >= 1 {
        cfg.book_max_sig_cross
    } else {
        1
    };
    let chop: Num = Num::one() - (Num::uint(mid_cross.significant_cross_count as u64) / Num::uint(
        limit as u64,
    )).clamp(Num::zero(), Num::one());
    let c_book: Num = if book_aligned {
        ramp(mid_cross.lead_gap, Num::zero(), cfg.book_full_lead_gap) * chop
    } else {
        Num::zero()
    };
    let v: Num = match spot_sig.smoothed_velocity_usd_per_sec {
        Some(v) => v,
        None => Num::zero(),
    };
    let c_mom: Num = ramp(
        v * dir,
        Num::zero(),
        cfg.mom_full_vel_usd_per_sec.max(Num::ratio(1, 1_000_000)),
    );
    let (win_buy, lose_buy): (Num, Num) = if is_up {
        (tape.up_buy_usd, tape.down_buy_usd)
    } else {
        (tape.down_buy_usd, tape.up_buy_usd)
    };
    let imb_tape: Num = if (win_buy + lose_buy).gt(Num::zero()) {
        (win_buy - lose_buy) / (win_buy + lose_buy)
    } else {
        Num::zero()
    };
    let cex_for_winner: Num = cex.buy_sell_imbalance_3s * dir;
    let c_flow: Num = (Num::ratio(5, 10) * imb_tape + Num::ratio(5, 10) * cex_for_winner).clamp(
        Num::zero(),
        Num::one(),
    );
    let wsum: Num = cfg.conf_w_gap + cfg.conf_w_mom + cfg.conf_w_book + cfg.conf_w_flow;
    if wsum.le(Num::zero()) {
        return Num::zero();
    }
    let mut c: Num = (cfg.conf_w_gap * c_gap + cfg.conf_w_mom * c_mom + cfg.conf_w_book * c_book
        + cfg.conf_w_flow * c_flow) / wsum;
    // Strong gap_z = time/vol-normalized safety. When spot is clearly ITM with
    // low expected remaining move (small ATR → gap_z reads higher), trust the
    // gap even if book/flow haven't fully caught up — this is how we buy @0.83
    // instead of waiting until the book reprices to 0.99.
    if c_gap.ge(Num::ratio(45, 100)) {
        c = c.max(c_gap * Num::ratio(72, 100) + c * Num::ratio(28, 100));
    }
    let safe_lo: Num = full * Num::ratio(75, 100);
    let safe_hi: Num = full * Num::ratio(125, 100);
    if gz.abs().ge(safe_lo) {
        let t: Num = ramp(gz.abs(), safe_lo, safe_hi);
        c = c.max(Num::ratio(58, 100) + Num::ratio(38, 100) * t);
    }
    c
}

/// Whether the configured entry bar can be lowered to the lowest bar.
pub open spec fn enter_bar_valid(cfg: JEndgameConfig) -> bool {
    Num::ratio(40, 100).le(cfg.conf_enter)
}

/// The entry bar at an ask and a gap: lower for a cheap ask and for a safe gap, never
/// below 0.40 or above the configured bar.
pub open spec fn enter_bar(cfg: JEndgameConfig, ask: Num, gz: Num) -> Num {
    let full = cfg.full_size_gap_z;
    let cheap = ((cfg.cheap_max_ask - ask) / cfg.cheap_max_ask.max(Num::ratio(1, 100))).clamp(
        Num::zero(),
        Num::one(),
    );
    let a = if ask.gt(Num::zero()) && ask.le(cfg.cheap_max_ask) {
        cfg.conf_enter - Num::ratio(14, 100) * cheap
    } else {
        cfg.conf_enter
    };
    let b = if gz.abs().ge(full * Num::ratio(75, 100)) {
        a - Num::ratio(10, 100) * ramp(
            gz.abs(),
            full * Num::ratio(75, 100),
            full * Num::ratio(125, 100),
        )
    } else {
        a
    };
    b.clamp(Num::ratio(40, 100), cfg.conf_enter)
}

/// Lower entry bar when the ask is cheap (value) or gap_z shows clear safety.
pub fn effective_conf_enter(cfg: &JEndgameConfig, ask: Num, gz: Num) -> (r: Num)
    requires
        enter_bar_valid(*cfg),
    ensures
        r == enter_bar(*cfg, ask, gz),
{
    let mut enter: Num = cfg.conf_enter;
    if ask.gt(Num::zero()) && ask.le(cfg.cheap_max_ask) {
        let cheap: Num = ((cfg.cheap_max_ask - ask) / cfg.cheap_max_ask.max(
            Num::ratio(1, 100),
        )).clamp(Num::zero(), Num::one());
        enter = enter - Num::ratio(14, 100) * cheap;
    }
    let full: Num = cfg.full_size_gap_z;
    if gz.abs().ge(full * Num::ratio(75, 100)) {
        enter =
        enter - Num::ratio(10, 100) * ramp(
            gz.abs(),
            full * Num::ratio(75, 100),
            full * Num::ratio(125, 100),
        );
    }
    enter.clamp(Num::ratio(40, 100), cfg.conf_enter)
}

/// Profit at redemption per dollar at `ask`, after the redeem fee.
pub open spec fn redeem_edge(ask: Num, fee_bps: Num) -> Num {
    (Num::one() - fee_bps / Num::uint(10_000)) / ask - Num::one()
}

/// Money on `winner` at `ask` that lifts the redeem profit to the target; nothing where
/// it is there already.
pub open spec fn profit_gap_usd(
    up_shares: Num,
    down_shares: Num,
    spent: Num,
    winner: Seq<char>,
    ask: Num,
    target_profit: Num,
    fee_bps: Num,
) -> Num {
    let current = redeem_pnl(up_shares, down_shares, spent, winner, fee_bps);
    if (current + eps()).ge(target_profit) {
        Num::zero()
    } else {
        (target_profit - current) / redeem_edge(ask, fee_bps).max(eps())
    }
}

/// USD to deploy on `winner` at `ask` so redeem PnL reaches `target_profit` after the
/// redeem fee on what is bought.
/// Without a fee at ask=0.99 the edge is ~1% so recovering a -$2 hole needs ~$300 — this
/// makes the planner size accordingly (then budget caps apply).
pub fn usd_to_close_profit_gap(
    win_state: &WindowState,
    winner: &str,
    ask: Num,
    target_profit: Num,
    fee_bps: Num,
) -> (r: Num)
    ensures
        r == profit_gap_usd(
            win_state.up_shares,
            win_state.down_shares,
            win_state.spent,
            winner@,
            ask,
            target_profit,
            fee_bps,
        ),
{
    let current: Num = redeem_pnl_if_wins(
        win_state.up_shares,
        win_state.down_shares,
        win_state.spent,
        winner,
        fee_bps,
    );
    if (current + eps()).ge(target_profit) {
        return Num::zero();
    }
    let edge: Num = (Num::one() - fee_bps / Num::uint(10_000)) / ask - Num::one();
    (target_profit - current) / edge.max(eps())
}

/// Whether anything was spent or is held.
pub open spec fn deployed(spent: Num, up_shares: Num, down_shares: Num) -> bool {
    spent.gt(eps()) || up_shares.gt(eps()) || down_shares.gt(eps())
}

pub fn has_deployed_exposure(win_state: &WindowState) -> (r: bool)
    ensures
        r == deployed(win_state.spent, win_state.up_shares, win_state.down_shares),
{
    win_state.spent.gt(eps()) || win_state.up_shares.gt(eps()) || win_state.down_shares.gt(eps())
}

pub open spec fn side_shares(side: Seq<char>, up_shares: Num, down_shares: Num) -> Num {
    if side == "UP"@ {
        up_shares
    } else {
        down_shares
    }
}

pub fn shares_for_side(side: &str, win_state: &WindowState) -> (r: Num)
    ensures
        r == side_shares(side@, win_state.up_shares, win_state.down_shares),
{
    if same_text(side, "UP") {
        win_state.up_shares
    } else {
        win_state.down_shares
    }
}

/// Average price paid on the committed side.
pub open spec fn avg_entry(state: JWindowState, up_shares: Num, down_shares: Num) -> Option<Num> {
    match state.primary() {
        Some(primary) => {
            let shares = side_shares(primary, up_shares, down_shares);
            let spent = state.primary_exposure_usd();
            if shares.gt(eps()) && spent.gt(eps()) {
                Some(spent / shares)
            } else {
                None
            }
        },
        None => None,
    }
}

pub fn primary_avg_entry_ask(state: &JWindowState, win_state: &WindowState) -> (r: Option<Num>)
    ensures
        r == avg_entry(*state, win_state.up_shares, win_state.down_shares),
{
    match &state.primary_side {
        Some(primary) => {
            let shares: Num = shares_for_side(primary.as_str(), win_state);
            let spent: Num = state.primary_exposure_usd();
            if shares.gt(eps()) && spent.gt(eps()) {
                Some(spent / shares)
            } else {
                None
            }
        },
        None => None,
    }
}

/// Cap on the winner's exposure: the dearer the ask, the less; nothing above 0.97.
pub open spec fn tail_cap(config: Config, ask: Num) -> Num {
    let cfg = config.j_endgame;
    if !ask.is_finite() || ask.le(Num::zero()) {
        Num::zero()
    } else {
        (if ask.le(Num::ratio(70, 100)) {
            cfg.effective_tail_cap_ask70_usd(&config.session)
        } else if ask.le(Num::ratio(88, 100)) {
            cfg.effective_tail_cap_ask88_usd(&config.session)
        } else if ask.le(Num::ratio(94, 100)) {
            cfg.effective_tail_cap_ask94_usd(&config.session)
        } else if ask.le(Num::ratio(97, 100)) {
            cfg.effective_tail_cap_ask97_usd(&config.session)
        } else {
            Num::zero()
        }).max(Num::zero())
    }
}

/// Hard cap for primary winner exposure by current ask. Old J worked best when
/// it stayed simple and avoided huge late-cost entries; this keeps that shape
/// while making the expensive tail explicit and testable.
pub fn tail_cut_exposure_cap_usd(config: &Config, ask: Num) -> (r: Num)
    ensures
        r == tail_cap(*config, ask),
{
    if !ask.is_finite() || ask.le(Num::zero()) {
        return Num::zero();
    }
    let cfg: &JEndgameConfig = &config.j_endgame;
    let cap: Num = if ask.le(Num::ratio(70, 100)) {
        cfg.effective_tail_cap_ask70_usd(&config.session)
    } else if ask.le(Num::ratio(88, 100)) {
        cfg.effective_tail_cap_ask88_usd(&config.session)
    } else if ask.le(Num::ratio(94, 100)) {
        cfg.effective_tail_cap_ask94_usd(&config.session)
    } else if ask.le(Num::ratio(97, 100)) {
        cfg.effective_tail_cap_ask97_usd(&config.session)
    } else {
        Num::zero()
    };
    cap.max(Num::zero())
}

/// How far a follow-up clip has grown from the probe toward the largest clip.
pub open spec fn clip_scale(cfg: JEndgameConfig, gz: Num, ask: Num, elapsed_pct: Num) -> Num {
    let full = cfg.full_size_gap_z;
    let gz_ramp = ramp(gz.abs(), full * Num::ratio(75, 100), full);
    let time_ramp = ramp(elapsed_pct, Num::uint(60), Num::uint(78));
    let cheap_ramp = if ask.le(cfg.cheap_max_ask) {
        Num::one()
    } else {
        ramp(cfg.expensive_ask_threshold - ask, Num::zero(), Num::ratio(4, 100))
    };
    (gz_ramp * time_ramp.max(Num::ratio(35, 100) * cheap_ramp) * cheap_ramp).clamp(
        Num::zero(),
        Num::one(),
    )
}

/// Cap on one clip: the first clip's size at first, then between the probe and the
/// largest clip by the scale.
pub open spec fn clip_cap(config: Config, rescue_spent_usd: Num, gz: Num, ask: Num, elapsed_pct: Num) -> Num {
    let cfg = config.j_endgame;
    let session = config.session;
    let floor = cfg.effective_probe_clip_usd(&session).max(eps());
    let first = cfg.effective_first_clip_usd(&session).max(floor);
    if rescue_spent_usd.lt(eps()) {
        first
    } else {
        let top = cfg.effective_max_clip_usd(&session).max(floor);
        (floor + clip_scale(cfg, gz, ask, elapsed_pct) * (top - floor)).max(first)
    }
}

/// Per-tick clip cap: probe on first buy, then ramp with gap_z, time, and ask cheapness.
pub fn effective_max_clip_usd(
    config: &Config,
    rescue_spent_usd: Num,
    gz: Num,
    ask: Num,
    elapsed_pct: Num,
) -> (r: Num)
    ensures
        r == clip_cap(*config, rescue_spent_usd, gz, ask, elapsed_pct),
{
    let cfg: &JEndgameConfig = &config.j_endgame;
    let floor: Num = cfg.effective_probe_clip_usd(&config.session).max(eps());
    if rescue_spent_usd.lt(eps()) {
        return cfg.effective_first_clip_usd(&config.session).max(floor);
    }
    let full: Num = cfg.full_size_gap_z;
    let gz_ramp: Num = ramp(gz.abs(), full * Num::ratio(75, 100), full);
    let time_ramp: Num = ramp(elapsed_pct, Num::uint(60), Num::uint(78));
    let cheap_ramp: Num = if ask.le(cfg.cheap_max_ask) {
        Num::one()
    } else {
        ramp(cfg.expensive_ask_threshold - ask, Num::zero(), Num::ratio(4, 100))
    };
    let scale: Num = (gz_ramp * time_ramp.max(Num::ratio(35, 100) * cheap_ramp) * cheap_ramp).clamp(
        Num::zero(),
        Num::one(),
    );
    let max_clip: Num = cfg.effective_max_clip_usd(&config.session).max(floor);
    (floor + scale * (max_clip - floor)).max(
        cfg.effective_first_clip_usd(&config.session).max(floor),
    )
}

/// Cap on the rescue exposure at an ask.
pub open spec fn exposure_cap(config: Config, ask: Num) -> Num {
    tail_cap(config, ask).min(config.j_endgame.effective_max_rescue_usd(&config.session))
}

/// Share of the rescue limit that the confidence calls for.
pub open spec fn deploy_share(cfg: JEndgameConfig, gz: Num, confidence: Num, enter: Num) -> Num {
    let full = cfg.full_size_gap_z;
    let eff = ramp(confidence, enter, Num::one());
    if gz.abs().ge(full * Num::ratio(75, 100)) {
        eff.max(
            Num::ratio(55, 100) + Num::ratio(45, 100) * ramp(
                gz.abs(),
                full * Num::ratio(75, 100),
                full * Num::ratio(15, 10),
            ),
        )
    } else {
        eff
    }
}

/// Money still needed for the target profit, where anything is deployed.
pub open spec fn profit_increment(
    config: Config,
    win_state: WindowState,
    winner: Seq<char>,
    ask: Num,
) -> Num {
    let cfg = config.j_endgame;
    let fee_bps = match cfg.fee_rate_bps {
        Some(b) => b,
        None => default_crypto_fee_rate_bps(),
    };
    if deployed(win_state.spent, win_state.up_shares, win_state.down_shares) {
        profit_gap_usd(
            win_state.up_shares,
            win_state.down_shares,
            win_state.spent,
            winner,
            ask,
            cfg.target_profit_usd,
            fee_bps,
        )
    } else {
        Num::zero()
    }
}

/// Whether a positive profit gap is out of reach: the ask too dear, or the gap beyond the
/// money left or the exposure cap.
pub open spec fn gap_out_of_reach(
    config: Config,
    rescue_spent: Num,
    gap: Num,
    remaining: Num,
    ask: Num,
) -> bool {
    gap.gt(Num::zero()) && (ask.gt(config.j_endgame.abort_rescue_if_ask_above) || gap.gt(
        remaining + eps(),
    ) || (rescue_spent + gap).gt(exposure_cap(config, ask) + eps()))
}

/// The exposure that is wanted on the winner.
pub open spec fn target_exposure(
    config: Config,
    rescue_spent: Num,
    gap: Num,
    gz: Num,
    confidence: Num,
    enter: Num,
    ask: Num,
) -> Num {
    let cap = exposure_cap(config, ask);
    let max_rescue = config.j_endgame.effective_max_rescue_usd(&config.session);
    let conf_target = (deploy_share(config.j_endgame, gz, confidence, enter) * max_rescue).min(cap);
    let profit_target = (rescue_spent + gap).min(cap);
    conf_target.max(profit_target).min(cap)
}

/// Whether a buy on the winner may be considered at all.
pub open spec fn composite_open(
    config: Config,
    rescue_spent: Num,
    ask: Num,
    gz: Num,
    confidence: Num,
) -> bool {
    let cfg = config.j_endgame;
    &&& !ask.le(Num::zero())
    &&& !ask.gt(cfg.final_seal_max_ask)
    &&& !(rescue_spent.lt(eps()) && ask.gt(cfg.expensive_ask_threshold) && (gz.abs() + eps()).lt(
        cfg.expensive_min_gap_z,
    ))
    &&& !confidence.lt(enter_bar(cfg, ask, gz))
    &&& !exposure_cap(config, ask).le(eps())
    &&& !(rescue_spent + eps()).ge(exposure_cap(config, ask))
}

/// One clip of the winner toward the target exposure.
pub open spec fn composite_plan(
    config: Config,
    state: JWindowState,
    win_state: WindowState,
    winner: Seq<char>,
    ask: Num,
    gz: Num,
    confidence: Num,
    elapsed_pct: Num,
    available_cash: Num,
) -> Option<Plan> {
    let cfg = config.j_endgame;
    let spent = state.rescue_spent_usd;
    let enter = enter_bar(cfg, ask, gz);
    let remaining = rescue_left(config, spent, win_state.spent, available_cash);
    let gap = profit_increment(config, win_state, winner, ask);
    let target = target_exposure(config, spent, gap, gz, confidence, enter, ask);
    let increment = (target - spent).clamp(Num::zero(), remaining);
    let clip = increment.min(clip_cap(config, spent, gz, ask, elapsed_pct));
    if !composite_open(config, spent, ask, gz, confidence) || gap_out_of_reach(
        config,
        spent,
        gap,
        remaining,
        ask,
    ) || (increment + eps()).lt(cfg.effective_probe_clip_usd(&config.session)) || (spent.gt(eps())
        && (increment + eps()).lt(cfg.effective_min_increment_usd(&config.session))) {
        None
    } else {
        Some(
            Plan {
                tier: EndgameTier::FinalSeal,
                max_pay: ask.min(cfg.taker_max_ask),
                need_tape: false,
                budget_left: clip,
                sweep_clips: 1,
                side: winner,
                clip_usd: clip,
            },
        )
    }
}

proof fn lemma_eps_nonneg()
    ensures
        nonneg(eps()),
{
    lemma_ratio_nonneg(1, 1_000_000_000);
    lemma_ratio_mono(1, 1_000_000_000, 1, 1);
    crate::num_laws::lemma_ratio_one();
}

/// While the exposure is below its cap, the money left for the rescue is a number that is
/// not negative.
pub proof fn law_rescue_left_nonneg(
    config: Config,
    rescue_spent: Num,
    win_spent: Num,
    available_cash: Num,
    ask: Num,
)
    requires
        !(rescue_spent + eps()).ge(exposure_cap(config, ask)),
        !exposure_cap(config, ask).is_nan(),
    ensures
        Num::zero().le(rescue_left(config, rescue_spent, win_spent, available_cash)),
{
    let cap = exposure_cap(config, ask);
    let max_rescue = config.j_endgame.effective_max_rescue_usd(&config.session);
    lemma_eps_nonneg();
    if !rescue_spent.is_nan() {
        lemma_add_grows(rescue_spent, eps());
        assert(rescue_spent.le(cap));
        if !max_rescue.is_nan() {
            assert(cap.le(max_rescue));
            lemma_sub_nonneg(max_rescue, rescue_spent);
        } else {
            reveal(Num::spec_add);
        }
    } else {
        reveal(Num::spec_add);
    }
}

pub(crate) proof fn lemma_cap_is_number(config: Config, ask: Num)
    ensures
        !tail_cap(config, ask).is_nan(),
        !exposure_cap(config, ask).is_nan(),
{
}

/// Whether a composite plan gets as far as the entry bar: an ask that may be paid, and not
/// an expensive first buy on a small gap.
pub open spec fn bar_consulted(cfg: JEndgameConfig, rescue_spent: Num, ask: Num, gz: Num) -> bool {
    &&& !ask.le(Num::zero()) && !ask.gt(cfg.final_seal_max_ask)
    &&& !(rescue_spent.lt(eps()) && ask.gt(cfg.expensive_ask_threshold) && (gz.abs() + eps()).lt(
        cfg.expensive_min_gap_z,
    ))
}

/// Target-exposure endgame: given composite confidence, compute how much USD we
/// WANT on the winner and buy only the positive delta vs what's already deployed.
/// Target is the max of (a) confidence-scaled budget and (b) USD needed to reach
/// `target_profit_usd` at the current ask — so buying @0.99 gets sized for the
/// 1% edge instead of deploying a useless $6 clip.
pub fn plan_endgame_composite(
    config: &Config,
    state: &JWindowState,
    win_state: &WindowState,
    winner: &str,
    ask: Num,
    gz: Num,
    confidence: Num,
    elapsed_pct: Num,
    available_cash: Num,
) -> (r: Option<TierPlan>)
    requires
        bar_consulted(config.j_endgame, state.rescue_spent_usd, ask, gz) ==> enter_bar_valid(
            config.j_endgame,
        ),
    ensures
        is_plan(
            r,
            composite_plan(
                *config,
                *state,
                *win_state,
                winner@,
                ask,
                gz,
                confidence,
                elapsed_pct,
                available_cash,
            ),
        ),
{
    let cfg: &JEndgameConfig = &config.j_endgame;
    let spent: Num = state.rescue_spent_usd;
    if ask.le(Num::zero()) || ask.gt(cfg.final_seal_max_ask) {
        return None;
    }
    if spent.lt(eps()) && ask.gt(cfg.expensive_ask_threshold) && (gz.abs() + eps()).lt(
        cfg.expensive_min_gap_z,
    ) {
        return None;
    }
    let enter: Num = effective_conf_enter(cfg, ask, gz);
    if confidence.lt(enter) {
        return None;
    }
    let fee_bps: Num = match cfg.fee_rate_bps {
        Some(b) => b,
        None => default_crypto_fee_rate_bps(),
    };
    let max_rescue: Num = cfg.effective_max_rescue_usd(&config.session);
    let probe_clip: Num = cfg.effective_probe_clip_usd(&config.session);
    let min_increment: Num = cfg.effective_min_increment_usd(&config.session);
    let cap: Num = tail_cut_exposure_cap_usd(config, ask).min(max_rescue);
    if cap.le(eps()) || (spent + eps()).ge(cap) {
        return None;
    }
    let mut eff: Num = ramp(confidence, enter, Num::one());
    // Safe gap at end → deploy aggressively; we are not on a coin-flip edge.
    let full: Num = cfg.full_size_gap_z;
    if gz.abs().ge(full * Num::ratio(75, 100)) {
        let gz_boost: Num = ramp(gz.abs(), full * Num::ratio(75, 100), full * Num::ratio(15, 10));
        eff = eff.max(Num::ratio(55, 100) + Num::ratio(45, 100) * gz_boost);
    }
    let conf_target: Num = (eff * max_rescue).min(cap);
    let remaining: Num = rescue_budget(config, state, win_state.spent, available_cash);
    let gap: Num = if has_deployed_exposure(win_state) {
        usd_to_close_profit_gap(win_state, winner, ask, cfg.target_profit_usd, fee_bps)
    } else {
        Num::zero()
    };
    if gap.gt(Num::zero()) {
        if ask.gt(cfg.abort_rescue_if_ask_above) {
            return None;
        }
        if gap.gt(remaining + eps()) {
            return None;
        }
        if (spent + gap).gt(cap + eps()) {
            return None;
        }
    }
    let profit_target: Num = (spent + gap).min(cap);
    let target: Num = conf_target.max(profit_target).min(cap);
    proof {
        lemma_cap_is_number(*config, ask);
        law_rescue_left_nonneg(*config, spent, win_state.spent, available_cash, ask);
    }
    let increment: Num = (target - spent).clamp(Num::zero(), remaining);
    if (increment + eps()).lt(probe_clip) {
        return None;
    }
    if spent.gt(eps()) && (increment + eps()).lt(min_increment) {
        return None;
    }
    let max_clip: Num = effective_max_clip_usd(config, spent, gz, ask, elapsed_pct);
    let clip: Num = increment.min(max_clip);
    Some(
        TierPlan {
            tier: EndgameTier::FinalSeal,
            max_pay: ask.min(cfg.taker_max_ask),
            need_tape: false,
            budget_left: clip,
            sweep_clips: 1,
            side: Some(winner.to_owned()),
            clip_usd: clip,
        },
    )
}

/// Money left for reloads at an ask.
pub open spec fn reload_left(
    config: Config,
    state: JWindowState,
    win_spent: Num,
    ask: Num,
    available_cash: Num,
) -> Num {
    let cfg = config.j_endgame;
    rescue_left(config, state.rescue_spent_usd, win_spent, available_cash).min(
        tail_cap(config, ask) - state.rescue_spent_usd,
    ).min(
        cfg.effective_discount_reload_max_usd(&config.session) - state.discount_reload_spent_usd,
    ).max(Num::zero())
}

/// Whether the committed side became cheap enough to reload while it still wins.
pub open spec fn reload_open(
    config: Config,
    state: JWindowState,
    win_state: WindowState,
    current_winner: Seq<char>,
    ask: Num,
    gz: Num,
) -> bool {
    let cfg = config.j_endgame;
    let toward = if current_winner == "UP"@ {
        gz
    } else {
        gz.negated()
    };
    &&& cfg.discount_reload_enabled
    &&& state.has_primary_exposure()
    &&& state.primary() == Some(current_winner)
    &&& !ask.le(Num::zero())
    &&& !ask.gt(cfg.discount_reload_max_ask)
    &&& state.discount_reload_clips < cfg.discount_reload_max_clips
    &&& avg_entry(state, win_state.up_shares, win_state.down_shares) matches Some(avg)
        && !(avg - ask + eps()).lt(cfg.discount_reload_min_drop)
    &&& !(toward + eps()).lt(cfg.discount_reload_min_gap_z)
}

/// One reload clip on the committed side.
pub open spec fn reload_plan(
    config: Config,
    state: JWindowState,
    win_state: WindowState,
    current_winner: Seq<char>,
    ask: Num,
    gz: Num,
    available_cash: Num,
) -> Option<Plan> {
    let cfg = config.j_endgame;
    let probe = cfg.effective_probe_clip_usd(&config.session);
    let remaining = reload_left(config, state, win_state.spent, ask, available_cash);
    if !reload_open(config, state, win_state, current_winner, ask, gz) || (remaining + eps()).lt(
        probe,
    ) {
        None
    } else {
        Some(
            Plan {
                tier: EndgameTier::DiscountReload,
                max_pay: ask.min(cfg.taker_max_ask),
                need_tape: false,
                budget_left: remaining,
                sweep_clips: 1,
                side: current_winner,
                clip_usd: cfg.effective_discount_reload_clip_usd(&config.session).max(probe).min(
                    remaining,
                ),
            },
        )
    }
}

pub fn plan_discount_reload(
    config: &Config,
    state: &JWindowState,
    win_state: &WindowState,
    current_winner: &str,
    ask: Num,
    gz: Num,
    available_cash: Num,
) -> (r: Option<TierPlan>)
    ensures
        is_plan(
            r,
            reload_plan(*config, *state, *win_state, current_winner@, ask, gz, available_cash),
        ),
{
    let cfg: &JEndgameConfig = &config.j_endgame;
    if !cfg.discount_reload_enabled || !state.has_primary_exposure() {
        return None;
    }
    let primary: &str = match &state.primary_side {
        Some(p) => p.as_str(),
        None => {
            return None;
        },
    };
    if !same_text(primary, current_winner) {
        return None;
    }
    if ask.le(Num::zero()) || ask.gt(cfg.discount_reload_max_ask) {
        return None;
    }
    if state.discount_reload_clips >= cfg.discount_reload_max_clips {
        return None;
    }
    let avg: Num = match primary_avg_entry_ask(state, win_state) {
        Some(a) => a,
        None => {
            return None;
        },
    };
    if (avg - ask + eps()).lt(cfg.discount_reload_min_drop) {
        return None;
    }
    let gz_toward_primary: Num = if same_text(primary, "UP") {
        gz
    } else {
        gz.negated()
    };
    if (gz_toward_primary + eps()).lt(cfg.discount_reload_min_gap_z) {
        return None;
    }
    let probe_clip: Num = cfg.effective_probe_clip_usd(&config.session);
    let tail_left: Num = tail_cut_exposure_cap_usd(config, ask) - state.rescue_spent_usd;
    let reload_left: Num = cfg.effective_discount_reload_max_usd(&config.session)
        - state.discount_reload_spent_usd;
    let remaining: Num = rescue_budget(config, state, win_state.spent, available_cash).min(
        tail_left,
    ).min(reload_left).max(Num::zero());
    if (remaining + eps()).lt(probe_clip) {
        return None;
    }
    let clip: Num = cfg.effective_discount_reload_clip_usd(&config.session).max(probe_clip).min(
        remaining,
    );
    Some(
        TierPlan {
            tier: EndgameTier::DiscountReload,
            max_pay: ask.min(cfg.taker_max_ask),
            need_tape: false,
            budget_left: remaining,
            sweep_clips: 1,
            side: Some(primary.to_owned()),
            clip_usd: clip,
        },
    )
}

/// Budget of the flip hedge: a floor that grows with the committed exposure, under a cap.
pub open spec fn hedge_cap(config: Config, state: JWindowState) -> Num {
    let cfg = config.j_endgame;
    cfg.effective_flip_tier_usd(&config.session).max(
        state.primary_exposure_usd() * cfg.flip_hedge_exposure_ratio,
    ).min(cfg.effective_flip_tier_max_usd(&config.session))
}

pub fn flip_hedge_budget_cap(config: &Config, state: &JWindowState) -> (r: Num)
    ensures
        r == hedge_cap(*config, *state),
{
    let cfg: &JEndgameConfig = &config.j_endgame;
    let primary: Num = state.primary_exposure_usd();
    cfg.effective_flip_tier_usd(&config.session).max(primary * cfg.flip_hedge_exposure_ratio).min(
        cfg.effective_flip_tier_max_usd(&config.session),
    )
}

pub open spec fn opposite(side: Seq<char>) -> Seq<char> {
    if side == "UP"@ {
        "DOWN"@
    } else {
        "UP"@
    }
}

/// One hedge clip on the side opposite to the committed one.
pub open spec fn hedge_plan(
    config: Config,
    state: JWindowState,
    current_winner: Seq<char>,
    gz: Num,
    prices: PricesState,
    mid_cross: MidCrossSnapshot,
) -> Option<Plan> {
    let cfg = config.j_endgame;
    let cap = hedge_cap(config, state);
    let left = cap - state.hedge_spent_usd;
    let probe = cfg.effective_probe_clip_usd(&config.session);
    match state.primary() {
        Some(primary) => {
            let side = opposite(primary);
            let ask = ask_of(side, prices);
            if !flip_triggered(cfg, state, primary, current_winner, gz, mid_cross) || (
            state.hedge_spent_usd + eps()).ge(cap) || ask.gt(cfg.flip_max_ask) {
                None
            } else {
                Some(
                    Plan {
                        tier: EndgameTier::FlipHedge,
                        max_pay: ask.min(cfg.flip_max_ask),
                        need_tape: cfg.flip_require_tape,
                        budget_left: left,
                        sweep_clips: cfg.flip_sweep_clips_per_tick,
                        side,
                        clip_usd: cfg.effective_flip_hedge_clip_usd(&config.session).max(probe).min(
                            left,
                        ).max(probe.min(left)),
                    },
                )
            }
        },
        None => None,
    }
}

pub fn plan_flip_hedge_rescue(
    config: &Config,
    state: &JWindowState,
    current_winner: &str,
    spot: Num,
    ptb: Num,
    gz: Num,
    prices: &PricesState,
    mid_cross: &MidCrossSnapshot,
) -> (r: Option<TierPlan>)
    ensures
        is_plan(r, hedge_plan(*config, *state, current_winner@, gz, *prices, *mid_cross)),
{
    let cfg: &JEndgameConfig = &config.j_endgame;
    let primary: &str = match &state.primary_side {
        Some(p) => p.as_str(),
        None => {
            return None;
        },
    };
    if !flip_hedge_triggered(cfg, state, primary, current_winner, spot, ptb, gz, mid_cross) {
        return None;
    }
    let hedge_side: &str = if same_text(primary, "UP") {
        "DOWN"
    } else {
        "UP"
    };
    let hedge_ask: Num = side_ask(hedge_side, prices);
    let budget_cap: Num = flip_hedge_budget_cap(config, state);
    if (state.hedge_spent_usd + eps()).ge(budget_cap) || hedge_ask.gt(cfg.flip_max_ask) {
        return None;
    }
    let probe_clip: Num = cfg.effective_probe_clip_usd(&config.session);
    let hedge_clip_base: Num = cfg.effective_flip_hedge_clip_usd(&config.session).max(probe_clip);
    let budget_left: Num = budget_cap - state.hedge_spent_usd;
    let hedge_clip: Num = hedge_clip_base.min(budget_left).max(probe_clip.min(budget_left));
    Some(
        TierPlan {
            tier: EndgameTier::FlipHedge,
            max_pay: hedge_ask.min(cfg.flip_max_ask),
            need_tape: cfg.flip_require_tape,
            budget_left,
            sweep_clips: cfg.flip_sweep_clips_per_tick,
            side: Some(hedge_side.to_owned()),
            clip_usd: hedge_clip,
        },
    )
}

/// The plan of the endgame zone: hedge a broken thesis first, then reload a cheaper
/// committed side, then the composite target.
pub open spec fn endgame_plan(
    config: Config,
    state: JWindowState,
    win_state: WindowState,
    prices: PricesState,
    current_winner: Seq<char>,
    gz: Num,
    elapsed_pct: Num,
    mid_cross: MidCrossSnapshot,
    allow_directional: bool,
    confidence: Num,
    available_cash: Num,
) -> Option<Plan> {
    let hedge = hedge_plan(config, state, current_winner, gz, prices, mid_cross);
    let ask = ask_of(current_winner, prices);
    let reload = reload_plan(config, state, win_state, current_winner, ask, gz, available_cash);
    if hedge is Some {
        hedge
    } else if !allow_directional {
        None
    } else if reload is Some {
        reload
    } else {
        composite_plan(
            config,
            state,
            win_state,
            current_winner,
            ask,
            gz,
            confidence,
            elapsed_pct,
            available_cash,
        )
    }
}

/// The plan of a window at one tick.
pub open spec fn window_plan(
    config: Config,
    state: JWindowState,
    win_state: WindowState,
    prices: PricesState,
    spot: Num,
    ptb: Num,
    secs_to_end: i64,
    elapsed_pct: Num,
    current_atr: Num,
    min_atr: Num,
    mid_cross: MidCrossSnapshot,
    allow_directional: bool,
    confidence: Num,
    available_cash: Num,
) -> Option<Plan> {
    let cfg = config.j_endgame;
    let gz = gap_z(spot, ptb, current_atr, secs_to_end);
    let phase = phase_of(elapsed_pct, secs_to_end, cfg, mid_cross);
    match leader(spot, ptb) {
        None => None,
        Some(winner) => if !gz.is_finite() || phase == JWindowPhase::Warmup || phase
            == JWindowPhase::MidWindow {
            None
        } else if phase == JWindowPhase::Insurance {
            insurance_plan(
                cfg,
                state,
                elapsed_pct,
                spot,
                ptb,
                prices,
                mid_cross,
                min_atr,
                current_atr,
            )
        } else {
            endgame_plan(
                config,
                state,
                win_state,
                prices,
                winner,
                gz,
                elapsed_pct,
                mid_cross,
                allow_directional,
                confidence,
                available_cash,
            )
        },
    }
}

/// Whether the plan of a window gets as far as the entry bar: the endgame, with neither a
/// hedge nor a reload in front of the composite plan.
pub open spec fn window_bar_consulted(
    config: Config,
    state: JWindowState,
    win_state: WindowState,
    prices: PricesState,
    spot: Num,
    ptb: Num,
    secs_to_end: i64,
    elapsed_pct: Num,
    current_atr: Num,
    mid_cross: MidCrossSnapshot,
    allow_directional: bool,
    available_cash: Num,
) -> bool {
    let gz = gap_z(spot, ptb, current_atr, secs_to_end);
    let phase = phase_of(elapsed_pct, secs_to_end, config.j_endgame, mid_cross);
    leader(spot, ptb) matches Some(winner) && {
        let ask = ask_of(winner, prices);
        &&& gz.is_finite() && allow_directional
        &&& phase != JWindowPhase::Warmup && phase != JWindowPhase::MidWindow && phase
            != JWindowPhase::Insurance
        &&& hedge_plan(config, state, winner, gz, prices, mid_cross) is None
        &&& reload_plan(config, state, win_state, winner, ask, gz, available_cash) is None
        &&& bar_consulted(config.j_endgame, state.rescue_spent_usd, ask, gz)
    }
}

/// Unified timeline planner. Three independent engines, no time-of-window rails:
///   - FLIP-HEDGE: buy the opposite side if our committed thesis reverses
///   - COMPOSITE: signal-driven target-exposure on the winner (emergent N buys)
/// `confidence` is the composite signal score from [`endgame_confidence`].
pub fn plan_j_window(
    config: &Config,
    state: &JWindowState,
    win_state: &WindowState,
    prices: &PricesState,
    spot: Num,
    ptb: Num,
    secs_to_end: i64,
    elapsed_pct: Num,
    current_atr: Num,
    min_atr: Num,
    mid_cross: &MidCrossSnapshot,
    allow_directional: bool,
    confidence: Num,
    available_cash: Num,
) -> (r: Option<TierPlan>)
    requires
        window_bar_consulted(
            *config,
            *state,
            *win_state,
            *prices,
            spot,
            ptb,
            secs_to_end,
            elapsed_pct,
            current_atr,
            *mid_cross,
            allow_directional,
            available_cash,
        ) ==> enter_bar_valid(config.j_endgame),
    ensures
        is_plan(
            r,
            window_plan(
                *config,
                *state,
                *win_state,
                *prices,
                spot,
                ptb,
                secs_to_end,
                elapsed_pct,
                current_atr,
                min_atr,
                *mid_cross,
                allow_directional,
                confidence,
                available_cash,
            ),
        ),
{
    let cfg: &JEndgameConfig = &config.j_endgame;
    let current_winner: &str = match winner_side(spot, ptb) {
        Some(w) => w,
        None => {
            return None;
        },
    };
    let gz: Num = gap_z(spot, ptb, current_atr, secs_to_end);
    if !gz.is_finite() {
        return None;
    }
    let phase: JWindowPhase = detect_phase(elapsed_pct, secs_to_end, cfg, mid_cross);
    // Early window: only insurance optionality is allowed.
    if phase == JWindowPhase::Warmup || phase == JWindowPhase::MidWindow {
        return None;
    }
    if phase == JWindowPhase::Insurance {
        return plan_insurance(
            cfg,
            state,
            elapsed_pct,
            spot,
            ptb,
            prices,
            mid_cross,
            min_atr,
            current_atr,
        );
    }
    // Endgame zone: flip-hedge first (defends a reversal), then discount reload
    // if our existing thesis is still winner but got cheaper, then composite.
    let hedge: Option<TierPlan> = plan_flip_hedge_rescue(
        config,
        state,
        current_winner,
        spot,
        ptb,
        gz,
        prices,
        mid_cross,
    );
    if hedge.is_some() {
        return hedge;
    }
    if !allow_directional {
        return None;
    }
    let ask: Num = side_ask(current_winner, prices);
    let reload: Option<TierPlan> = plan_discount_reload(
        config,
        state,
        win_state,
        current_winner,
        ask,
        gz,
        available_cash,
    );
    if reload.is_some() {
        return reload;
    }
    plan_endgame_composite(
        config,
        state,
        win_state,
        current_winner,
        ask,
        gz,
        confidence,
        elapsed_pct,
        available_cash,
    )
}

/// The plan of a running window at one tick: the confidence comes from the live signals,
/// and the limits on distance and lead changes decide whether a side may be bought.
pub open spec fn tick_plan(
    config: Config,
    state: JWindowState,
    win_state: WindowState,
    prices: PricesState,
    spot: Num,
    ptb: Num,
    secs_to_end: i64,
    elapsed_pct: Num,
    current_atr: Num,
    min_atr: Num,
    spot_sig: SpotSignalSnapshot,
    mid_cross: MidCrossSnapshot,
    cex: CexMicroSnapshot,
    tape: TradeTapeSnapshot,
    available_cash: Num,
) -> Option<Plan> {
    let cfg = config.j_endgame;
    match leader(spot, ptb) {
        None => None,
        Some(winner) => window_plan(
            config,
            state,
            win_state,
            prices,
            spot,
            ptb,
            secs_to_end,
            elapsed_pct,
            current_atr,
            min_atr,
            mid_cross,
            directional_entry_allowed(&cfg, spot, ptb, &mid_cross),
            confidence_of(
                cfg,
                winner,
                gap_z(spot, ptb, current_atr, secs_to_end),
                spot_sig,
                mid_cross,
                cex,
                tape,
            ),
            available_cash,
        ),
    }
}

/// What the endgame strategy wants to buy at one tick of a running window.
pub fn plan_j_tick(
    config: &Config,
    state: &JWindowState,
    win_state: &WindowState,
    prices: &PricesState,
    spot: Num,
    ptb: Num,
    secs_to_end: i64,
    elapsed_pct: Num,
    current_atr: Num,
    min_atr: Num,
    spot_sig: &SpotSignalSnapshot,
    mid_cross: &MidCrossSnapshot,
    cex: &CexMicroSnapshot,
    tape: &TradeTapeSnapshot,
    available_cash: Num,
) -> (r: Option<TierPlan>)
    requires
        window_bar_consulted(
            *config,
            *state,
            *win_state,
            *prices,
            spot,
            ptb,
            secs_to_end,
            elapsed_pct,
            current_atr,
            *mid_cross,
            directional_entry_allowed(&config.j_endgame, spot, ptb, mid_cross),
            available_cash,
        ) ==> enter_bar_valid(config.j_endgame),
    ensures
        is_plan(
            r,
            tick_plan(
                *config,
                *state,
                *win_state,
                *prices,
                spot,
                ptb,
                secs_to_end,
                elapsed_pct,
                current_atr,
                min_atr,
                *spot_sig,
                *mid_cross,
                *cex,
                *tape,
                available_cash,
            ),
        ),
{
    let cfg: &JEndgameConfig = &config.j_endgame;
    let winner: &str = match winner_side(spot, ptb) {
        Some(w) => w,
        None => {
            return None;
        },
    };
    let gz: Num = gap_z(spot, ptb, current_atr, secs_to_end);
    let confidence: Num = endgame_confidence(cfg, winner, gz, spot_sig, mid_cross, cex, tape);
    plan_j_window(
        config,
        state,
        win_state,
        prices,
        spot,
        ptb,
        secs_to_end,
        elapsed_pct,
        current_atr,
        min_atr,
        mid_cross,
        directional_entry_allowed(cfg, spot, ptb, mid_cross),
        confidence,
        available_cash,
    )
}

pub fn projected_redeem_pnl(win_state: &WindowState, winner: &str, fee_bps: Num) -> (r: Num)
    ensures
        r == redeem_pnl(
            win_state.up_shares,
            win_state.down_shares,
            win_state.spent,
            winner@,
            fee_bps,
        ),
{
    redeem_pnl_if_wins(
        win_state.up_shares,
        win_state.down_shares,
        win_state.spent,
        winner,
        fee_bps,
    )
}

} // verus!
