//! State and signals of the endgame strategy within one window.
use crate::client::PricesState;
use crate::config::JEndgameConfig;
use crate::mid_cross_tracker::{LeadSide, MidCrossSnapshot};
use crate::num::Num;
use crate::redeem_hold::expected_move_usd;
use crate::strategy::TradeTapeSnapshot;
use crate::text::{fill2, filled, lowercase, same_text, to_lowercase};
use crate::trade_tape::{side_flow, winner_stats};
use vstd::prelude::*;

verus! {

#[derive(Debug, Clone, Copy, PartialEq, Eq, Structural)]
pub enum EndgameTier {
    Insurance,
    FlipHedge,
    DiscountReload,
    FinalSeal,
    Rescue,
    Impulse,
    Cheap,
    Late,
}

/// One buy that the planner wants.
#[derive(Debug, Clone)]
pub struct TierPlan {
    pub tier: EndgameTier,
    pub max_pay: Num,
    pub need_tape: bool,
    pub budget_left: Num,
    pub sweep_clips: u8,
    pub side: Option<String>,
    pub clip_usd: Num,
}

/// A plan as plain values.
pub struct Plan {
    pub tier: EndgameTier,
    pub max_pay: Num,
    pub need_tape: bool,
    pub budget_left: Num,
    pub sweep_clips: u8,
    pub side: Seq<char>,
    pub clip_usd: Num,
}

/// Whether `r` is the plan `p`, or neither is there.
pub open spec fn is_plan(r: Option<TierPlan>, p: Option<Plan>) -> bool {
    match (r, p) {
        (None, None) => true,
        (Some(a), Some(b)) => {
            &&& a.tier == b.tier
            &&& a.max_pay == b.max_pay
            &&& a.need_tape == b.need_tape
            &&& a.budget_left == b.budget_left
            &&& a.sweep_clips == b.sweep_clips
            &&& a.side is Some
            &&& a.side->0@ == b.side
            &&& a.clip_usd == b.clip_usd
        },
        _ => false,
    }
}

/// What the strategy has deployed in one window.
#[derive(Debug, Clone)]
pub struct JWindowState {
    pub primary_side: Option<String>,
    pub clips_filled: u16,
    pub cheap_spent_usd: Num,
    pub late_spent_usd: Num,
    pub rescue_spent_usd: Num,
    pub hedge_spent_usd: Num,
    pub insurance_spent_usd: Num,
    pub insurance_clips: u16,
    pub discount_reload_spent_usd: Num,
    pub discount_reload_clips: u16,
}

impl Default for JWindowState {
    fn default() -> (r: Self)
        ensures
            r.primary_side is None,
            r.clips_filled == 0,
            r.cheap_spent_usd == Num::zero(),
            r.late_spent_usd == Num::zero(),
            r.rescue_spent_usd == Num::zero(),
            r.hedge_spent_usd == Num::zero(),
            r.insurance_spent_usd == Num::zero(),
            r.insurance_clips == 0,
            r.discount_reload_spent_usd == Num::zero(),
            r.discount_reload_clips == 0,
    {
        JWindowState {
            primary_side: None,
            clips_filled: 0,
            cheap_spent_usd: Num::zero(),
            late_spent_usd: Num::zero(),
            rescue_spent_usd: Num::zero(),
            hedge_spent_usd: Num::zero(),
            insurance_spent_usd: Num::zero(),
            insurance_clips: 0,
            discount_reload_spent_usd: Num::zero(),
            discount_reload_clips: 0,
        }
    }
}

impl JWindowState {
    /// The committed side.
    pub open spec fn primary(self) -> Option<Seq<char>> {
        match self.primary_side {
            Some(s) => Some(s@),
            None => None,
        }
    }

    pub open spec fn spec_primary_exposure_usd(&self) -> Num {
        self.cheap_spent_usd + self.late_spent_usd + self.rescue_spent_usd
    }

    /// USD deployed on the committed side by all its tiers.
    #[verifier::when_used_as_spec(spec_primary_exposure_usd)]
    pub fn primary_exposure_usd(&self) -> (r: Num)
        ensures
            r == self.spec_primary_exposure_usd(),
    {
        self.cheap_spent_usd + self.late_spent_usd + self.rescue_spent_usd
    }

    pub open spec fn spec_has_primary_exposure(&self) -> bool {
        self.primary_side is Some && self.spec_primary_exposure_usd().gt(
            Num::ratio(1, 1_000_000_000),
        )
    }

    /// Whether a side is committed and money is deployed on it.
    #[verifier::when_used_as_spec(spec_has_primary_exposure)]
    pub fn has_primary_exposure(&self) -> (r: bool)
        ensures
            r == self.spec_has_primary_exposure(),
    {
        self.primary_side.is_some() && self.primary_exposure_usd().gt(Num::ratio(1, 1_000_000_000))
    }
}

/// The side that the spot is in favour of: none exactly at the price to beat.
pub open spec fn leader(spot: Num, ptb: Num) -> Option<Seq<char>> {
    if spot.gt(ptb) {
        Some("UP"@)
    } else if spot.lt(ptb) {
        Some("DOWN"@)
    } else {
        None
    }
}

pub fn winner_side(spot: Num, ptb: Num) -> (r: Option<&'static str>)
    ensures
        match (r, leader(spot, ptb)) {
            (None, None) => true,
            (Some(a), Some(b)) => a@ == b,
            _ => false,
        },
{
    if spot.gt(ptb) {
        Some("UP")
    } else if spot.lt(ptb) {
        Some("DOWN")
    } else {
        None
    }
}

pub open spec fn spec_gap_z(spot: Num, ptb: Num, current_atr: Num, secs_left: i64) -> Num {
    (spot - ptb) / expected_move_usd(current_atr, secs_left)
}

/// Signed distance of the spot from the price to beat over the expected move.
#[verifier::when_used_as_spec(spec_gap_z)]
pub fn gap_z(spot: Num, ptb: Num, current_atr: Num, secs_left: i64) -> (r: Num)
    ensures
        r == spec_gap_z(spot, ptb, current_atr, secs_left),
{
    (spot - ptb) / expected_move_usd(current_atr, secs_left)
}

pub open spec fn spec_ptb_dist_pct(spot: Num, ptb: Num) -> Num {
    (spot - ptb).abs() / ptb * Num::uint(100)
}

/// Distance of the spot from the price to beat in percent of it.
#[verifier::when_used_as_spec(spec_ptb_dist_pct)]
pub fn ptb_dist_pct(spot: Num, ptb: Num) -> (r: Num)
    ensures
        r == spec_ptb_dist_pct(spot, ptb),
{
    (spot - ptb).abs() / ptb * Num::uint(100)
}

pub open spec fn ask_of(side: Seq<char>, prices: PricesState) -> Num {
    if side == "UP"@ {
        prices.up.ask
    } else {
        prices.down.ask
    }
}

pub fn side_ask(side: &str, prices: &PricesState) -> (r: Num)
    ensures
        r == ask_of(side@, *prices),
{
    if same_text(side, "UP") {
        prices.up.ask
    } else {
        prices.down.ask
    }
}

/// Whether the book leads the side opposite to `primary`.
pub open spec fn lead_against(primary: Seq<char>, mid_cross: MidCrossSnapshot) -> bool {
    match mid_cross.current_side {
        Some(LeadSide::Up) => primary != "UP"@,
        Some(LeadSide::Down) => primary != "DOWN"@,
        _ => false,
    }
}

/// Whether the committed thesis broke: money is deployed, the spot (or the book, where
/// it counts) is against the committed side, and crosses or the gap give evidence.
pub open spec fn flip_triggered(
    cfg: JEndgameConfig,
    state: JWindowState,
    primary: Seq<char>,
    current_winner: Seq<char>,
    gz: Num,
    mid_cross: MidCrossSnapshot,
) -> bool {
    &&& cfg.flip_hedge_enabled
    &&& state.has_primary_exposure()
    &&& current_winner != primary || (!cfg.flip_require_spot_cross && lead_against(
        primary,
        mid_cross,
    ))
    &&& mid_cross.significant_cross_count >= cfg.flip_min_sig_crosses || mid_cross.cross_count
        >= cfg.flip_min_crosses || gz.abs().ge(cfg.flip_min_gap_z)
}

pub fn flip_hedge_triggered(
    cfg: &JEndgameConfig,
    state: &JWindowState,
    primary: &str,
    current_winner: &str,
    _spot: Num,
    _ptb: Num,
    gz: Num,
    mid_cross: &MidCrossSnapshot,
) -> (r: bool)
    ensures
        r == flip_triggered(*cfg, *state, primary@, current_winner@, gz, *mid_cross),
{
    if !cfg.flip_hedge_enabled || !state.has_primary_exposure() {
        return false;
    }
    let book_against: bool = match mid_cross.current_side {
        Some(LeadSide::Up) => !same_text(primary, "UP"),
        Some(LeadSide::Down) => !same_text(primary, "DOWN"),
        _ => false,
    };
    let spot_against: bool = !same_text(current_winner, primary);
    if !spot_against && (cfg.flip_require_spot_cross || !book_against) {
        return false;
    }
    mid_cross.significant_cross_count >= cfg.flip_min_sig_crosses || mid_cross.cross_count
        >= cfg.flip_min_crosses || gz.abs().ge(cfg.flip_min_gap_z)
}

/// Whether a side may be bought at all: spot far enough from the price to beat, and both
/// counts of lead changes below their limits. A limit of zero on all lead changes is none.
pub open spec fn spec_directional_entry_allowed(
    cfg: &JEndgameConfig,
    spot: Num,
    ptb: Num,
    mid_cross: &MidCrossSnapshot,
) -> bool {
    &&& ptb_dist_pct(spot, ptb).ge(cfg.min_ptb_dist_pct)
    &&& mid_cross.significant_cross_count < cfg.max_sig_crosses_directional
    &&& cfg.max_crosses_directional == 0 || mid_cross.cross_count < cfg.max_crosses_directional
}

#[verifier::when_used_as_spec(spec_directional_entry_allowed)]
pub fn directional_entry_allowed(
    cfg: &JEndgameConfig,
    spot: Num,
    ptb: Num,
    mid_cross: &MidCrossSnapshot,
) -> (r: bool)
    ensures
        r == spec_directional_entry_allowed(cfg, spot, ptb, mid_cross),
{
    ptb_dist_pct(spot, ptb).ge(cfg.min_ptb_dist_pct) && mid_cross.significant_cross_count
        < cfg.max_sig_crosses_directional && (cfg.max_crosses_directional == 0
        || mid_cross.cross_count < cfg.max_crosses_directional)
}

/// Whether the tape runs with a side: enough money in enough buys.
pub fn tape_hot(tape: &TradeTapeSnapshot, winner: &str, cfg: &JEndgameConfig) -> (r: bool)
    ensures
        r == (side_flow(*tape, winner@).0.ge(cfg.min_tape_usd) && side_flow(*tape, winner@).1
            >= cfg.min_tape_buys),
{
    let (usd, buys): (Num, u32) = winner_stats(tape, winner);
    usd.ge(cfg.min_tape_usd) && buys >= cfg.min_tape_buys
}

/// Whether the next composite buy in a window is due: none yet, or the last one is at least
/// the smallest interval ago.
pub fn buy_due(last_buy_ms: Option<i64>, now_ms: i64, cfg: &JEndgameConfig) -> (r: bool)
    ensures
        r == match last_buy_ms {
            Some(t) => now_ms - t >= cfg.min_buy_interval_ms,
            None => true,
        },
{
    match last_buy_ms {
        Some(t) => now_ms as i128 - t as i128 >= cfg.min_buy_interval_ms as i128,
        None => true,
    }
}

/// A tier's name in the reason of an order.
pub open spec fn tier_name(tier: EndgameTier) -> Seq<char> {
    match tier {
        EndgameTier::Insurance => "insurance"@,
        EndgameTier::FlipHedge => "flip_hedge"@,
        EndgameTier::DiscountReload => "discount_reload"@,
        EndgameTier::FinalSeal => "final_seal"@,
        EndgameTier::Rescue => "rescue"@,
        EndgameTier::Impulse => "impulse"@,
        EndgameTier::Cheap => "cheap"@,
        EndgameTier::Late => "late"@,
    }
}

/// The reason of a taker order in a tier.
pub fn order_reason(tier: EndgameTier, side: &str) -> (r: String)
    ensures
        r@ == filled("j_{}_taker_{}"@, seq![tier_name(tier), lowercase(side@)]),
{
    let name: &str = match tier {
        EndgameTier::Insurance => "insurance",
        EndgameTier::FlipHedge => "flip_hedge",
        EndgameTier::DiscountReload => "discount_reload",
        EndgameTier::FinalSeal => "final_seal",
        EndgameTier::Rescue => "rescue",
        EndgameTier::Impulse => "impulse",
        EndgameTier::Cheap => "cheap",
        EndgameTier::Late => "late",
    };
    fill2("j_{}_taker_{}", name, to_lowercase(side).as_str())
}

/// One more, where that can be counted.
pub open spec fn counted(n: u16) -> u16 {
    if n < u16::MAX {
        (n + 1) as u16
    } else {
        n
    }
}

fn count_one(n: u16) -> (r: u16)
    ensures
        r == counted(n),
{
    if n < u16::MAX {
        n + 1
    } else {
        n
    }
}

impl JWindowState {
    /// Whether `t` is `self` after a fill in a tier. A hedge and insurance are kept apart;
    /// a reload counts as rescue too; all else is rescue, and its first fill sets the side.
    pub open spec fn filled_in(
        self,
        t: JWindowState,
        tier: Option<EndgameTier>,
        side: Seq<char>,
        usd: Num,
    ) -> bool {
        match tier {
            Some(EndgameTier::FlipHedge) => t == (JWindowState {
                hedge_spent_usd: self.hedge_spent_usd + usd,
                ..self
            }),
            Some(EndgameTier::Insurance) => t == (JWindowState {
                insurance_spent_usd: self.insurance_spent_usd + usd,
                insurance_clips: counted(self.insurance_clips),
                ..self
            }),
            Some(EndgameTier::DiscountReload) => t == (JWindowState {
                discount_reload_spent_usd: self.discount_reload_spent_usd + usd,
                discount_reload_clips: counted(self.discount_reload_clips),
                rescue_spent_usd: self.rescue_spent_usd + usd,
                ..self
            }),
            _ => {
                &&& t == (JWindowState {
                    primary_side: t.primary_side,
                    rescue_spent_usd: self.rescue_spent_usd + usd,
                    clips_filled: counted(self.clips_filled),
                    ..self
                })
                &&& match self.primary_side {
                    Some(_) => t.primary_side == self.primary_side,
                    None => t.primary() == Some(side),
                }
            },
        }
    }

    /// Books a fill that was planned in a tier.
    pub fn note_fill(&mut self, tier: Option<EndgameTier>, side: &str, usd: Num)
        ensures
            old(self).filled_in(*final(self), tier, side@, usd),
    {
        match tier {
            Some(EndgameTier::FlipHedge) => {
                self.hedge_spent_usd = self.hedge_spent_usd + usd;
            },
            Some(EndgameTier::Insurance) => {
                self.insurance_spent_usd = self.insurance_spent_usd + usd;
                self.insurance_clips = count_one(self.insurance_clips);
            },
            Some(EndgameTier::DiscountReload) => {
                self.discount_reload_spent_usd = self.discount_reload_spent_usd + usd;
                self.discount_reload_clips = count_one(self.discount_reload_clips);
                self.rescue_spent_usd = self.rescue_spent_usd + usd;
            },
            _ => {
                if self.primary_side.is_none() {
                    self.primary_side = Some(side.to_owned());
                }
                self.rescue_spent_usd = self.rescue_spent_usd + usd;
                self.clips_filled = count_one(self.clips_filled);
            },
        }
    }
}

} // verus!
