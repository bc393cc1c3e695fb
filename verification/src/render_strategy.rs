//! What the terminal dashboard shows of the strategy in a window.
use crate::cex_micro::CexMicroSnapshot;
use crate::client::PricesState;
use crate::config::{Config, JEndgameConfig};
use crate::display::{paint, painted};
use crate::h_stats::{close_stats, derive_h_close_stats, HCloseStats};
use crate::j_controller::{
    confidence_of, detect_phase, endgame_confidence, enter_bar_valid, phase_of, plan_j_window,
    projected_redeem_pnl, redeem_pnl, window_bar_consulted, window_plan, JWindowPhase,
};
use crate::j_fees::default_crypto_fee_rate_bps;
use crate::llm::text_or;
use crate::llm_context::{first_bought, first_buy};
use crate::mid_cross_tracker::{elapsed_pct, market_span, time_pct_for, LeadSide, MidCrossSnapshot};
use crate::num::Num;
use crate::number_format::{
    dec_text, fixed, fixed_of, int_text, int_text_of, signed_fixed, signed_fixed_of, uint_text,
};
use crate::orderbook::{ask_depth_usd, depth_sum};
use crate::redeem_hold::expected_move_usd;
use crate::render::{side_tone, tone_of_side};
use crate::strategy::{SpotSignalSnapshot, StrategyState, TradeTapeSnapshot};
use crate::strategy_j::{EndgameTier, JWindowState, TierPlan};
use crate::text::{
    bool_str, bool_text, fill1, fill2, fill3, fill4, fill5, fill6, filled, has_prefix, push_line,
    same_text, starts_with, texts,
};
use crate::time::{div_toward_zero, trunc_div};
use crate::trade_tape::{side_flow, winner_stats};
use crate::trader::WindowState;
use crate::window_close::{close_winner, winner_of};
use vstd::prelude::*;

verus! {

/// What the dashboard asks a strategy about a window.
#[derive(Debug)]
pub struct StrategyPanel {
    /// The strategy's state in the window; none before it took part.
    pub state: Option<StrategyState>,
    /// Whether the endgame strategy may open a directional position.
    pub j_directional_allowed: bool,
    /// Whether its hedge against a broken thesis is armed.
    pub j_flip_hedge_armed: bool,
    /// Whether the tape is hot on the winner.
    pub j_tape_hot: bool,
    /// The phase of the hold strategy.
    pub h_phase: String,
    /// Whether a side is in the hold strategy's price band.
    pub h_cheap_side: bool,
    /// Whether the spot is near enough for the hold strategy.
    pub h_gap_allows: bool,
}

pub fn opt_str<'a>(t: &'a Option<String>, other: &'a str) -> (r: &'a str)
    ensures
        r@ == text_or(*t, other@),
{
    match t {
        Some(s) => s.as_str(),
        None => other,
    }
}

pub open spec fn one_line(s: Seq<char>) -> Seq<Seq<char>> {
    seq![s]
}

/// Whether the lead changed within the last tenth of the window.
pub open spec fn fresh_cross(mc: MidCrossSnapshot, time_pct: Num) -> bool {
    match mc.last_cross_time_pct {
        Some(cp) => time_pct.ge(cp) && time_pct.le(cp + Num::uint(10)),
        None => false,
    }
}

/// The entry gate of the grid strategy.
pub open spec fn e_gate(mc: MidCrossSnapshot, p: PricesState, time_pct: Num) -> Seq<char> {
    let up = p.up.ask;
    let down = p.down.ask;
    let both = seq![fixed_of(up, 2), fixed_of(down, 2)];
    if mc.cross_count >= 5 && time_pct.lt(Num::uint(40)) {
        painted(filled("BLOCKED chop ({} crosses)"@, seq![dec_text(mc.cross_count as int)]), "red"@)
    } else if fresh_cross(mc, time_pct) && mc.lead_gap.ge(Num::ratio(14, 100)) && ((
    mc.current_side == Some(LeadSide::Up) && up.le(Num::ratio(58, 100))) || (mc.current_side == Some(
        LeadSide::Down,
    ) && down.le(Num::ratio(58, 100)))) {
        painted(
            filled(
                "READY cross lead {} (UP {} / DN {})"@,
                seq![fixed_of(mc.lead_gap, 2), fixed_of(up, 2), fixed_of(down, 2)],
            ),
            "green"@,
        )
    } else if up.le(Num::ratio(50, 100)) || down.le(Num::ratio(50, 100)) {
        painted(filled("READY value (UP {} / DN {})"@, both), "green"@)
    } else {
        painted(filled("WAIT no entry (UP {} / DN {})"@, both), "yellow"@)
    }
}

fn e_gate_text(mc: &MidCrossSnapshot, p: &PricesState, time_pct: Num) -> (r: String)
    ensures
        r@ == e_gate(*mc, *p, time_pct),
{
    let up: Num = p.up.ask;
    let down: Num = p.down.ask;
    let up_text: String = fixed(up, 2);
    let down_text: String = fixed(down, 2);
    let fresh: bool = match mc.last_cross_time_pct {
        Some(cp) => time_pct.ge(cp) && time_pct.le(cp + Num::uint(10)),
        None => false,
    };
    let cheap_lead: bool = match mc.current_side {
        Some(LeadSide::Up) => up.le(Num::ratio(58, 100)),
        Some(LeadSide::Down) => down.le(Num::ratio(58, 100)),
        _ => false,
    };
    if mc.cross_count >= 5 && time_pct.lt(Num::uint(40)) {
        paint(
            fill1(
                "BLOCKED chop ({} crosses)",
                uint_text(mc.cross_count as u64).as_str(),
            ).as_str(),
            "red",
        )
    } else if fresh && mc.lead_gap.ge(Num::ratio(14, 100)) && cheap_lead {
        paint(
            fill3(
                "READY cross lead {} (UP {} / DN {})",
                fixed(mc.lead_gap, 2).as_str(),
                up_text.as_str(),
                down_text.as_str(),
            ).as_str(),
            "green",
        )
    } else if up.le(Num::ratio(50, 100)) || down.le(Num::ratio(50, 100)) {
        paint(
            fill2("READY value (UP {} / DN {})", up_text.as_str(), down_text.as_str()).as_str(),
            "green",
        )
    } else {
        paint(
            fill2("WAIT no entry (UP {} / DN {})", up_text.as_str(), down_text.as_str()).as_str(),
            "yellow",
        )
    }
}

/// The grid strategy.
pub open spec fn e_lines(
    label: Seq<char>,
    w: WindowState,
    state: Option<StrategyState>,
    mc: Option<MidCrossSnapshot>,
    time_pct: Num,
) -> Seq<Seq<char>> {
    if w.window_number == 0 {
        one_line(painted("E: window #0 warmup — no trading until window #1"@, "dim"@))
    } else {
        match state {
            Some(s) => {
                let conviction = text_or(s.e_conviction_side, "N/A"@);
                let two = seq![
                    filled(
                        "E Conviction: {} | Tranches: {}/3 | Grid sells: {} (3 base + extend)"@,
                        seq![
                            painted(conviction, side_tone(conviction, "dim"@)),
                            dec_text(s.e_tranches_done as int),
                            dec_text(s.e_grid_steps_done as int),
                        ],
                    ),
                    filled(
                        "PTB baseline: {} | PTB crossed: {}"@,
                        seq![
                            painted(text_or(s.ptb_baseline, "N/A"@), "cyan"@),
                            if s.ptb_crossed {
                                painted("YES"@, "green"@)
                            } else {
                                painted("NO"@, "yellow"@)
                            },
                        ],
                    ),
                ];
                if label == "CURRENT"@ && mc is Some && mc->0.armed {
                    two.push(filled("E Entry gate: {}"@, seq![e_gate(mc->0, w.prices, time_pct)]))
                } else {
                    two
                }
            },
            None => if label == "NEXT"@ {
                one_line(painted("E: monitoring NEXT (live-only, no pre-entry)"@, "dim"@))
            } else {
                one_line(painted("E: live-only — waiting for conviction entry"@, "dim"@))
            },
        }
    }
}

pub(crate) fn push_e(
    lines: &mut Vec<String>,
    label: &str,
    w: &WindowState,
    state: &Option<StrategyState>,
    mc: Option<&MidCrossSnapshot>,
    time_pct: Num,
)
    ensures
        texts(final(lines)@) == texts(old(lines)@) + e_lines(
            label@,
            *w,
            *state,
            owned_mid(mc),
            time_pct,
        ),
{
    let ghost before = texts(lines@);
    if w.window_number == 0 {
        push_line(lines, paint("E: window #0 warmup — no trading until window #1", "dim"));
    } else {
        match state {
            Some(s) => {
                let conviction: &str = opt_str(&s.e_conviction_side, "N/A");
                push_line(
                    lines,
                    fill3(
                        "E Conviction: {} | Tranches: {}/3 | Grid sells: {} (3 base + extend)",
                        paint(conviction, tone_of_side(conviction, "dim")).as_str(),
                        uint_text(s.e_tranches_done as u64).as_str(),
                        uint_text(s.e_grid_steps_done as u64).as_str(),
                    ),
                );
                let crossed: String = if s.ptb_crossed {
                    paint("YES", "green")
                } else {
                    paint("NO", "yellow")
                };
                push_line(
                    lines,
                    fill2(
                        "PTB baseline: {} | PTB crossed: {}",
                        paint(opt_str(&s.ptb_baseline, "N/A"), "cyan").as_str(),
                        crossed.as_str(),
                    ),
                );
                if same_text(label, "CURRENT") {
                    if let Some(m) = mc {
                        if m.armed {
                            push_line(
                                lines,
                                fill1(
                                    "E Entry gate: {}",
                                    e_gate_text(m, &w.prices, time_pct).as_str(),
                                ),
                            );
                        }
                    }
                }
            },
            None => {
                if same_text(label, "NEXT") {
                    push_line(lines, paint("E: monitoring NEXT (live-only, no pre-entry)", "dim"));
                } else {
                    push_line(lines, paint("E: live-only — waiting for conviction entry", "dim"));
                }
            },
        }
    }
    assert(texts(lines@) =~= before + e_lines(label@, *w, *state, owned_mid(mc), time_pct));
}

/// The snapshot behind a reference.
pub open spec fn owned_mid(m: Option<&MidCrossSnapshot>) -> Option<MidCrossSnapshot> {
    match m {
        Some(x) => Some(*x),
        None => None,
    }
}

pub open spec fn mid_or_blank(m: Option<MidCrossSnapshot>) -> MidCrossSnapshot {
    match m {
        Some(x) => x,
        None => MidCrossSnapshot::blank(),
    }
}

/// Who leads by the spot, a tie exactly at the price to beat.
pub open spec fn spot_leader(spot: Num, ptb: Num) -> Seq<char> {
    if spot.gt(ptb) {
        "UP"@
    } else if spot.lt(ptb) {
        "DOWN"@
    } else {
        "TIE"@
    }
}

fn leader_by_spot(spot: Num, ptb: Num) -> (r: &'static str)
    ensures
        r@ == spot_leader(spot, ptb),
{
    if spot.gt(ptb) {
        "UP"
    } else if spot.lt(ptb) {
        "DOWN"
    } else {
        "TIE"
    }
}

/// Distance over the expected move; zero where no move is expected.
pub open spec fn shown_gap(spot: Num, ptb: Num, atr: Num, secs: int) -> Num {
    let expected = expected_move_usd(
        atr.max(Num::one()),
        (if secs >= 1 {
            secs
        } else {
            1
        }) as i64,
    );
    if expected.gt(Num::zero()) {
        (spot - ptb) / expected
    } else {
        Num::zero()
    }
}

fn gap_shown(spot: Num, ptb: Num, atr: Num, secs: i64) -> (r: Num)
    ensures
        r == shown_gap(spot, ptb, atr, secs as int),
{
    let expected: Num = expected_move_usd(
        atr.max(Num::one()),
        if secs >= 1 {
            secs
        } else {
            1
        },
    );
    if expected.gt(Num::zero()) {
        (spot - ptb) / expected
    } else {
        Num::zero()
    }
}

/// Seconds left, at least `floor`; 600 where the end is unknown.
pub open spec fn secs_left_or(end_ms: Option<i64>, now_ms: i64, floor: int) -> i64 {
    match end_ms {
        Some(end) => {
            let s = trunc_div(end - now_ms, 1000);
            (if s >= floor {
                s
            } else {
                floor
            }) as i64
        },
        None => 600,
    }
}

pub(crate) fn seconds_left_or(end_ms: Option<i64>, now_ms: i64, floor: i64) -> (r: i64)
    requires
        end_ms matches Some(t) ==> i64::MIN <= t - now_ms <= i64::MAX,
    ensures
        r == secs_left_or(end_ms, now_ms, floor as int),
{
    match end_ms {
        Some(end) => {
            let s: i64 = div_toward_zero(end - now_ms, 1000);
            if s >= floor {
                s
            } else {
                floor
            }
        },
        None => 600,
    }
}

/// What the tier of a plan is shown as.
pub open spec fn tier_text(tier: Option<EndgameTier>, cfg: JEndgameConfig) -> Seq<char> {
    let hundred = Num::uint(100);
    match tier {
        Some(EndgameTier::Insurance) => painted(
            filled(
                "INSURANCE ≤{}¢ | ${} clip"@,
                seq![fixed_of(cfg.insurance_max_ask * hundred, 0), fixed_of(cfg.insurance_clip_usd, 0)],
            ),
            "cyan"@,
        ),
        Some(EndgameTier::Rescue) => painted("RESCUE solve → +$target"@, "red"@),
        Some(EndgameTier::FlipHedge) => painted("FLIP HEDGE"@, "red"@),
        Some(EndgameTier::Impulse) => painted(
            filled("IMPULSE ≤{}¢ + tape"@, seq![fixed_of(cfg.impulse_max_ask * hundred, 0)]),
            "green"@,
        ),
        Some(EndgameTier::Cheap) => painted(
            filled(
                "VALUE ≤{}¢ gap≥{} | 2nd half max {} clips"@,
                seq![
                    fixed_of(cfg.cheap_max_ask * hundred, 0),
                    fixed_of(cfg.cheap_min_gap_z, 1),
                    dec_text(cfg.cheap_max_clips as int),
                ],
            ),
            "green"@,
        ),
        Some(EndgameTier::Late) => painted(
            filled(
                "LATE ≤{}¢ last {}s (heavy ≤{}s)"@,
                seq![
                    fixed_of(cfg.taker_max_ask * hundred, 0),
                    int_text_of(cfg.late_max_secs as int),
                    int_text_of(cfg.late_heavy_secs as int),
                ],
            ),
            "yellow"@,
        ),
        _ => painted("waiting"@, "dim"@),
    }
}

fn tier_label(tier: Option<EndgameTier>, cfg: &JEndgameConfig) -> (r: String)
    ensures
        r@ == tier_text(tier, *cfg),
{
    let hundred: Num = Num::uint(100);
    match tier {
        Some(EndgameTier::Insurance) => paint(
            fill2(
                "INSURANCE ≤{}¢ | ${} clip",
                fixed(cfg.insurance_max_ask * hundred, 0).as_str(),
                fixed(cfg.insurance_clip_usd, 0).as_str(),
            ).as_str(),
            "cyan",
        ),
        Some(EndgameTier::Rescue) => paint("RESCUE solve → +$target", "red"),
        Some(EndgameTier::FlipHedge) => paint("FLIP HEDGE", "red"),
        Some(EndgameTier::Impulse) => paint(
            fill1(
                "IMPULSE ≤{}¢ + tape",
                fixed(cfg.impulse_max_ask * hundred, 0).as_str(),
            ).as_str(),
            "green",
        ),
        Some(EndgameTier::Cheap) => paint(
            fill3(
                "VALUE ≤{}¢ gap≥{} | 2nd half max {} clips",
                fixed(cfg.cheap_max_ask * hundred, 0).as_str(),
                fixed(cfg.cheap_min_gap_z, 1).as_str(),
                uint_text(cfg.cheap_max_clips as u64).as_str(),
            ).as_str(),
            "green",
        ),
        Some(EndgameTier::Late) => paint(
            fill3(
                "LATE ≤{}¢ last {}s (heavy ≤{}s)",
                fixed(cfg.taker_max_ask * hundred, 0).as_str(),
                int_text(cfg.late_max_secs).as_str(),
                int_text(cfg.late_heavy_secs).as_str(),
            ).as_str(),
            "yellow",
        ),
        _ => paint("waiting", "dim"),
    }
}

/// The state of a window before any buy.
pub open spec fn untouched() -> JWindowState {
    JWindowState {
        primary_side: None,
        clips_filled: 0,
        cheap_spent_usd: Num::zero(),
        late_spent_usd: Num::zero(),
        rescue_spent_usd: Num::zero(),
        hedge_spent_usd: Num::zero(),
        insurance_spent_usd: Num::zero(),
        insurance_clips: 0,
        discount_reload_spent_usd: Num::zero(),
        discount_reload_clips: 0,
    }
}

/// No exchange data.
pub open spec fn blank_cex() -> CexMicroSnapshot {
    CexMicroSnapshot {
        trade_velocity_1s: None,
        trade_velocity_3s: None,
        trade_velocity_5s: None,
        buy_sell_imbalance_3s: Num::zero(),
        last_trade_price: Num::zero(),
        lead_vs_chainlink_bps: None,
        trade_count_3s: 0,
    }
}

/// No tape.
pub open spec fn blank_tape() -> TradeTapeSnapshot {
    TradeTapeSnapshot {
        up_buy_usd: Num::zero(),
        down_buy_usd: Num::zero(),
        up_buy_count: 0,
        down_buy_count: 0,
    }
}

/// No spot signal.
pub open spec fn blank_spot() -> SpotSignalSnapshot {
    SpotSignalSnapshot {
        raw_velocity_usd_per_sec: None,
        smoothed_velocity_usd_per_sec: None,
        acceleration_usd_per_sec2: None,
    }
}

/// The tier that the planner would choose for the window, were nothing bought in it yet.
pub open spec fn planned_tier(
    config: Config,
    w: WindowState,
    spot: Num,
    ptb: Num,
    secs: i64,
    elapsed: Num,
    gz: Num,
    atr: Num,
    mc: Option<MidCrossSnapshot>,
    cex: Option<CexMicroSnapshot>,
    tape: Option<TradeTapeSnapshot>,
    allowed: bool,
    cash: Num,
) -> Option<EndgameTier> {
    match mc {
        None => None,
        Some(m) => {
            let winner = spot_leader(spot, ptb);
            let confidence = if winner == "TIE"@ {
                Num::zero()
            } else {
                confidence_of(
                    config.j_endgame,
                    winner,
                    gz,
                    blank_spot(),
                    m,
                    match cex {
                        Some(c) => c,
                        None => blank_cex(),
                    },
                    match tape {
                        Some(t) => t,
                        None => blank_tape(),
                    },
                )
            };
            match window_plan(
                config,
                untouched(),
                w,
                w.prices,
                spot,
                ptb,
                secs,
                elapsed,
                atr.max(Num::one()),
                Num::zero(),
                m,
                allowed,
                confidence,
                cash,
            ) {
                Some(p) => Some(p.tier),
                None => None,
            }
        },
    }
}

/// Whether choosing the tier gets as far as the entry bar.
pub open spec fn tier_bar_consulted(
    config: Config,
    w: WindowState,
    spot: Num,
    ptb: Num,
    secs: i64,
    elapsed: Num,
    atr: Num,
    mc: Option<MidCrossSnapshot>,
    allowed: bool,
    cash: Num,
) -> bool {
    mc matches Some(m) && window_bar_consulted(
        config,
        untouched(),
        w,
        w.prices,
        spot,
        ptb,
        secs,
        elapsed,
        atr.max(Num::one()),
        m,
        allowed,
        cash,
    )
}

fn plan_tier(
    config: &Config,
    w: &WindowState,
    spot: Num,
    ptb: Num,
    secs: i64,
    elapsed: Num,
    gz: Num,
    atr: Num,
    mc: Option<&MidCrossSnapshot>,
    cex: Option<&CexMicroSnapshot>,
    tape: Option<&TradeTapeSnapshot>,
    allowed: bool,
    cash: Num,
) -> (r: Option<EndgameTier>)
    requires
        tier_bar_consulted(
            *config,
            *w,
            spot,
            ptb,
            secs,
            elapsed,
            atr,
            owned_mid(mc),
            allowed,
            cash,
        ) ==> enter_bar_valid(config.j_endgame),
    ensures
        r == planned_tier(
            *config,
            *w,
            spot,
            ptb,
            secs,
            elapsed,
            gz,
            atr,
            owned_mid(mc),
            crate::render::owned_cex(cex),
            owned_tape(tape),
            allowed,
            cash,
        ),
{
    let m: &MidCrossSnapshot = match mc {
        Some(m) => m,
        None => {
            return None;
        },
    };
    let winner: &'static str = leader_by_spot(spot, ptb);
    let c: CexMicroSnapshot = match cex {
        Some(c) => *c,
        None => CexMicroSnapshot::default(),
    };
    let t: TradeTapeSnapshot = match tape {
        Some(t) => *t,
        None => TradeTapeSnapshot::default(),
    };
    let confidence: Num = if same_text(winner, "TIE") {
        Num::zero()
    } else {
        endgame_confidence(
            &config.j_endgame,
            winner,
            gz,
            &SpotSignalSnapshot::default(),
            m,
            &c,
            &t,
        )
    };
    let state: JWindowState = JWindowState::default();
    assert(state == untouched());
    let plan: Option<TierPlan> = plan_j_window(
        config,
        &state,
        w,
        &w.prices,
        spot,
        ptb,
        secs,
        elapsed,
        atr.max(Num::one()),
        Num::zero(),
        m,
        allowed,
        confidence,
        cash,
    );
    match plan {
        Some(p) => Some(p.tier),
        None => None,
    }
}

/// The tape behind a reference.
pub open spec fn owned_tape(t: Option<&TradeTapeSnapshot>) -> Option<TradeTapeSnapshot> {
    match t {
        Some(x) => Some(*x),
        None => None,
    }
}

/// Clips done and whether an entry is active.
pub open spec fn j_clip_line(s: StrategyState, cfg: JEndgameConfig) -> Seq<char> {
    filled(
        "J endgame clips: {}/{} | entry: {}"@,
        seq![
            dec_text(s.e_tranches_done as int),
            if cfg.max_clips_per_window == 0 {
                "∞"@
            } else {
                dec_text(cfg.max_clips_per_window as int)
            },
            if s.h_entry_done {
                painted("active/done"@, "green"@)
            } else {
                painted("waiting"@, "yellow"@)
            },
        ],
    )
}

fn j_clip_text(s: &StrategyState, cfg: &JEndgameConfig) -> (r: String)
    ensures
        r@ == j_clip_line(*s, *cfg),
{
    let most: String = if cfg.max_clips_per_window == 0 {
        "∞".to_owned()
    } else {
        uint_text(cfg.max_clips_per_window as u64)
    };
    let entry: String = if s.h_entry_done {
        paint("active/done", "green")
    } else {
        paint("waiting", "yellow")
    };
    fill3(
        "J endgame clips: {}/{} | entry: {}",
        uint_text(s.e_tranches_done as u64).as_str(),
        most.as_str(),
        entry.as_str(),
    )
}

pub open spec fn phase_label(p: JWindowPhase) -> Seq<char> {
    match p {
        JWindowPhase::Warmup => "warmup"@,
        JWindowPhase::Insurance => "insurance"@,
        JWindowPhase::MidWindow => "mid"@,
        JWindowPhase::Accumulate => "accumulate"@,
        JWindowPhase::Late => "late"@,
        JWindowPhase::Rescue => "rescue"@,
        JWindowPhase::FinalSeal => "final_seal"@,
    }
}

pub open spec fn fee_of(cfg: JEndgameConfig) -> Num {
    match cfg.fee_rate_bps {
        Some(f) => f,
        None => default_crypto_fee_rate_bps(),
    }
}

pub open spec fn j_phase_line(cfg: JEndgameConfig, phase: JWindowPhase, pnl: Num) -> Seq<char> {
    filled(
        "J phase: {} | target +${} | redeem PnL proj {}"@,
        seq![
            painted(phase_label(phase), "cyan"@),
            fixed_of(cfg.target_profit_usd, 2),
            signed_fixed_of(pnl, 2),
        ],
    )
}

pub open spec fn j_winner_line(winner: Seq<char>, ask: Num, secs: i64, gz: Num) -> Seq<char> {
    filled(
        "J winner {} ask {} | {}s left | gap_z {}"@,
        seq![winner, fixed_of(ask, 2), int_text_of(secs as int), signed_fixed_of(gz, 2)],
    )
}

pub open spec fn j_tier_line(flip_armed: bool, tier: Option<EndgameTier>, cfg: JEndgameConfig) -> Seq<char> {
    filled(
        "J tier: {}{}"@,
        seq![
            if flip_armed {
                painted("FLIP HEDGE armed | "@, "red"@)
            } else {
                Seq::<char>::empty()
            },
            tier_text(tier, cfg),
        ],
    )
}

/// The tape on the winner and what is offered up to the taker's limit.
pub open spec fn j_tape_lines(
    cfg: JEndgameConfig,
    tape: TradeTapeSnapshot,
    hot: bool,
    winner: Seq<char>,
    p: PricesState,
) -> Seq<Seq<char>> {
    let (usd, n) = side_flow(tape, winner);
    let asks = if winner == "UP"@ {
        p.up.book.asks@
    } else {
        p.down.book.asks@
    };
    seq![
        filled(
            "J tape {}: ${}/{} buys (5s) | need ${}/{}"@,
            seq![
                if hot {
                    painted("HOT"@, "green"@)
                } else {
                    painted("cold"@, "dim"@)
                },
                fixed_of(usd, 0),
                dec_text(n as int),
                fixed_of(cfg.min_tape_usd, 0),
                dec_text(cfg.min_tape_buys as int),
            ],
        ),
        filled(
            "J ask depth (≤{}¢): ${}"@,
            seq![
                fixed_of(cfg.taker_max_ask * Num::uint(100), 0),
                fixed_of(depth_sum(asks, cfg.taker_max_ask), 2),
            ],
        ),
    ]
}

fn push_j_tape(
    lines: &mut Vec<String>,
    cfg: &JEndgameConfig,
    tape: &TradeTapeSnapshot,
    hot: bool,
    winner: &str,
    p: &PricesState,
)
    ensures
        texts(final(lines)@) == texts(old(lines)@) + j_tape_lines(*cfg, *tape, hot, winner@, *p),
{
    let ghost before = texts(lines@);
    let (usd, n): (Num, u32) = winner_stats(tape, winner);
    let state: String = if hot {
        paint("HOT", "green")
    } else {
        paint("cold", "dim")
    };
    push_line(
        lines,
        fill5(
            "J tape {}: ${}/{} buys (5s) | need ${}/{}",
            state.as_str(),
            fixed(usd, 0).as_str(),
            uint_text(n as u64).as_str(),
            fixed(cfg.min_tape_usd, 0).as_str(),
            uint_text(cfg.min_tape_buys as u64).as_str(),
        ),
    );
    let depth: Num = if same_text(winner, "UP") {
        ask_depth_usd(p.up.book.asks.as_slice(), cfg.taker_max_ask)
    } else {
        ask_depth_usd(p.down.book.asks.as_slice(), cfg.taker_max_ask)
    };
    push_line(
        lines,
        fill2(
            "J ask depth (≤{}¢): ${}",
            fixed(cfg.taker_max_ask * Num::uint(100), 0).as_str(),
            fixed(depth, 2).as_str(),
        ),
    );
    assert(texts(lines@) =~= before + j_tape_lines(*cfg, *tape, hot, winner@, *p));
}

/// What the endgame strategy makes of a running window with a spot and a price to beat.
pub open spec fn j_live_lines(
    config: Config,
    w: WindowState,
    spot: Num,
    ptb: Num,
    atr: Num,
    mc: Option<MidCrossSnapshot>,
    cex: Option<CexMicroSnapshot>,
    tape: Option<TradeTapeSnapshot>,
    cash: Num,
    panel: StrategyPanel,
    secs: i64,
) -> Seq<Seq<char>> {
    let cfg = config.j_endgame;
    let winner = spot_leader(spot, ptb);
    let ask = if winner == "UP"@ {
        w.prices.up.ask
    } else if winner == "DOWN"@ {
        w.prices.down.ask
    } else {
        Num::zero()
    };
    let gz = shown_gap(spot, ptb, atr, secs as int);
    let elapsed = elapsed_pct(market_span(w.market), secs);
    let phase = phase_of(elapsed, secs, cfg, mid_or_blank(mc));
    let pnl = redeem_pnl(w.up_shares, w.down_shares, w.spent, winner, fee_of(cfg));
    let tier = planned_tier(
        config,
        w,
        spot,
        ptb,
        secs,
        elapsed,
        gz,
        atr,
        mc,
        cex,
        tape,
        panel.j_directional_allowed,
        cash,
    );
    let three = seq![
        j_phase_line(cfg, phase, pnl),
        j_winner_line(winner, ask, secs, gz),
        j_tier_line(mc is Some && panel.j_flip_hedge_armed, tier, cfg),
    ];
    match tape {
        Some(t) => three + j_tape_lines(cfg, t, panel.j_tape_hot, winner, w.prices),
        None => three,
    }
}

fn push_j_live(
    lines: &mut Vec<String>,
    config: &Config,
    w: &WindowState,
    spot: Num,
    ptb: Num,
    atr: Num,
    mc: Option<&MidCrossSnapshot>,
    cex: Option<&CexMicroSnapshot>,
    tape: Option<&TradeTapeSnapshot>,
    cash: Num,
    panel: &StrategyPanel,
    secs: i64,
)
    requires
        tier_bar_consulted(
            *config,
            *w,
            spot,
            ptb,
            secs,
            elapsed_pct(market_span(w.market), secs),
            atr,
            owned_mid(mc),
            panel.j_directional_allowed,
            cash,
        ) ==> enter_bar_valid(config.j_endgame),
    ensures
        texts(final(lines)@) == texts(old(lines)@) + j_live_lines(
            *config,
            *w,
            spot,
            ptb,
            atr,
            owned_mid(mc),
            crate::render::owned_cex(cex),
            owned_tape(tape),
            cash,
            *panel,
            secs,
        ),
{
    let ghost before = texts(lines@);
    proof {
        reveal_strlit("UP");
        reveal_strlit("DOWN");
        reveal_strlit("TIE");
        assert("UP"@.len() == 2 && "DOWN"@.len() == 4 && "TIE"@.len() == 3);
    }
    let cfg: &JEndgameConfig = &config.j_endgame;
    let winner: &'static str = leader_by_spot(spot, ptb);
    let ask: Num = if same_text(winner, "UP") {
        w.prices.up.ask
    } else if same_text(winner, "DOWN") {
        w.prices.down.ask
    } else {
        Num::zero()
    };
    let gz: Num = gap_shown(spot, ptb, atr, secs);
    let elapsed: Num = time_pct_for(&w.market, secs);
    let seen: MidCrossSnapshot = match mc {
        Some(m) => *m,
        None => MidCrossSnapshot::default(),
    };
    let phase: JWindowPhase = detect_phase(elapsed, secs, cfg, &seen);
    let fee_bps: Num = match cfg.fee_rate_bps {
        Some(f) => f,
        None => default_crypto_fee_rate_bps(),
    };
    let pnl: Num = projected_redeem_pnl(w, winner, fee_bps);
    push_line(
        lines,
        fill3(
            "J phase: {} | target +${} | redeem PnL proj {}",
            paint(phase.label(), "cyan").as_str(),
            fixed(cfg.target_profit_usd, 2).as_str(),
            signed_fixed(pnl, 2).as_str(),
        ),
    );
    let tier: Option<EndgameTier> = plan_tier(
        config,
        w,
        spot,
        ptb,
        secs,
        elapsed,
        gz,
        atr,
        mc,
        cex,
        tape,
        panel.j_directional_allowed,
        cash,
    );
    push_line(
        lines,
        fill4(
            "J winner {} ask {} | {}s left | gap_z {}",
            winner,
            fixed(ask, 2).as_str(),
            int_text(secs).as_str(),
            signed_fixed(gz, 2).as_str(),
        ),
    );
    let armed: String = if mc.is_some() && panel.j_flip_hedge_armed {
        paint("FLIP HEDGE armed | ", "red")
    } else {
        String::new()
    };
    push_line(
        lines,
        fill2("J tier: {}{}", armed.as_str(), tier_label(tier, cfg).as_str()),
    );
    let ghost three = seq![
        j_phase_line(*cfg, phase, pnl),
        j_winner_line(winner@, ask, secs, gz),
        j_tier_line(mc is Some && panel.j_flip_hedge_armed, tier, *cfg),
    ];
    assert(texts(lines@) =~= before + three);
    if let Some(t) = tape {
        push_j_tape(lines, cfg, t, panel.j_tape_hot, winner, &w.prices);
        assert(texts(lines@) =~= before + (three + j_tape_lines(
            *cfg,
            *t,
            panel.j_tape_hot,
            winner@,
            w.prices,
        )));
    }
}

/// The endgame strategy.
pub open spec fn j_lines(
    label: Seq<char>,
    config: Config,
    w: WindowState,
    spot_price: Option<Num>,
    atr: Num,
    mc: Option<MidCrossSnapshot>,
    cex: Option<CexMicroSnapshot>,
    tape: Option<TradeTapeSnapshot>,
    cash: Num,
    panel: StrategyPanel,
    secs: i64,
) -> Seq<Seq<char>> {
    if w.window_number == 0 {
        one_line(painted("J: window #0 warmup — no trading until window #1"@, "dim"@))
    } else {
        match panel.state {
            Some(s) => {
                let clips = one_line(j_clip_line(s, config.j_endgame));
                if label == "CURRENT"@ && spot_price is Some && w.market.price_to_beat is Some {
                    clips + j_live_lines(
                        config,
                        w,
                        spot_price->0,
                        w.market.price_to_beat->0,
                        atr,
                        mc,
                        cex,
                        tape,
                        cash,
                        panel,
                        secs,
                    )
                } else {
                    clips
                }
            },
            None => if label == "NEXT"@ {
                one_line(painted("J: monitoring NEXT (timeline controller)"@, "dim"@))
            } else {
                one_line(painted("J: hold-to-redeem | target +$1/window"@, "dim"@))
            },
        }
    }
}

/// Whether the lines of the endgame strategy get as far as the entry bar.
pub open spec fn j_bar_consulted(
    label: Seq<char>,
    config: Config,
    w: WindowState,
    spot_price: Option<Num>,
    atr: Num,
    mc: Option<MidCrossSnapshot>,
    cash: Num,
    panel: StrategyPanel,
    secs: i64,
) -> bool {
    &&& w.window_number != 0 && panel.state is Some && label == "CURRENT"@
    &&& spot_price is Some && w.market.price_to_beat is Some
    &&& tier_bar_consulted(
        config,
        w,
        spot_price->0,
        w.market.price_to_beat->0,
        secs,
        elapsed_pct(market_span(w.market), secs),
        atr,
        mc,
        panel.j_directional_allowed,
        cash,
    )
}

pub(crate) fn push_j(
    lines: &mut Vec<String>,
    label: &str,
    config: &Config,
    w: &WindowState,
    spot_price: Option<Num>,
    atr: Num,
    mc: Option<&MidCrossSnapshot>,
    cex: Option<&CexMicroSnapshot>,
    tape: Option<&TradeTapeSnapshot>,
    cash: Num,
    panel: &StrategyPanel,
    secs: i64,
)
    requires
        j_bar_consulted(label@, *config, *w, spot_price, atr, owned_mid(mc), cash, *panel, secs)
            ==> enter_bar_valid(config.j_endgame),
    ensures
        texts(final(lines)@) == texts(old(lines)@) + j_lines(
            label@,
            *config,
            *w,
            spot_price,
            atr,
            owned_mid(mc),
            crate::render::owned_cex(cex),
            owned_tape(tape),
            cash,
            *panel,
            secs,
        ),
{
    let ghost before = texts(lines@);
    let ghost want = j_lines(
        label@,
        *config,
        *w,
        spot_price,
        atr,
        owned_mid(mc),
        crate::render::owned_cex(cex),
        owned_tape(tape),
        cash,
        *panel,
        secs,
    );
    if w.window_number == 0 {
        push_line(lines, paint("J: window #0 warmup — no trading until window #1", "dim"));
        assert(texts(lines@) =~= before + want);
        return;
    }
    match &panel.state {
        Some(s) => {
            push_line(lines, j_clip_text(s, &config.j_endgame));
            let ghost clips = one_line(j_clip_line(*s, config.j_endgame));
            assert(texts(lines@) =~= before + clips);
            if same_text(label, "CURRENT") {
                if let (Some(spot), Some(ptb)) = (spot_price, w.market.price_to_beat) {
                    push_j_live(
                        lines,
                        config,
                        w,
                        spot,
                        ptb,
                        atr,
                        mc,
                        cex,
                        tape,
                        cash,
                        panel,
                        secs,
                    );
                    assert(texts(lines@) =~= before + want);
                }
            }
        },
        None => {
            if same_text(label, "NEXT") {
                push_line(lines, paint("J: monitoring NEXT (timeline controller)", "dim"));
            } else {
                push_line(lines, paint("J: hold-to-redeem | target +$1/window", "dim"));
            }
            assert(texts(lines@) =~= before + want);
        },
    }
}

/// The tone of a phase of the hold strategy.
pub open spec fn h_phase_tone(phase: Seq<char>) -> Seq<char> {
    if phase == "entry"@ {
        "green"@
    } else if phase == "salvage"@ {
        "yellow"@
    } else if phase == "hold"@ {
        "cyan"@
    } else if phase == "flat"@ {
        "dim"@
    } else {
        "red"@
    }
}

fn tone_of_h_phase(phase: &str) -> (r: &'static str)
    ensures
        r@ == h_phase_tone(phase@),
{
    if same_text(phase, "entry") {
        "green"
    } else if same_text(phase, "salvage") {
        "yellow"
    } else if same_text(phase, "hold") {
        "cyan"
    } else if same_text(phase, "flat") {
        "dim"
    } else {
        "red"
    }
}

pub open spec fn h_side_line(s: StrategyState, phase: Seq<char>) -> Seq<char> {
    let side = text_or(s.h_entry_side, "N/A"@);
    filled(
        "H Side: {} | Entry: {} | Phase: {}"@,
        seq![
            painted(side, side_tone(side, "dim"@)),
            if s.h_entry_done {
                painted("done"@, "green"@)
            } else {
                painted("waiting"@, "yellow"@)
            },
            painted(phase, h_phase_tone(phase)),
        ],
    )
}

/// The entry gate of the hold strategy: open in the first third, before an entry.
pub open spec fn h_gate(s: StrategyState, panel: StrategyPanel, p: PricesState, time_pct: Num) -> Seq<char> {
    if !s.h_entry_done && time_pct.le(Num::uint(33)) {
        if panel.h_cheap_side && panel.h_gap_allows {
            painted("READY cheap ~0.38 near PTB"@, "green"@)
        } else if !panel.h_gap_allows {
            painted("BLOCKED PTB gap too large"@, "red"@)
        } else {
            painted(
                filled(
                    "WAIT ask band (UP {} / DN {})"@,
                    seq![fixed_of(p.up.ask, 2), fixed_of(p.down.ask, 2)],
                ),
                "yellow"@,
            )
        }
    } else {
        painted("n/a"@, "dim"@)
    }
}

fn h_gate_text(s: &StrategyState, panel: &StrategyPanel, p: &PricesState, time_pct: Num) -> (r: String)
    ensures
        r@ == h_gate(*s, *panel, *p, time_pct),
{
    if !s.h_entry_done && time_pct.le(Num::uint(33)) {
        if panel.h_cheap_side && panel.h_gap_allows {
            paint("READY cheap ~0.38 near PTB", "green")
        } else if !panel.h_gap_allows {
            paint("BLOCKED PTB gap too large", "red")
        } else {
            paint(
                fill2(
                    "WAIT ask band (UP {} / DN {})",
                    fixed(p.up.ask, 2).as_str(),
                    fixed(p.down.ask, 2).as_str(),
                ).as_str(),
                "yellow",
            )
        }
    } else {
        paint("n/a", "dim")
    }
}

/// Gap, asks and entry gate in a running window.
pub open spec fn h_live_lines(
    s: StrategyState,
    panel: StrategyPanel,
    p: PricesState,
    gap_z: Num,
    time_pct: Num,
) -> Seq<Seq<char>> {
    seq![
        filled(
            "H gap_z: {} | UP ask {} | DN ask {}"@,
            seq![signed_fixed_of(gap_z, 2), fixed_of(p.up.ask, 2), fixed_of(p.down.ask, 2)],
        ),
        filled("H Entry gate: {}"@, seq![h_gate(s, panel, p, time_pct)]),
    ]
}

/// The side that a window was entered on: what the strategy says, or the first buy.
pub open spec fn h_entry_of(s: StrategyState, w: WindowState) -> Seq<char> {
    match s.h_entry_side {
        Some(t) => t@,
        None => match first_bought(w.trades@) {
            Some(b) => b.side@,
            None => "N/A"@,
        },
    }
}

/// What a closed window came to.
pub open spec fn h_result_line(
    entry_side: Seq<char>,
    winner: Seq<char>,
    h: HCloseStats,
    realized: Num,
) -> Seq<char> {
    filled(
        "H Close: entry={} real_winner={} | market={} salvaged={} salvage_win={} | fin PnL {}"@,
        seq![
            entry_side,
            if winner.len() == 0 {
                "n/a"@
            } else {
                winner
            },
            match h.market_win {
                Some(true) => painted("WIN"@, "green"@),
                Some(false) => painted("LOSE"@, "red"@),
                None => painted("n/a"@, "dim"@),
            },
            bool_text(h.salvaged),
            bool_text(h.salvage_win),
            signed_fixed_of(realized, 2),
        ],
    )
}

fn h_result_text(entry_side: &str, winner: &str, h: &HCloseStats, realized: Num) -> (r: String)
    ensures
        r@ == h_result_line(entry_side@, winner@, *h, realized),
{
    let shown: &str = if winner.unicode_len() == 0 {
        "n/a"
    } else {
        winner
    };
    let market: String = match h.market_win {
        Some(won) => if won {
            paint("WIN", "green")
        } else {
            paint("LOSE", "red")
        },
        None => paint("n/a", "dim"),
    };
    fill6(
        "H Close: entry={} real_winner={} | market={} salvaged={} salvage_win={} | fin PnL {}",
        entry_side,
        shown,
        market.as_str(),
        bool_str(h.salvaged),
        bool_str(h.salvage_win),
        signed_fixed(realized, 2).as_str(),
    )
}

/// The hold strategy.
pub open spec fn h_lines(
    label: Seq<char>,
    w: WindowState,
    spot_price: Option<Num>,
    atr: Num,
    panel: StrategyPanel,
    secs: i64,
    time_pct: Num,
) -> Seq<Seq<char>> {
    if w.window_number == 0 {
        one_line(painted("H: window #0 warmup — no trading until window #1"@, "dim"@))
    } else {
        match panel.state {
            Some(s) => {
                let side = one_line(h_side_line(s, panel.h_phase@));
                let live = if label == "CURRENT"@ && spot_price is Some
                    && w.market.price_to_beat is Some {
                    h_live_lines(
                        s,
                        panel,
                        w.prices,
                        shown_gap(spot_price->0, w.market.price_to_beat->0, atr, secs as int),
                        time_pct,
                    )
                } else {
                    Seq::<Seq<char>>::empty()
                };
                let closed = if has_prefix(w.status@, "CLOSED"@) && w.spent.gt(Num::zero()) {
                    let entry = h_entry_of(s, w);
                    let winner = winner_of(spot_price, w.market.price_to_beat);
                    one_line(
                        h_result_line(
                            entry,
                            winner,
                            close_stats(w.trades@, entry, winner),
                            w.cash_returned - w.spent,
                        ),
                    )
                } else {
                    Seq::<Seq<char>>::empty()
                };
                side + live + closed
            },
            None => if label == "NEXT"@ {
                one_line(painted("H: monitoring NEXT (live-only, no pre-entry)"@, "dim"@))
            } else {
                one_line(painted("H: live-only — waiting for cheap entry"@, "dim"@))
            },
        }
    }
}

pub(crate) fn push_h(
    lines: &mut Vec<String>,
    label: &str,
    w: &WindowState,
    spot_price: Option<Num>,
    atr: Num,
    panel: &StrategyPanel,
    secs: i64,
    time_pct: Num,
)
    ensures
        texts(final(lines)@) == texts(old(lines)@) + h_lines(
            label@,
            *w,
            spot_price,
            atr,
            *panel,
            secs,
            time_pct,
        ),
{
    let ghost before = texts(lines@);
    let ghost want = h_lines(label@, *w, spot_price, atr, *panel, secs, time_pct);
    if w.window_number == 0 {
        push_line(lines, paint("H: window #0 warmup — no trading until window #1", "dim"));
        assert(texts(lines@) =~= before + want);
        return;
    }
    match &panel.state {
        Some(s) => {
            let side: &str = opt_str(&s.h_entry_side, "N/A");
            let entry: String = if s.h_entry_done {
                paint("done", "green")
            } else {
                paint("waiting", "yellow")
            };
            push_line(
                lines,
                fill3(
                    "H Side: {} | Entry: {} | Phase: {}",
                    paint(side, tone_of_side(side, "dim")).as_str(),
                    entry.as_str(),
                    paint(
                        panel.h_phase.as_str(),
                        tone_of_h_phase(panel.h_phase.as_str()),
                    ).as_str(),
                ),
            );
            let ghost head = one_line(h_side_line(*s, panel.h_phase@));
            let ghost mut live: Seq<Seq<char>> = Seq::<Seq<char>>::empty();
            assert(texts(lines@) =~= before + head + live);
            if same_text(label, "CURRENT") {
                if let (Some(spot), Some(ptb)) = (spot_price, w.market.price_to_beat) {
                    let gap: Num = gap_shown(spot, ptb, atr, secs);
                    push_line(
                        lines,
                        fill3(
                            "H gap_z: {} | UP ask {} | DN ask {}",
                            signed_fixed(gap, 2).as_str(),
                            fixed(w.prices.up.ask, 2).as_str(),
                            fixed(w.prices.down.ask, 2).as_str(),
                        ),
                    );
                    push_line(
                        lines,
                        fill1(
                            "H Entry gate: {}",
                            h_gate_text(s, panel, &w.prices, time_pct).as_str(),
                        ),
                    );
                    proof {
                        live = h_live_lines(*s, *panel, w.prices, gap, time_pct);
                        assert(texts(lines@) =~= before + head + live);
                    }
                }
            }
            if starts_with(w.status.as_str(), "CLOSED") && w.spent.gt(Num::zero()) {
                let entry_side: &str = match &s.h_entry_side {
                    Some(t) => t.as_str(),
                    None => match first_buy(w) {
                        Some(b) => b.side.as_str(),
                        None => "N/A",
                    },
                };
                let winner: &'static str = close_winner(spot_price, w.market.price_to_beat);
                let h: HCloseStats = derive_h_close_stats(w.trades.as_slice(), entry_side, winner);
                push_line(
                    lines,
                    h_result_text(entry_side, winner, &h, w.cash_returned - w.spent),
                );
            }
            assert(texts(lines@) =~= before + want);
        },
        None => {
            if same_text(label, "NEXT") {
                push_line(lines, paint("H: monitoring NEXT (live-only, no pre-entry)", "dim"));
            } else {
                push_line(lines, paint("H: live-only — waiting for cheap entry", "dim"));
            }
            assert(texts(lines@) =~= before + want);
        },
    }
}

/// Who leads by two cents on the bids.
pub open spec fn bid_leader(p: PricesState) -> Seq<char> {
    let lead = Num::ratio(2, 100);
    if p.up.bid.ge(p.down.bid + lead) {
        "UP"@
    } else if p.down.bid.ge(p.up.bid + lead) {
        "DOWN"@
    } else {
        "TIE"@
    }
}

/// What is left to exit after the first side was sold.
pub open spec fn exit_lines(
    first_sold: Seq<char>,
    crossed: bool,
    p: PricesState,
    spot_price: Option<Num>,
    price_to_beat: Option<Num>,
) -> Seq<Seq<char>> {
    let second = if first_sold == "UP"@ {
        "DOWN"@
    } else {
        "UP"@
    };
    let leader = bid_leader(p);
    let winner = winner_of(spot_price, price_to_beat);
    let itm = if winner.len() == 0 {
        "N/A"@
    } else {
        winner
    };
    let blocked = leader == second || winner == second;
    seq![
        filled("First Sold: {}"@, seq![painted(first_sold, "green"@)]),
        filled(
            "Live Leader: {} | ITM: {}"@,
            seq![
                painted(leader, side_tone(leader, "yellow"@)),
                painted(itm, side_tone(itm, "dim"@)),
            ],
        ),
        filled(
            "Crossover Weak Exit ({}): {}"@,
            seq![
                painted(second, "yellow"@),
                if blocked {
                    painted("blocked: second is live-strong/ITM"@, "green"@)
                } else {
                    painted("armed: partial sell, insurance tail kept"@, "yellow"@)
                },
            ],
        ),
        filled(
            "Cross Status: {}"@,
            seq![
                if crossed {
                    painted("PTB Crossed! Active!"@, "green"@)
                } else {
                    painted("Waiting PTB cross..."@, "yellow"@)
                },
            ],
        ),
    ]
}

fn push_exit(
    lines: &mut Vec<String>,
    first_sold: &str,
    crossed: bool,
    p: &PricesState,
    spot_price: Option<Num>,
    price_to_beat: Option<Num>,
)
    ensures
        texts(final(lines)@) == texts(old(lines)@) + exit_lines(
            first_sold@,
            crossed,
            *p,
            spot_price,
            price_to_beat,
        ),
{
    let ghost before = texts(lines@);
    let second: &'static str = if same_text(first_sold, "UP") {
        "DOWN"
    } else {
        "UP"
    };
    let lead: Num = Num::ratio(2, 100);
    let leader: &'static str = if p.up.bid.ge(p.down.bid + lead) {
        "UP"
    } else if p.down.bid.ge(p.up.bid + lead) {
        "DOWN"
    } else {
        "TIE"
    };
    let winner: &'static str = close_winner(spot_price, price_to_beat);
    let itm: &'static str = if winner.unicode_len() == 0 {
        "N/A"
    } else {
        winner
    };
    let exit: String = if same_text(leader, second) || same_text(winner, second) {
        paint("blocked: second is live-strong/ITM", "green")
    } else {
        paint("armed: partial sell, insurance tail kept", "yellow")
    };
    let cross: String = if crossed {
        paint("PTB Crossed! Active!", "green")
    } else {
        paint("Waiting PTB cross...", "yellow")
    };
    push_line(lines, fill1("First Sold: {}", paint(first_sold, "green").as_str()));
    push_line(
        lines,
        fill2(
            "Live Leader: {} | ITM: {}",
            paint(leader, tone_of_side(leader, "yellow")).as_str(),
            paint(itm, tone_of_side(itm, "dim")).as_str(),
        ),
    );
    push_line(
        lines,
        fill2(
            "Crossover Weak Exit ({}): {}",
            paint(second, "yellow").as_str(),
            exit.as_str(),
        ),
    );
    push_line(lines, fill1("Cross Status: {}", cross.as_str()));
    assert(texts(lines@) =~= before + exit_lines(
        first_sold@,
        crossed,
        *p,
        spot_price,
        price_to_beat,
    ));
}

/// A strategy that enters before the start.
pub open spec fn pre_entry_lines(
    state: Option<StrategyState>,
    w: WindowState,
    spot_price: Option<Num>,
) -> Seq<Seq<char>> {
    match state {
        None => one_line(painted("Exit Trigger: WAITING PRE-ENTRY"@, "dim"@)),
        Some(s) => match s.first_sold_side {
            None => one_line(
                filled("Exit Trigger: {} (Active both)"@, seq![painted(">= 0.65"@, "yellow"@)]),
            ),
            Some(first) => exit_lines(
                first@,
                s.ptb_crossed,
                w.prices,
                spot_price,
                w.market.price_to_beat,
            ),
        },
    }
}

pub(crate) fn push_pre_entry(
    lines: &mut Vec<String>,
    state: &Option<StrategyState>,
    w: &WindowState,
    spot_price: Option<Num>,
)
    ensures
        texts(final(lines)@) == texts(old(lines)@) + pre_entry_lines(*state, *w, spot_price),
{
    let ghost before = texts(lines@);
    match state {
        None => {
            push_line(lines, paint("Exit Trigger: WAITING PRE-ENTRY", "dim"));
            assert(texts(lines@) =~= before + pre_entry_lines(*state, *w, spot_price));
        },
        Some(s) => match &s.first_sold_side {
            None => {
                push_line(
                    lines,
                    fill1("Exit Trigger: {} (Active both)", paint(">= 0.65", "yellow").as_str()),
                );
                assert(texts(lines@) =~= before + pre_entry_lines(*state, *w, spot_price));
            },
            Some(first) => {
                push_exit(
                    lines,
                    first.as_str(),
                    s.ptb_crossed,
                    &w.prices,
                    spot_price,
                    w.market.price_to_beat,
                );
            },
        },
    }
}

} // verus!
