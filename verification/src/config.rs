//! Configuration of the engine: session budget, execution and the endgame knobs.
use crate::num::Num;
use crate::text::{same_text, to_uppercase, uppercase};
use vstd::prelude::*;

verus! {

#[derive(Debug, Clone, Copy)]
pub struct SessionConfig {
    pub starting_bank: Num,
    pub min_window_budget: Num,
    pub max_window_budget: Num,
    pub window_budget_pct: Num,
}

#[derive(Debug, Clone, Copy)]
pub struct PreStartConfig {
    pub enabled: bool,
    pub min_seconds_before_start: i64,
    pub max_seconds_before_start: i64,
    pub min_side_ask: Num,
    pub max_side_ask: Num,
}

#[derive(Debug, Clone, Copy)]
pub struct SellStrategyConfig {
    pub exit_bid: Num,
}

#[derive(Debug, Clone)]
pub struct AsymmetricLadderConfig {
    pub strong_steps: Vec<Num>,
    pub weak_steps: Vec<Num>,
    pub decay_enabled: bool,
}

#[derive(Debug, Clone, Copy)]
pub struct DynamicBreakevenConfig {
    pub slippage_buffer: Num,
}

#[derive(Debug, Clone)]
pub struct LlmConfig {
    pub enabled: bool,
    pub model: String,
    pub location: String,
}

impl Default for LlmConfig {
    fn default() -> (r: Self)
        ensures
            !r.enabled,
            r.model@ == "gemini-3.5-flash"@,
            r.location@ == "global"@,
    {
        LlmConfig { enabled: false, model: default_llm_model(), location: default_llm_location() }
    }
}

/// The `llm` entry of a configuration file: a switch, a whole object, or nothing.
pub enum LlmConfigWire {
    Switch(bool),
    Object(LlmConfig),
}

/// The configuration that an `llm` entry stands for.
pub fn resolve_llm_config(wire: Option<LlmConfigWire>) -> (r: LlmConfig)
    ensures
        match wire {
            Some(LlmConfigWire::Object(config)) => r == config,
            Some(LlmConfigWire::Switch(enabled)) => r.enabled == enabled && r.model@
                == "gemini-3.5-flash"@ && r.location@ == "global"@,
            None => !r.enabled && r.model@ == "gemini-3.5-flash"@ && r.location@ == "global"@,
        },
{
    match wire {
        Some(LlmConfigWire::Switch(enabled)) => LlmConfig {
            enabled,
            model: default_llm_model(),
            location: default_llm_location(),
        },
        Some(LlmConfigWire::Object(config)) => config,
        None => LlmConfig::default(),
    }
}

#[derive(Debug, Clone, Copy, PartialEq, Eq, Structural)]
pub enum ExecutionMode {
    Paper,
    Live,
}

impl Default for ExecutionMode {
    fn default() -> (r: Self)
        ensures
            r == ExecutionMode::Paper,
    {
        ExecutionMode::Paper
    }
}

#[derive(Debug, Clone, Copy, PartialEq, Eq, Structural)]
pub enum LiveSignatureType {
    Eoa,
    Proxy,
    GnosisSafe,
    Poly1271,
}

impl Default for LiveSignatureType {
    fn default() -> (r: Self)
        ensures
            r == LiveSignatureType::Poly1271,
    {
        LiveSignatureType::Poly1271
    }
}

#[derive(Debug, Clone, Copy, PartialEq, Eq, Structural)]
pub enum LiveMarketOrderType {
    Fok,
    Fak,
}

impl Default for LiveMarketOrderType {
    fn default() -> (r: Self)
        ensures
            r == LiveMarketOrderType::Fok,
    {
        LiveMarketOrderType::Fok
    }
}

#[derive(Debug, Clone, Copy, PartialEq, Eq, Structural)]
pub enum LiveLimitOrderType {
    Gtc,
    Gtd,
}

impl Default for LiveLimitOrderType {
    fn default() -> (r: Self)
        ensures
            r == LiveLimitOrderType::Gtd,
    {
        LiveLimitOrderType::Gtd
    }
}

#[derive(Debug, Clone)]
pub struct ExecutionConfig {
    pub mode: ExecutionMode,
    pub dry_run: bool,
    pub secrets_file: String,
    pub clob_host: String,
    pub signature_type: LiveSignatureType,
    pub funder_address: Option<String>,
    pub market_order_type: LiveMarketOrderType,
    pub limit_order_type: LiveLimitOrderType,
    pub limit_post_only: bool,
    pub limit_ttl_ms: i64,
    pub max_order_age_ms: i64,
    pub min_order_usd: Num,
}

impl Default for ExecutionConfig {
    fn default() -> (r: Self)
        ensures
            r.mode == ExecutionMode::Paper,
            r.dry_run,
            r.secrets_file@ == ".env.live"@,
            r.clob_host@ == "https://clob.polymarket.com"@,
            r.signature_type == LiveSignatureType::Poly1271,
            r.funder_address is None,
            r.market_order_type == LiveMarketOrderType::Fok,
            r.limit_order_type == LiveLimitOrderType::Gtd,
            r.limit_post_only,
            r.limit_ttl_ms == 25_000,
            r.max_order_age_ms == 3_000,
            r.min_order_usd == Num::one(),
    {
        ExecutionConfig {
            mode: ExecutionMode::Paper,
            dry_run: true,
            secrets_file: execution_default_secrets_file(),
            clob_host: execution_default_clob_host(),
            signature_type: LiveSignatureType::Poly1271,
            funder_address: None,
            market_order_type: LiveMarketOrderType::Fok,
            limit_order_type: LiveLimitOrderType::Gtd,
            limit_post_only: true,
            limit_ttl_ms: execution_default_limit_ttl_ms(),
            max_order_age_ms: execution_default_max_order_age_ms(),
            min_order_usd: execution_default_min_order_usd(),
        }
    }
}

pub fn execution_default_true() -> (r: bool)
    ensures
        r,
{
    true
}

pub fn execution_default_secrets_file() -> (r: String)
    ensures
        r@ == ".env.live"@,
{
    String::from_str(".env.live")
}

pub fn execution_default_clob_host() -> (r: String)
    ensures
        r@ == "https://clob.polymarket.com"@,
{
    String::from_str("https://clob.polymarket.com")
}

pub fn execution_default_limit_ttl_ms() -> (r: i64)
    ensures
        r == 25_000,
{
    25_000
}

pub fn execution_default_max_order_age_ms() -> (r: i64)
    ensures
        r == 3_000,
{
    3_000
}

pub fn execution_default_min_order_usd() -> (r: Num)
    ensures
        r == Num::one(),
{
    Num::one()
}

pub fn default_llm_model() -> (r: String)
    ensures
        r@ == "gemini-3.5-flash"@,
{
    String::from_str("gemini-3.5-flash")
}

pub fn default_llm_location() -> (r: String)
    ensures
        r@ == "global"@,
{
    String::from_str("global")
}

pub fn default_zero() -> (r: Num)
    ensures
        r == Num::zero(),
{
    Num::zero()
}

pub fn default_window_budget_pct() -> (r: Num)
    ensures
        r == Num::uint(100),
{
    Num::uint(100)
}

/// Knobs of the endgame strategy.
#[derive(Debug, Clone, Copy)]
pub struct JEndgameConfig {
    pub endgame_secs: i64,
    pub min_winner_ask: Num,
    pub max_winner_ask: Num,
    pub taker_max_ask: Num,
    pub min_abs_gap_z: Num,
    pub limit_ask_offset: Num,
    pub clip_usd: Num,
    pub max_usd_per_window: Num,
    pub max_clips_per_window: u16,
    pub sweep_clips_per_tick: u8,
    pub tape_window_ms: i64,
    pub min_tape_usd: Num,
    pub min_tape_buys: u32,
    pub require_tape: bool,
    pub taker_mode: bool,
    pub cheap_max_ask: Num,
    pub cheap_min_gap_z: Num,
    pub cheap_tier_usd: Num,
    pub cheap_sweep_clips_per_tick: u8,
    pub cheap_require_tape: bool,
    pub late_max_secs: i64,
    pub late_min_gap_z: Num,
    pub late_tier_usd: Num,
    pub late_require_tape: bool,
    pub impulse_enabled: bool,
    pub impulse_max_ask: Num,
    pub impulse_min_gap_z: Num,
    pub impulse_tier_usd: Num,
    pub impulse_sweep_clips_per_tick: u8,
    pub impulse_require_tape: bool,
    pub cheap_min_elapsed_pct: Num,
    pub cheap_max_clips: u16,
    pub late_heavy_secs: i64,
    pub late_heavy_sweep_clips: u8,
    pub flip_hedge_enabled: bool,
    pub flip_min_sig_crosses: u32,
    pub flip_min_crosses: u32,
    pub flip_min_gap_z: Num,
    pub flip_tier_usd: Num,
    /// Hedge budget floor scales with primary exposure: max(flip_tier_usd, primary * ratio).
    pub flip_hedge_exposure_ratio: Num,
    pub flip_tier_max_usd: Num,
    pub flip_hedge_clip_usd: Num,
    pub flip_sweep_clips_per_tick: u8,
    pub flip_max_ask: Num,
    /// Require the underlying spot to cross PTB against primary before buying
    /// the opposite leg. Mid-lead flips alone only freeze/diagnose, not hedge.
    pub flip_require_spot_cross: bool,
    pub flip_require_tape: bool,
    /// Enable selling the primary leg when the thesis breaks and bid salvage beats holding loser to $0.
    pub sell_rescue_enabled: bool,
    pub sell_rescue_min_bid: Num,
    pub sell_rescue_min_gap_z: Num,
    pub sell_rescue_min_value_usd: Num,
    pub sell_rescue_min_improvement_usd: Num,
    pub sell_rescue_fraction: Num,
    pub sell_rescue_use_market: bool,
    pub sell_rescue_market_secs: i64,
    /// Skip value/late/impulse when |spot-ptb|/ptb * 100 is below this (e.g. 0.05 = 0.05%).
    pub min_ptb_dist_pct: Num,
    /// Block new directional clips when significant mid crosses reach this count (flip hedge still allowed).
    pub max_sig_crosses_directional: u32,
    /// Block new directional entries when raw mid-cross count reaches this (chop guard). 0 = off.
    pub max_crosses_directional: u32,
    /// Window close goal (redeem PnL).
    pub target_profit_usd: Num,
    /// Hard J trading gate: ignore CLOB market ticks older than this.
    pub max_clob_age_ms: i64,
    pub probe_clip_usd: Num,
    pub rescue_zone_secs: i64,
    pub max_rescue_usd: Num,
    pub abort_rescue_if_ask_above: Num,
    /// Price-tier exposure caps for primary winner buys. These trim loss tails:
    /// the more expensive the winner ask, the less USD J may deploy.
    pub tail_cap_ask70_usd: Num,
    pub tail_cap_ask88_usd: Num,
    pub tail_cap_ask94_usd: Num,
    pub tail_cap_ask97_usd: Num,
    /// Temporarily freeze fresh directional buys after a mid-price side cross.
    /// Flip hedge and sell-rescue are still allowed.
    pub fresh_cross_freeze_secs: i64,
    /// Buy a small extra clip on the existing primary side after a deep discount,
    /// but only while that side is still the spot/PTB winner.
    pub discount_reload_enabled: bool,
    pub discount_reload_max_ask: Num,
    pub discount_reload_min_drop: Num,
    pub discount_reload_min_gap_z: Num,
    pub discount_reload_clip_usd: Num,
    pub discount_reload_max_usd: Num,
    pub discount_reload_max_clips: u16,
    pub insurance_enabled: bool,
    pub insurance_max_elapsed_pct: Num,
    pub insurance_max_ask: Num,
    pub insurance_max_ptb_dist_pct: Num,
    pub insurance_max_lead_gap: Num,
    pub insurance_max_clips: u16,
    pub insurance_clip_usd: Num,
    pub insurance_tier_usd: Num,
    /// Last N seconds: taker sweep winner @ up to 0.99 to lock +target.
    pub final_seal_secs: i64,
    pub final_seal_max_ask: Num,
    pub final_seal_min_gap_z: Num,
    /// gap_z at which the dynamic clip reaches max size (full confidence).
    pub full_size_gap_z: Num,
    /// Upper bound for a single dynamic clip (USD).
    pub max_clip_usd: Num,
    /// Percent-based sizing for one process/asset. When enabled, fixed USD fields
    /// become max clamps and effective sizes are bank_pct clamped by min/max fix.
    pub bank_sizing_enabled: bool,
    pub min_trade_usd: Num,
    pub max_usd_per_window_pct: Num,
    pub max_usd_per_window_min_fix: Num,
    pub max_usd_per_window_max_fix: Num,
    pub max_rescue_usd_pct: Num,
    pub max_rescue_usd_min_fix: Num,
    pub max_rescue_usd_max_fix: Num,
    pub tail_cap_ask70_pct: Num,
    pub tail_cap_ask70_min_fix: Num,
    pub tail_cap_ask70_max_fix: Num,
    pub tail_cap_ask88_pct: Num,
    pub tail_cap_ask88_min_fix: Num,
    pub tail_cap_ask88_max_fix: Num,
    pub tail_cap_ask94_pct: Num,
    pub tail_cap_ask94_min_fix: Num,
    pub tail_cap_ask94_max_fix: Num,
    pub tail_cap_ask97_pct: Num,
    pub tail_cap_ask97_min_fix: Num,
    pub tail_cap_ask97_max_fix: Num,
    pub first_clip_pct: Num,
    pub first_clip_min_fix: Num,
    pub first_clip_max_fix: Num,
    pub max_clip_pct: Num,
    pub max_clip_min_fix: Num,
    pub max_clip_max_fix: Num,
    pub min_increment_pct: Num,
    pub min_increment_min_fix: Num,
    pub min_increment_max_fix: Num,
    pub flip_tier_pct: Num,
    pub flip_tier_min_fix: Num,
    pub flip_tier_max_fix: Num,
    pub flip_tier_max_pct: Num,
    pub flip_tier_max_min_fix: Num,
    pub flip_tier_max_max_fix: Num,
    pub flip_hedge_clip_pct: Num,
    pub flip_hedge_clip_min_fix: Num,
    pub flip_hedge_clip_max_fix: Num,
    pub discount_reload_clip_pct: Num,
    pub discount_reload_clip_min_fix: Num,
    pub discount_reload_clip_max_fix: Num,
    pub discount_reload_max_pct: Num,
    pub discount_reload_max_min_fix: Num,
    pub discount_reload_max_max_fix: Num,
    /// Minimum composite confidence C (0..1) to deploy ANY endgame USD on the
    /// winner. Below this the window is treated as a coin flip and skipped.
    pub conf_enter: Num,
    /// Weight of gap_z (winner distance from PTB / expected move) in C.
    pub conf_w_gap: Num,
    /// Weight of spot momentum (Binance/Bybit smoothed velocity toward winner).
    pub conf_w_mom: Num,
    /// Weight of order-book agreement (mid-cross lead on winner, chop-penalized).
    pub conf_w_book: Num,
    /// Weight of order-flow (tape imbalance + CEX buy/sell imbalance) toward winner.
    pub conf_w_flow: Num,
    /// Spot velocity (USD/sec, toward winner) at which the momentum score saturates.
    pub mom_full_vel_usd_per_sec: Num,
    /// Mid lead_gap at which the book score saturates.
    pub book_full_lead_gap: Num,
    /// Significant mid-crosses that fully discount the book score (chop).
    pub book_max_sig_cross: u32,
    /// If the book leads the OPPOSITE side by at least this lead_gap, veto the buy.
    pub book_contradict_gap: Num,
    pub final_seal_sweep_clips: u8,
    /// Cap the very first endgame clip (USD); later clips ramp toward max_clip_usd.
    pub first_clip_usd: Num,
    /// Skip follow-up buys until target − deployed ≥ this (reduces per-tick spam).
    pub min_increment_usd: Num,
    /// Minimum wall-clock gap between composite endgame buys (ms).
    pub min_buy_interval_ms: u64,
    /// Above this winner ask, fresh entry needs at least expensive_min_gap_z.
    pub expensive_ask_threshold: Num,
    pub expensive_min_gap_z: Num,
    pub fee_rate_bps: Option<Num>,
}

pub fn j_default_endgame_secs() -> (r: i64)
    ensures
        r == 120,
{
    120
}

pub fn j_default_min_winner_ask() -> (r: Num)
    ensures
        r == Num::ratio(88, 100),
{
    Num::ratio(88, 100)
}

pub fn j_default_max_winner_ask() -> (r: Num)
    ensures
        r == Num::ratio(98, 100),
{
    Num::ratio(98, 100)
}

pub fn j_default_taker_max_ask() -> (r: Num)
    ensures
        r == Num::ratio(99, 100),
{
    Num::ratio(99, 100)
}

pub fn j_default_min_abs_gap_z() -> (r: Num)
    ensures
        r == Num::ratio(8, 10),
{
    Num::ratio(8, 10)
}

pub fn j_default_limit_ask_offset() -> (r: Num)
    ensures
        r == Num::ratio(2, 100),
{
    Num::ratio(2, 100)
}

pub fn j_default_clip_usd() -> (r: Num)
    ensures
        r == Num::uint(1),
{
    Num::uint(1)
}

pub fn j_default_max_usd_per_window() -> (r: Num)
    ensures
        r == Num::uint(500),
{
    Num::uint(500)
}

pub fn j_default_max_clips() -> (r: u16)
    ensures
        r == 0,
{
    0
}

pub fn j_default_sweep_clips_per_tick() -> (r: u8)
    ensures
        r == 1,
{
    1
}

pub fn j_default_tape_window_ms() -> (r: i64)
    ensures
        r == 5000,
{
    5000
}

pub fn j_default_min_tape_usd() -> (r: Num)
    ensures
        r == Num::uint(3),
{
    Num::uint(3)
}

pub fn j_default_min_tape_buys() -> (r: u32)
    ensures
        r == 2,
{
    2
}

pub fn j_default_true() -> (r: bool)
    ensures
        r == true,
{
    true
}

pub fn j_default_cheap_max_ask() -> (r: Num)
    ensures
        r == Num::ratio(88, 100),
{
    Num::ratio(88, 100)
}

pub fn j_default_cheap_min_gap_z() -> (r: Num)
    ensures
        r == Num::uint(1),
{
    Num::uint(1)
}

pub fn j_default_cheap_tier_usd() -> (r: Num)
    ensures
        r == Num::uint(9),
{
    Num::uint(9)
}

pub fn j_default_cheap_sweep_clips() -> (r: u8)
    ensures
        r == 1,
{
    1
}

pub fn j_default_cheap_min_elapsed_pct() -> (r: Num)
    ensures
        r == Num::uint(50),
{
    Num::uint(50)
}

pub fn j_default_cheap_max_clips() -> (r: u16)
    ensures
        r == 9,
{
    9
}

pub fn j_default_late_max_secs() -> (r: i64)
    ensures
        r == 25,
{
    25
}

pub fn j_default_late_min_gap_z() -> (r: Num)
    ensures
        r == Num::ratio(85, 100),
{
    Num::ratio(85, 100)
}

pub fn j_default_late_tier_usd() -> (r: Num)
    ensures
        r == Num::uint(12),
{
    Num::uint(12)
}

pub fn j_default_late_heavy_secs() -> (r: i64)
    ensures
        r == 15,
{
    15
}

pub fn j_default_late_heavy_sweep_clips() -> (r: u8)
    ensures
        r == 8,
{
    8
}

pub fn j_default_impulse_max_ask() -> (r: Num)
    ensures
        r == Num::ratio(92, 100),
{
    Num::ratio(92, 100)
}

pub fn j_default_impulse_min_gap_z() -> (r: Num)
    ensures
        r == Num::ratio(12, 10),
{
    Num::ratio(12, 10)
}

pub fn j_default_impulse_tier_usd() -> (r: Num)
    ensures
        r == Num::uint(0),
{
    Num::uint(0)
}

pub fn j_default_impulse_sweep_clips() -> (r: u8)
    ensures
        r == 1,
{
    1
}

pub fn j_default_flip_min_sig_crosses() -> (r: u32)
    ensures
        r == 2,
{
    2
}

pub fn j_default_flip_min_crosses() -> (r: u32)
    ensures
        r == 6,
{
    6
}

pub fn j_default_flip_min_gap_z() -> (r: Num)
    ensures
        r == Num::ratio(4, 10),
{
    Num::ratio(4, 10)
}

pub fn j_default_flip_tier_usd() -> (r: Num)
    ensures
        r == Num::uint(4),
{
    Num::uint(4)
}

pub fn j_default_flip_hedge_exposure_ratio() -> (r: Num)
    ensures
        r == Num::ratio(25, 100),
{
    Num::ratio(25, 100)
}

pub fn j_default_flip_tier_max_usd() -> (r: Num)
    ensures
        r == Num::uint(8),
{
    Num::uint(8)
}

pub fn j_default_flip_hedge_clip_usd() -> (r: Num)
    ensures
        r == Num::uint(4),
{
    Num::uint(4)
}

pub fn j_default_flip_sweep_clips() -> (r: u8)
    ensures
        r == 1,
{
    1
}

pub fn j_default_flip_max_ask() -> (r: Num)
    ensures
        r == Num::ratio(85, 100),
{
    Num::ratio(85, 100)
}

pub fn j_default_sell_rescue_min_bid() -> (r: Num)
    ensures
        r == Num::ratio(2, 10),
{
    Num::ratio(2, 10)
}

pub fn j_default_sell_rescue_min_gap_z() -> (r: Num)
    ensures
        r == Num::ratio(12, 10),
{
    Num::ratio(12, 10)
}

pub fn j_default_sell_rescue_min_value_usd() -> (r: Num)
    ensures
        r == Num::uint(1),
{
    Num::uint(1)
}

pub fn j_default_sell_rescue_min_improvement_usd() -> (r: Num)
    ensures
        r == Num::uint(1),
{
    Num::uint(1)
}

pub fn j_default_sell_rescue_fraction() -> (r: Num)
    ensures
        r == Num::uint(1),
{
    Num::uint(1)
}

pub fn j_default_sell_rescue_market_secs() -> (r: i64)
    ensures
        r == 5,
{
    5
}

pub fn j_default_false() -> (r: bool)
    ensures
        r == false,
{
    false
}

pub fn j_default_min_ptb_dist_pct() -> (r: Num)
    ensures
        r == Num::ratio(5, 100),
{
    Num::ratio(5, 100)
}

pub fn j_default_max_sig_crosses_directional() -> (r: u32)
    ensures
        r == 3,
{
    3
}

pub fn j_default_max_crosses_directional() -> (r: u32)
    ensures
        r == 9,
{
    9
}

pub fn j_default_target_profit_usd() -> (r: Num)
    ensures
        r == Num::uint(1),
{
    Num::uint(1)
}

pub fn j_default_max_clob_age_ms() -> (r: i64)
    ensures
        r == 2500,
{
    2500
}

pub fn j_default_probe_clip_usd() -> (r: Num)
    ensures
        r == Num::uint(1),
{
    Num::uint(1)
}

pub fn j_default_rescue_zone_secs() -> (r: i64)
    ensures
        r == 20,
{
    20
}

pub fn j_default_max_rescue_usd() -> (r: Num)
    ensures
        r == Num::uint(500),
{
    Num::uint(500)
}

pub fn j_default_abort_rescue_if_ask_above() -> (r: Num)
    ensures
        r == Num::ratio(995, 1000),
{
    Num::ratio(995, 1000)
}

pub fn j_default_tail_cap_ask70_usd() -> (r: Num)
    ensures
        r == Num::uint(75),
{
    Num::uint(75)
}

pub fn j_default_tail_cap_ask88_usd() -> (r: Num)
    ensures
        r == Num::uint(55),
{
    Num::uint(55)
}

pub fn j_default_tail_cap_ask94_usd() -> (r: Num)
    ensures
        r == Num::uint(32),
{
    Num::uint(32)
}

pub fn j_default_tail_cap_ask97_usd() -> (r: Num)
    ensures
        r == Num::uint(14),
{
    Num::uint(14)
}

pub fn j_default_fresh_cross_freeze_secs() -> (r: i64)
    ensures
        r == 8,
{
    8
}

pub fn j_default_discount_reload_max_ask() -> (r: Num)
    ensures
        r == Num::ratio(74, 100),
{
    Num::ratio(74, 100)
}

pub fn j_default_discount_reload_min_drop() -> (r: Num)
    ensures
        r == Num::ratio(12, 100),
{
    Num::ratio(12, 100)
}

pub fn j_default_discount_reload_min_gap_z() -> (r: Num)
    ensures
        r == Num::ratio(11, 10),
{
    Num::ratio(11, 10)
}

pub fn j_default_discount_reload_clip_usd() -> (r: Num)
    ensures
        r == Num::uint(4),
{
    Num::uint(4)
}

pub fn j_default_discount_reload_max_usd() -> (r: Num)
    ensures
        r == Num::uint(12),
{
    Num::uint(12)
}

pub fn j_default_discount_reload_max_clips() -> (r: u16)
    ensures
        r == 2,
{
    2
}

pub fn j_default_insurance_max_elapsed_pct() -> (r: Num)
    ensures
        r == Num::uint(30),
{
    Num::uint(30)
}

pub fn j_default_insurance_max_ask() -> (r: Num)
    ensures
        r == Num::ratio(18, 100),
{
    Num::ratio(18, 100)
}

pub fn j_default_insurance_max_ptb_dist_pct() -> (r: Num)
    ensures
        r == Num::ratio(5, 100),
{
    Num::ratio(5, 100)
}

pub fn j_default_insurance_max_lead_gap() -> (r: Num)
    ensures
        r == Num::ratio(15, 100),
{
    Num::ratio(15, 100)
}

pub fn j_default_insurance_max_clips() -> (r: u16)
    ensures
        r == 2,
{
    2
}

pub fn j_default_insurance_clip_usd() -> (r: Num)
    ensures
        r == Num::uint(1),
{
    Num::uint(1)
}

pub fn j_default_insurance_tier_usd() -> (r: Num)
    ensures
        r == Num::uint(2),
{
    Num::uint(2)
}

pub fn j_default_final_seal_secs() -> (r: i64)
    ensures
        r == 5,
{
    5
}

pub fn j_default_final_seal_max_ask() -> (r: Num)
    ensures
        r == Num::ratio(99, 100),
{
    Num::ratio(99, 100)
}

pub fn j_default_final_seal_min_gap_z() -> (r: Num)
    ensures
        r == Num::ratio(35, 100),
{
    Num::ratio(35, 100)
}

pub fn j_default_full_size_gap_z() -> (r: Num)
    ensures
        r == Num::ratio(18, 10),
{
    Num::ratio(18, 10)
}

pub fn j_default_max_clip_usd() -> (r: Num)
    ensures
        r == Num::uint(35),
{
    Num::uint(35)
}

pub fn j_default_min_trade_usd() -> (r: Num)
    ensures
        r == Num::uint(1),
{
    Num::uint(1)
}

pub fn j_default_max_usd_per_window_pct() -> (r: Num)
    ensures
        r == Num::uint(16),
{
    Num::uint(16)
}

pub fn j_default_max_usd_per_window_min_fix() -> (r: Num)
    ensures
        r == Num::uint(3),
{
    Num::uint(3)
}

pub fn j_default_max_rescue_usd_pct() -> (r: Num)
    ensures
        r == Num::uint(15),
{
    Num::uint(15)
}

pub fn j_default_max_rescue_usd_min_fix() -> (r: Num)
    ensures
        r == Num::uint(3),
{
    Num::uint(3)
}

pub fn j_default_tail_cap_ask70_pct() -> (r: Num)
    ensures
        r == Num::uint(15),
{
    Num::uint(15)
}

pub fn j_default_tail_cap_ask70_min_fix() -> (r: Num)
    ensures
        r == Num::uint(3),
{
    Num::uint(3)
}

pub fn j_default_tail_cap_ask88_pct() -> (r: Num)
    ensures
        r == Num::uint(11),
{
    Num::uint(11)
}

pub fn j_default_tail_cap_ask88_min_fix() -> (r: Num)
    ensures
        r == Num::uint(2),
{
    Num::uint(2)
}

pub fn j_default_tail_cap_ask94_pct() -> (r: Num)
    ensures
        r == Num::ratio(65, 10),
{
    Num::ratio(65, 10)
}

pub fn j_default_tail_cap_ask94_min_fix() -> (r: Num)
    ensures
        r == Num::uint(1),
{
    Num::uint(1)
}

pub fn j_default_tail_cap_ask97_pct() -> (r: Num)
    ensures
        r == Num::uint(3),
{
    Num::uint(3)
}

pub fn j_default_tail_cap_ask97_min_fix() -> (r: Num)
    ensures
        r == Num::uint(1),
{
    Num::uint(1)
}

pub fn j_default_first_clip_pct() -> (r: Num)
    ensures
        r == Num::ratio(16, 10),
{
    Num::ratio(16, 10)
}

pub fn j_default_first_clip_min_fix() -> (r: Num)
    ensures
        r == Num::uint(1),
{
    Num::uint(1)
}

pub fn j_default_max_clip_pct() -> (r: Num)
    ensures
        r == Num::uint(7),
{
    Num::uint(7)
}

pub fn j_default_max_clip_min_fix() -> (r: Num)
    ensures
        r == Num::uint(1),
{
    Num::uint(1)
}

pub fn j_default_min_increment_pct() -> (r: Num)
    ensures
        r == Num::uint(1),
{
    Num::uint(1)
}

pub fn j_default_min_increment_min_fix() -> (r: Num)
    ensures
        r == Num::uint(1),
{
    Num::uint(1)
}

pub fn j_default_flip_tier_pct() -> (r: Num)
    ensures
        r == Num::uint(2),
{
    Num::uint(2)
}

pub fn j_default_flip_tier_min_fix() -> (r: Num)
    ensures
        r == Num::uint(1),
{
    Num::uint(1)
}

pub fn j_default_flip_tier_max_pct() -> (r: Num)
    ensures
        r == Num::uint(4),
{
    Num::uint(4)
}

pub fn j_default_flip_tier_max_min_fix() -> (r: Num)
    ensures
        r == Num::uint(1),
{
    Num::uint(1)
}

pub fn j_default_flip_hedge_clip_pct() -> (r: Num)
    ensures
        r == Num::uint(2),
{
    Num::uint(2)
}

pub fn j_default_flip_hedge_clip_min_fix() -> (r: Num)
    ensures
        r == Num::uint(1),
{
    Num::uint(1)
}

pub fn j_default_discount_reload_clip_pct() -> (r: Num)
    ensures
        r == Num::uint(2),
{
    Num::uint(2)
}

pub fn j_default_discount_reload_clip_min_fix() -> (r: Num)
    ensures
        r == Num::uint(1),
{
    Num::uint(1)
}

pub fn j_default_discount_reload_max_pct() -> (r: Num)
    ensures
        r == Num::uint(6),
{
    Num::uint(6)
}

pub fn j_default_discount_reload_max_min_fix() -> (r: Num)
    ensures
        r == Num::uint(1),
{
    Num::uint(1)
}

pub fn j_default_conf_enter() -> (r: Num)
    ensures
        r == Num::ratio(58, 100),
{
    Num::ratio(58, 100)
}

pub fn j_default_conf_w_gap() -> (r: Num)
    ensures
        r == Num::ratio(55, 100),
{
    Num::ratio(55, 100)
}

pub fn j_default_conf_w_mom() -> (r: Num)
    ensures
        r == Num::ratio(1, 10),
{
    Num::ratio(1, 10)
}

pub fn j_default_conf_w_book() -> (r: Num)
    ensures
        r == Num::ratio(2, 10),
{
    Num::ratio(2, 10)
}

pub fn j_default_conf_w_flow() -> (r: Num)
    ensures
        r == Num::ratio(15, 100),
{
    Num::ratio(15, 100)
}

pub fn j_default_mom_full_vel_usd_per_sec() -> (r: Num)
    ensures
        r == Num::uint(2),
{
    Num::uint(2)
}

pub fn j_default_book_full_lead_gap() -> (r: Num)
    ensures
        r == Num::ratio(15, 100),
{
    Num::ratio(15, 100)
}

pub fn j_default_book_max_sig_cross() -> (r: u32)
    ensures
        r == 3,
{
    3
}

pub fn j_default_book_contradict_gap() -> (r: Num)
    ensures
        r == Num::ratio(4, 100),
{
    Num::ratio(4, 100)
}

pub fn j_default_final_seal_sweep_clips() -> (r: u8)
    ensures
        r == 20,
{
    20
}

pub fn j_default_first_clip_usd() -> (r: Num)
    ensures
        r == Num::uint(8),
{
    Num::uint(8)
}

pub fn j_default_min_increment_usd() -> (r: Num)
    ensures
        r == Num::uint(5),
{
    Num::uint(5)
}

pub fn j_default_min_buy_interval_ms() -> (r: u64)
    ensures
        r == 3000,
{
    3000
}

pub fn j_default_expensive_ask_threshold() -> (r: Num)
    ensures
        r == Num::ratio(94, 100),
{
    Num::ratio(94, 100)
}

pub fn j_default_expensive_min_gap_z() -> (r: Num)
    ensures
        r == Num::ratio(135, 100),
{
    Num::ratio(135, 100)
}

pub fn j_default_insurance_enabled() -> (r: bool)
    ensures
        r == false,
{
    false
}

impl JEndgameConfig {
    /// The shipped defaults.
    pub open spec fn shipped() -> JEndgameConfig {
        JEndgameConfig {
            endgame_secs: 120,
            min_winner_ask: Num::ratio(88, 100),
            max_winner_ask: Num::ratio(98, 100),
            taker_max_ask: Num::ratio(99, 100),
            min_abs_gap_z: Num::ratio(8, 10),
            limit_ask_offset: Num::ratio(2, 100),
            clip_usd: Num::uint(1),
            max_usd_per_window: Num::uint(500),
            max_clips_per_window: 0,
            sweep_clips_per_tick: 1,
            tape_window_ms: 5000,
            min_tape_usd: Num::uint(3),
            min_tape_buys: 2,
            require_tape: true,
            taker_mode: true,
            cheap_max_ask: Num::ratio(88, 100),
            cheap_min_gap_z: Num::uint(1),
            cheap_tier_usd: Num::uint(9),
            cheap_sweep_clips_per_tick: 1,
            cheap_require_tape: false,
            late_max_secs: 25,
            late_min_gap_z: Num::ratio(85, 100),
            late_tier_usd: Num::uint(12),
            late_require_tape: true,
            impulse_enabled: false,
            impulse_max_ask: Num::ratio(92, 100),
            impulse_min_gap_z: Num::ratio(12, 10),
            impulse_tier_usd: Num::uint(0),
            impulse_sweep_clips_per_tick: 1,
            impulse_require_tape: true,
            cheap_min_elapsed_pct: Num::uint(50),
            cheap_max_clips: 9,
            late_heavy_secs: 15,
            late_heavy_sweep_clips: 8,
            flip_hedge_enabled: true,
            flip_min_sig_crosses: 2,
            flip_min_crosses: 6,
            flip_min_gap_z: Num::ratio(4, 10),
            flip_tier_usd: Num::uint(4),
            flip_hedge_exposure_ratio: Num::ratio(25, 100),
            flip_tier_max_usd: Num::uint(8),
            flip_hedge_clip_usd: Num::uint(4),
            flip_sweep_clips_per_tick: 1,
            flip_max_ask: Num::ratio(85, 100),
            flip_require_spot_cross: true,
            flip_require_tape: false,
            sell_rescue_enabled: true,
            sell_rescue_min_bid: Num::ratio(2, 10),
            sell_rescue_min_gap_z: Num::ratio(12, 10),
            sell_rescue_min_value_usd: Num::uint(1),
            sell_rescue_min_improvement_usd: Num::uint(1),
            sell_rescue_fraction: Num::uint(1),
            sell_rescue_use_market: false,
            sell_rescue_market_secs: 5,
            min_ptb_dist_pct: Num::ratio(5, 100),
            max_sig_crosses_directional: 3,
            max_crosses_directional: 9,
            target_profit_usd: Num::uint(1),
            max_clob_age_ms: 2500,
            probe_clip_usd: Num::uint(1),
            rescue_zone_secs: 20,
            max_rescue_usd: Num::uint(500),
            abort_rescue_if_ask_above: Num::ratio(995, 1000),
            tail_cap_ask70_usd: Num::uint(75),
            tail_cap_ask88_usd: Num::uint(55),
            tail_cap_ask94_usd: Num::uint(32),
            tail_cap_ask97_usd: Num::uint(14),
            fresh_cross_freeze_secs: 8,
            discount_reload_enabled: true,
            discount_reload_max_ask: Num::ratio(74, 100),
            discount_reload_min_drop: Num::ratio(12, 100),
            discount_reload_min_gap_z: Num::ratio(11, 10),
            discount_reload_clip_usd: Num::uint(4),
            discount_reload_max_usd: Num::uint(12),
            discount_reload_max_clips: 2,
            insurance_enabled: false,
            insurance_max_elapsed_pct: Num::uint(30),
            insurance_max_ask: Num::ratio(18, 100),
            insurance_max_ptb_dist_pct: Num::ratio(5, 100),
            insurance_max_lead_gap: Num::ratio(15, 100),
            insurance_max_clips: 2,
            insurance_clip_usd: Num::uint(1),
            insurance_tier_usd: Num::uint(2),
            final_seal_secs: 5,
            final_seal_max_ask: Num::ratio(99, 100),
            final_seal_min_gap_z: Num::ratio(35, 100),
            full_size_gap_z: Num::ratio(18, 10),
            max_clip_usd: Num::uint(35),
            bank_sizing_enabled: false,
            min_trade_usd: Num::uint(1),
            max_usd_per_window_pct: Num::uint(16),
            max_usd_per_window_min_fix: Num::uint(3),
            max_usd_per_window_max_fix: Num::uint(500),
            max_rescue_usd_pct: Num::uint(15),
            max_rescue_usd_min_fix: Num::uint(3),
            max_rescue_usd_max_fix: Num::uint(500),
            tail_cap_ask70_pct: Num::uint(15),
            tail_cap_ask70_min_fix: Num::uint(3),
            tail_cap_ask70_max_fix: Num::uint(75),
            tail_cap_ask88_pct: Num::uint(11),
            tail_cap_ask88_min_fix: Num::uint(2),
            tail_cap_ask88_max_fix: Num::uint(55),
            tail_cap_ask94_pct: Num::ratio(65, 10),
            tail_cap_ask94_min_fix: Num::uint(1),
            tail_cap_ask94_max_fix: Num::uint(32),
            tail_cap_ask97_pct: Num::uint(3),
            tail_cap_ask97_min_fix: Num::uint(1),
            tail_cap_ask97_max_fix: Num::uint(14),
            first_clip_pct: Num::ratio(16, 10),
            first_clip_min_fix: Num::uint(1),
            first_clip_max_fix: Num::uint(8),
            max_clip_pct: Num::uint(7),
            max_clip_min_fix: Num::uint(1),
            max_clip_max_fix: Num::uint(35),
            min_increment_pct: Num::uint(1),
            min_increment_min_fix: Num::uint(1),
            min_increment_max_fix: Num::uint(5),
            flip_tier_pct: Num::uint(2),
            flip_tier_min_fix: Num::uint(1),
            flip_tier_max_fix: Num::uint(4),
            flip_tier_max_pct: Num::uint(4),
            flip_tier_max_min_fix: Num::uint(1),
            flip_tier_max_max_fix: Num::uint(8),
            flip_hedge_clip_pct: Num::uint(2),
            flip_hedge_clip_min_fix: Num::uint(1),
            flip_hedge_clip_max_fix: Num::uint(4),
            discount_reload_clip_pct: Num::uint(2),
            discount_reload_clip_min_fix: Num::uint(1),
            discount_reload_clip_max_fix: Num::uint(4),
            discount_reload_max_pct: Num::uint(6),
            discount_reload_max_min_fix: Num::uint(1),
            discount_reload_max_max_fix: Num::uint(12),
            conf_enter: Num::ratio(58, 100),
            conf_w_gap: Num::ratio(55, 100),
            conf_w_mom: Num::ratio(1, 10),
            conf_w_book: Num::ratio(2, 10),
            conf_w_flow: Num::ratio(15, 100),
            mom_full_vel_usd_per_sec: Num::uint(2),
            book_full_lead_gap: Num::ratio(15, 100),
            book_max_sig_cross: 3,
            book_contradict_gap: Num::ratio(4, 100),
            final_seal_sweep_clips: 20,
            first_clip_usd: Num::uint(8),
            min_increment_usd: Num::uint(5),
            min_buy_interval_ms: 3000,
            expensive_ask_threshold: Num::ratio(94, 100),
            expensive_min_gap_z: Num::ratio(135, 100),
            fee_rate_bps: None,
        }
    }

    /// A USD size: the fixed amount, or with bank sizing a share of the bank held
    /// between its two clamps.
    pub open spec fn spec_sized_usd(
        self,
        session: SessionConfig,
        fixed: Num,
        pct: Num,
        min_fix: Num,
        max_fix: Num,
    ) -> Num {
        if !self.bank_sizing_enabled {
            fixed.max(Num::zero())
        } else {
            let lo = min_fix.max(self.min_trade_usd.max(Num::one()));
            let hi = max_fix.max(lo);
            (session.starting_bank.max(Num::zero()) * pct.max(Num::zero())
                / Num::uint(100)).clamp(lo, hi)
        }
    }

    pub fn sized_usd(
        &self,
        session: &SessionConfig,
        fixed: Num,
        pct: Num,
        min_fix: Num,
        max_fix: Num,
    ) -> (r: Num)
        ensures
            r == self.spec_sized_usd(*session, fixed, pct, min_fix, max_fix),
    {
        if !self.bank_sizing_enabled {
            return fixed.max(Num::zero());
        }
        let bank: Num = session.starting_bank.max(Num::zero());
        let lo: Num = min_fix.max(self.min_trade_usd.max(Num::one()));
        let hi: Num = max_fix.max(lo);
        (bank * pct.max(Num::zero()) / Num::uint(100)).clamp(lo, hi)
    }

    /// The smallest clip worth sending.
    pub open spec fn spec_effective_probe_clip_usd(&self, session: &SessionConfig) -> Num {
        if self.bank_sizing_enabled {
            self.min_trade_usd.max(Num::one())
        } else {
            self.probe_clip_usd.max(Num::ratio(1, 1_000_000_000))
        }
    }

    #[verifier::when_used_as_spec(spec_effective_probe_clip_usd)]
    pub fn effective_probe_clip_usd(&self, session: &SessionConfig) -> (r: Num)
        ensures
            r == self.spec_effective_probe_clip_usd(session),
    {
        if self.bank_sizing_enabled {
            self.min_trade_usd.max(Num::one())
        } else {
            self.probe_clip_usd.max(Num::ratio(1, 1_000_000_000))
        }
    }

    pub open spec fn spec_effective_max_usd_per_window(&self, session: &SessionConfig) -> Num {
        self.spec_sized_usd(
            *session,
            self.max_usd_per_window,
            self.max_usd_per_window_pct,
            self.max_usd_per_window_min_fix,
            self.max_usd_per_window_max_fix,
        )
    }

    #[verifier::when_used_as_spec(spec_effective_max_usd_per_window)]
    pub fn effective_max_usd_per_window(&self, session: &SessionConfig) -> (r: Num)
        ensures
            r == self.spec_effective_max_usd_per_window(session),
    {
        self.sized_usd(
            session,
            self.max_usd_per_window,
            self.max_usd_per_window_pct,
            self.max_usd_per_window_min_fix,
            self.max_usd_per_window_max_fix,
        )
    }

    pub open spec fn spec_effective_max_rescue_usd(&self, session: &SessionConfig) -> Num {
        self.spec_sized_usd(
            *session,
            self.max_rescue_usd,
            self.max_rescue_usd_pct,
            self.max_rescue_usd_min_fix,
            self.max_rescue_usd_max_fix,
        )
    }

    #[verifier::when_used_as_spec(spec_effective_max_rescue_usd)]
    pub fn effective_max_rescue_usd(&self, session: &SessionConfig) -> (r: Num)
        ensures
            r == self.spec_effective_max_rescue_usd(session),
    {
        self.sized_usd(
            session,
            self.max_rescue_usd,
            self.max_rescue_usd_pct,
            self.max_rescue_usd_min_fix,
            self.max_rescue_usd_max_fix,
        )
    }

    pub open spec fn spec_effective_tail_cap_ask70_usd(&self, session: &SessionConfig) -> Num {
        self.spec_sized_usd(
            *session,
            self.tail_cap_ask70_usd,
            self.tail_cap_ask70_pct,
            self.tail_cap_ask70_min_fix,
            self.tail_cap_ask70_max_fix,
        )
    }

    #[verifier::when_used_as_spec(spec_effective_tail_cap_ask70_usd)]
    pub fn effective_tail_cap_ask70_usd(&self, session: &SessionConfig) -> (r: Num)
        ensures
            r == self.spec_effective_tail_cap_ask70_usd(session),
    {
        self.sized_usd(
            session,
            self.tail_cap_ask70_usd,
            self.tail_cap_ask70_pct,
            self.tail_cap_ask70_min_fix,
            self.tail_cap_ask70_max_fix,
        )
    }

    pub open spec fn spec_effective_tail_cap_ask88_usd(&self, session: &SessionConfig) -> Num {
        self.spec_sized_usd(
            *session,
            self.tail_cap_ask88_usd,
            self.tail_cap_ask88_pct,
            self.tail_cap_ask88_min_fix,
            self.tail_cap_ask88_max_fix,
        )
    }

    #[verifier::when_used_as_spec(spec_effective_tail_cap_ask88_usd)]
    pub fn effective_tail_cap_ask88_usd(&self, session: &SessionConfig) -> (r: Num)
        ensures
            r == self.spec_effective_tail_cap_ask88_usd(session),
    {
        self.sized_usd(
            session,
            self.tail_cap_ask88_usd,
            self.tail_cap_ask88_pct,
            self.tail_cap_ask88_min_fix,
            self.tail_cap_ask88_max_fix,
        )
    }

    pub open spec fn spec_effective_tail_cap_ask94_usd(&self, session: &SessionConfig) -> Num {
        self.spec_sized_usd(
            *session,
            self.tail_cap_ask94_usd,
            self.tail_cap_ask94_pct,
            self.tail_cap_ask94_min_fix,
            self.tail_cap_ask94_max_fix,
        )
    }

    #[verifier::when_used_as_spec(spec_effective_tail_cap_ask94_usd)]
    pub fn effective_tail_cap_ask94_usd(&self, session: &SessionConfig) -> (r: Num)
        ensures
            r == self.spec_effective_tail_cap_ask94_usd(session),
    {
        self.sized_usd(
            session,
            self.tail_cap_ask94_usd,
            self.tail_cap_ask94_pct,
            self.tail_cap_ask94_min_fix,
            self.tail_cap_ask94_max_fix,
        )
    }

    pub open spec fn spec_effective_tail_cap_ask97_usd(&self, session: &SessionConfig) -> Num {
        self.spec_sized_usd(
            *session,
            self.tail_cap_ask97_usd,
            self.tail_cap_ask97_pct,
            self.tail_cap_ask97_min_fix,
            self.tail_cap_ask97_max_fix,
        )
    }

    #[verifier::when_used_as_spec(spec_effective_tail_cap_ask97_usd)]
    pub fn effective_tail_cap_ask97_usd(&self, session: &SessionConfig) -> (r: Num)
        ensures
            r == self.spec_effective_tail_cap_ask97_usd(session),
    {
        self.sized_usd(
            session,
            self.tail_cap_ask97_usd,
            self.tail_cap_ask97_pct,
            self.tail_cap_ask97_min_fix,
            self.tail_cap_ask97_max_fix,
        )
    }

    pub open spec fn spec_effective_first_clip_usd(&self, session: &SessionConfig) -> Num {
        self.spec_sized_usd(
            *session,
            self.first_clip_usd,
            self.first_clip_pct,
            self.first_clip_min_fix,
            self.first_clip_max_fix,
        )
    }

    #[verifier::when_used_as_spec(spec_effective_first_clip_usd)]
    pub fn effective_first_clip_usd(&self, session: &SessionConfig) -> (r: Num)
        ensures
            r == self.spec_effective_first_clip_usd(session),
    {
        self.sized_usd(
            session,
            self.first_clip_usd,
            self.first_clip_pct,
            self.first_clip_min_fix,
            self.first_clip_max_fix,
        )
    }

    pub open spec fn spec_effective_max_clip_usd(&self, session: &SessionConfig) -> Num {
        self.spec_sized_usd(
            *session,
            self.max_clip_usd,
            self.max_clip_pct,
            self.max_clip_min_fix,
            self.max_clip_max_fix,
        )
    }

    #[verifier::when_used_as_spec(spec_effective_max_clip_usd)]
    pub fn effective_max_clip_usd(&self, session: &SessionConfig) -> (r: Num)
        ensures
            r == self.spec_effective_max_clip_usd(session),
    {
        self.sized_usd(
            session,
            self.max_clip_usd,
            self.max_clip_pct,
            self.max_clip_min_fix,
            self.max_clip_max_fix,
        )
    }

    pub open spec fn spec_effective_min_increment_usd(&self, session: &SessionConfig) -> Num {
        self.spec_sized_usd(
            *session,
            self.min_increment_usd,
            self.min_increment_pct,
            self.min_increment_min_fix,
            self.min_increment_max_fix,
        )
    }

    #[verifier::when_used_as_spec(spec_effective_min_increment_usd)]
    pub fn effective_min_increment_usd(&self, session: &SessionConfig) -> (r: Num)
        ensures
            r == self.spec_effective_min_increment_usd(session),
    {
        self.sized_usd(
            session,
            self.min_increment_usd,
            self.min_increment_pct,
            self.min_increment_min_fix,
            self.min_increment_max_fix,
        )
    }

    pub open spec fn spec_effective_flip_tier_usd(&self, session: &SessionConfig) -> Num {
        self.spec_sized_usd(
            *session,
            self.flip_tier_usd,
            self.flip_tier_pct,
            self.flip_tier_min_fix,
            self.flip_tier_max_fix,
        )
    }

    #[verifier::when_used_as_spec(spec_effective_flip_tier_usd)]
    pub fn effective_flip_tier_usd(&self, session: &SessionConfig) -> (r: Num)
        ensures
            r == self.spec_effective_flip_tier_usd(session),
    {
        self.sized_usd(
            session,
            self.flip_tier_usd,
            self.flip_tier_pct,
            self.flip_tier_min_fix,
            self.flip_tier_max_fix,
        )
    }

    pub open spec fn spec_effective_flip_tier_max_usd(&self, session: &SessionConfig) -> Num {
        self.spec_sized_usd(
            *session,
            self.flip_tier_max_usd,
            self.flip_tier_max_pct,
            self.flip_tier_max_min_fix,
            self.flip_tier_max_max_fix,
        )
    }

    #[verifier::when_used_as_spec(spec_effective_flip_tier_max_usd)]
    pub fn effective_flip_tier_max_usd(&self, session: &SessionConfig) -> (r: Num)
        ensures
            r == self.spec_effective_flip_tier_max_usd(session),
    {
        self.sized_usd(
            session,
            self.flip_tier_max_usd,
            self.flip_tier_max_pct,
            self.flip_tier_max_min_fix,
            self.flip_tier_max_max_fix,
        )
    }

    pub open spec fn spec_effective_flip_hedge_clip_usd(&self, session: &SessionConfig) -> Num {
        self.spec_sized_usd(
            *session,
            self.flip_hedge_clip_usd,
            self.flip_hedge_clip_pct,
            self.flip_hedge_clip_min_fix,
            self.flip_hedge_clip_max_fix,
        )
    }

    #[verifier::when_used_as_spec(spec_effective_flip_hedge_clip_usd)]
    pub fn effective_flip_hedge_clip_usd(&self, session: &SessionConfig) -> (r: Num)
        ensures
            r == self.spec_effective_flip_hedge_clip_usd(session),
    {
        self.sized_usd(
            session,
            self.flip_hedge_clip_usd,
            self.flip_hedge_clip_pct,
            self.flip_hedge_clip_min_fix,
            self.flip_hedge_clip_max_fix,
        )
    }

    pub open spec fn spec_effective_discount_reload_clip_usd(&self, session: &SessionConfig) -> Num {
        self.spec_sized_usd(
            *session,
            self.discount_reload_clip_usd,
            self.discount_reload_clip_pct,
            self.discount_reload_clip_min_fix,
            self.discount_reload_clip_max_fix,
        )
    }

    #[verifier::when_used_as_spec(spec_effective_discount_reload_clip_usd)]
    pub fn effective_discount_reload_clip_usd(&self, session: &SessionConfig) -> (r: Num)
        ensures
            r == self.spec_effective_discount_reload_clip_usd(session),
    {
        self.sized_usd(
            session,
            self.discount_reload_clip_usd,
            self.discount_reload_clip_pct,
            self.discount_reload_clip_min_fix,
            self.discount_reload_clip_max_fix,
        )
    }

    pub open spec fn spec_effective_discount_reload_max_usd(&self, session: &SessionConfig) -> Num {
        self.spec_sized_usd(
            *session,
            self.discount_reload_max_usd,
            self.discount_reload_max_pct,
            self.discount_reload_max_min_fix,
            self.discount_reload_max_max_fix,
        )
    }

    #[verifier::when_used_as_spec(spec_effective_discount_reload_max_usd)]
    pub fn effective_discount_reload_max_usd(&self, session: &SessionConfig) -> (r: Num)
        ensures
            r == self.spec_effective_discount_reload_max_usd(session),
    {
        self.sized_usd(
            session,
            self.discount_reload_max_usd,
            self.discount_reload_max_pct,
            self.discount_reload_max_min_fix,
            self.discount_reload_max_max_fix,
        )
    }
}

impl Default for JEndgameConfig {
    fn default() -> (r: Self)
        ensures
            r == JEndgameConfig::shipped(),
    {
        JEndgameConfig {
            endgame_secs: j_default_endgame_secs(),
            min_winner_ask: j_default_min_winner_ask(),
            max_winner_ask: j_default_max_winner_ask(),
            taker_max_ask: j_default_taker_max_ask(),
            min_abs_gap_z: j_default_min_abs_gap_z(),
            limit_ask_offset: j_default_limit_ask_offset(),
            clip_usd: j_default_clip_usd(),
            max_usd_per_window: j_default_max_usd_per_window(),
            max_clips_per_window: j_default_max_clips(),
            sweep_clips_per_tick: j_default_sweep_clips_per_tick(),
            tape_window_ms: j_default_tape_window_ms(),
            min_tape_usd: j_default_min_tape_usd(),
            min_tape_buys: j_default_min_tape_buys(),
            require_tape: j_default_true(),
            taker_mode: j_default_true(),
            cheap_max_ask: j_default_cheap_max_ask(),
            cheap_min_gap_z: j_default_cheap_min_gap_z(),
            cheap_tier_usd: j_default_cheap_tier_usd(),
            cheap_sweep_clips_per_tick: j_default_cheap_sweep_clips(),
            cheap_require_tape: false,
            late_max_secs: j_default_late_max_secs(),
            late_min_gap_z: j_default_late_min_gap_z(),
            late_tier_usd: j_default_late_tier_usd(),
            late_require_tape: j_default_true(),
            impulse_enabled: j_default_false(),
            impulse_max_ask: j_default_impulse_max_ask(),
            impulse_min_gap_z: j_default_impulse_min_gap_z(),
            impulse_tier_usd: j_default_impulse_tier_usd(),
            impulse_sweep_clips_per_tick: j_default_impulse_sweep_clips(),
            impulse_require_tape: j_default_true(),
            cheap_min_elapsed_pct: j_default_cheap_min_elapsed_pct(),
            cheap_max_clips: j_default_cheap_max_clips(),
            late_heavy_secs: j_default_late_heavy_secs(),
            late_heavy_sweep_clips: j_default_late_heavy_sweep_clips(),
            flip_hedge_enabled: j_default_true(),
            flip_min_sig_crosses: j_default_flip_min_sig_crosses(),
            flip_min_crosses: j_default_flip_min_crosses(),
            flip_min_gap_z: j_default_flip_min_gap_z(),
            flip_tier_usd: j_default_flip_tier_usd(),
            flip_hedge_exposure_ratio: j_default_flip_hedge_exposure_ratio(),
            flip_tier_max_usd: j_default_flip_tier_max_usd(),
            flip_hedge_clip_usd: j_default_flip_hedge_clip_usd(),
            flip_sweep_clips_per_tick: j_default_flip_sweep_clips(),
            flip_max_ask: j_default_flip_max_ask(),
            flip_require_spot_cross: j_default_true(),
            flip_require_tape: j_default_false(),
            sell_rescue_enabled: j_default_true(),
            sell_rescue_min_bid: j_default_sell_rescue_min_bid(),
            sell_rescue_min_gap_z: j_default_sell_rescue_min_gap_z(),
            sell_rescue_min_value_usd: j_default_sell_rescue_min_value_usd(),
            sell_rescue_min_improvement_usd: j_default_sell_rescue_min_improvement_usd(),
            sell_rescue_fraction: j_default_sell_rescue_fraction(),
            sell_rescue_use_market: false,
            sell_rescue_market_secs: j_default_sell_rescue_market_secs(),
            min_ptb_dist_pct: j_default_min_ptb_dist_pct(),
            max_sig_crosses_directional: j_default_max_sig_crosses_directional(),
            max_crosses_directional: j_default_max_crosses_directional(),
            target_profit_usd: j_default_target_profit_usd(),
            max_clob_age_ms: j_default_max_clob_age_ms(),
            probe_clip_usd: j_default_probe_clip_usd(),
            rescue_zone_secs: j_default_rescue_zone_secs(),
            max_rescue_usd: j_default_max_rescue_usd(),
            abort_rescue_if_ask_above: j_default_abort_rescue_if_ask_above(),
            tail_cap_ask70_usd: j_default_tail_cap_ask70_usd(),
            tail_cap_ask88_usd: j_default_tail_cap_ask88_usd(),
            tail_cap_ask94_usd: j_default_tail_cap_ask94_usd(),
            tail_cap_ask97_usd: j_default_tail_cap_ask97_usd(),
            fresh_cross_freeze_secs: j_default_fresh_cross_freeze_secs(),
            discount_reload_enabled: j_default_true(),
            discount_reload_max_ask: j_default_discount_reload_max_ask(),
            discount_reload_min_drop: j_default_discount_reload_min_drop(),
            discount_reload_min_gap_z: j_default_discount_reload_min_gap_z(),
            discount_reload_clip_usd: j_default_discount_reload_clip_usd(),
            discount_reload_max_usd: j_default_discount_reload_max_usd(),
            discount_reload_max_clips: j_default_discount_reload_max_clips(),
            insurance_enabled: j_default_insurance_enabled(),
            insurance_max_elapsed_pct: j_default_insurance_max_elapsed_pct(),
            insurance_max_ask: j_default_insurance_max_ask(),
            insurance_max_ptb_dist_pct: j_default_insurance_max_ptb_dist_pct(),
            insurance_max_lead_gap: j_default_insurance_max_lead_gap(),
            insurance_max_clips: j_default_insurance_max_clips(),
            insurance_clip_usd: j_default_insurance_clip_usd(),
            insurance_tier_usd: j_default_insurance_tier_usd(),
            final_seal_secs: j_default_final_seal_secs(),
            final_seal_max_ask: j_default_final_seal_max_ask(),
            final_seal_min_gap_z: j_default_final_seal_min_gap_z(),
            full_size_gap_z: j_default_full_size_gap_z(),
            max_clip_usd: j_default_max_clip_usd(),
            bank_sizing_enabled: false,
            min_trade_usd: j_default_min_trade_usd(),
            max_usd_per_window_pct: j_default_max_usd_per_window_pct(),
            max_usd_per_window_min_fix: j_default_max_usd_per_window_min_fix(),
            max_usd_per_window_max_fix: j_default_max_usd_per_window(),
            max_rescue_usd_pct: j_default_max_rescue_usd_pct(),
            max_rescue_usd_min_fix: j_default_max_rescue_usd_min_fix(),
            max_rescue_usd_max_fix: j_default_max_rescue_usd(),
            tail_cap_ask70_pct: j_default_tail_cap_ask70_pct(),
            tail_cap_ask70_min_fix: j_default_tail_cap_ask70_min_fix(),
            tail_cap_ask70_max_fix: j_default_tail_cap_ask70_usd(),
            tail_cap_ask88_pct: j_default_tail_cap_ask88_pct(),
            tail_cap_ask88_min_fix: j_default_tail_cap_ask88_min_fix(),
            tail_cap_ask88_max_fix: j_default_tail_cap_ask88_usd(),
            tail_cap_ask94_pct: j_default_tail_cap_ask94_pct(),
            tail_cap_ask94_min_fix: j_default_tail_cap_ask94_min_fix(),
            tail_cap_ask94_max_fix: j_default_tail_cap_ask94_usd(),
            tail_cap_ask97_pct: j_default_tail_cap_ask97_pct(),
            tail_cap_ask97_min_fix: j_default_tail_cap_ask97_min_fix(),
            tail_cap_ask97_max_fix: j_default_tail_cap_ask97_usd(),
            first_clip_pct: j_default_first_clip_pct(),
            first_clip_min_fix: j_default_first_clip_min_fix(),
            first_clip_max_fix: j_default_first_clip_usd(),
            max_clip_pct: j_default_max_clip_pct(),
            max_clip_min_fix: j_default_max_clip_min_fix(),
            max_clip_max_fix: j_default_max_clip_usd(),
            min_increment_pct: j_default_min_increment_pct(),
            min_increment_min_fix: j_default_min_increment_min_fix(),
            min_increment_max_fix: j_default_min_increment_usd(),
            flip_tier_pct: j_default_flip_tier_pct(),
            flip_tier_min_fix: j_default_flip_tier_min_fix(),
            flip_tier_max_fix: j_default_flip_tier_usd(),
            flip_tier_max_pct: j_default_flip_tier_max_pct(),
            flip_tier_max_min_fix: j_default_flip_tier_max_min_fix(),
            flip_tier_max_max_fix: j_default_flip_tier_max_usd(),
            flip_hedge_clip_pct: j_default_flip_hedge_clip_pct(),
            flip_hedge_clip_min_fix: j_default_flip_hedge_clip_min_fix(),
            flip_hedge_clip_max_fix: j_default_flip_hedge_clip_usd(),
            discount_reload_clip_pct: j_default_discount_reload_clip_pct(),
            discount_reload_clip_min_fix: j_default_discount_reload_clip_min_fix(),
            discount_reload_clip_max_fix: j_default_discount_reload_clip_usd(),
            discount_reload_max_pct: j_default_discount_reload_max_pct(),
            discount_reload_max_min_fix: j_default_discount_reload_max_min_fix(),
            discount_reload_max_max_fix: j_default_discount_reload_max_usd(),
            conf_enter: j_default_conf_enter(),
            conf_w_gap: j_default_conf_w_gap(),
            conf_w_mom: j_default_conf_w_mom(),
            conf_w_book: j_default_conf_w_book(),
            conf_w_flow: j_default_conf_w_flow(),
            mom_full_vel_usd_per_sec: j_default_mom_full_vel_usd_per_sec(),
            book_full_lead_gap: j_default_book_full_lead_gap(),
            book_max_sig_cross: j_default_book_max_sig_cross(),
            book_contradict_gap: j_default_book_contradict_gap(),
            final_seal_sweep_clips: j_default_final_seal_sweep_clips(),
            first_clip_usd: j_default_first_clip_usd(),
            min_increment_usd: j_default_min_increment_usd(),
            min_buy_interval_ms: j_default_min_buy_interval_ms(),
            expensive_ask_threshold: j_default_expensive_ask_threshold(),
            expensive_min_gap_z: j_default_expensive_min_gap_z(),
            fee_rate_bps: None,
        }
    }
}
#[derive(Debug, Clone)]
pub struct Config {
    pub strategy: String,
    pub llm: LlmConfig,
    pub min_btc_atr: Num,
    pub min_eth_atr: Num,
    pub session: SessionConfig,
    pub pre_start_entry: PreStartConfig,
    pub sell_strategy: SellStrategyConfig,
    pub asymmetric_ladder: Option<AsymmetricLadderConfig>,
    pub dynamic_breakeven: Option<DynamicBreakevenConfig>,
    pub exit_before_end_seconds: i64,
    pub force_close_at_end: bool,
    pub execution: ExecutionConfig,
    pub j_endgame: JEndgameConfig,
}

impl Config {
    /// The volatility floor of an asset: ETH has its own, all others share one.
    pub fn min_atr_for(&self, asset: &str) -> (r: Num)
        ensures
            r == if uppercase(asset@) == "ETH"@ {
                self.min_eth_atr
            } else {
                self.min_btc_atr
            },
    {
        if same_text(to_uppercase(asset).as_str(), "ETH") {
            self.min_eth_atr
        } else {
            self.min_btc_atr
        }
    }
}

} // verus!
