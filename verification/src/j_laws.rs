//! Laws of the endgame planner.
use crate::cex_micro::CexMicroSnapshot;
use crate::client::PricesState;
use crate::config::{Config, JEndgameConfig, SessionConfig};
use crate::j_controller::{
    blend, book_contradicts, book_score, calm, clip_cap, composite_plan, confidence_of, deployed,
    direction, endgame_plan, enter_bar, enter_bar_valid, eps, exposure_cap, flow_score, full_gap,
    gap_score, gap_trust, hedge_cap, hedge_plan, momentum_score, opposite, phase_of,
    profit_increment, ramp, reload_left, reload_plan, rescue_left, safe_boost, tail_cap,
    tape_balance, target_exposure, weight_sum, window_plan, JWindowPhase,
};
use crate::mid_cross_tracker::{LeadSide, MidCrossSnapshot};
use crate::num::Num;
use crate::num_error::{
    dist, exact, lemma_billionth, lemma_div_error, lemma_exact_nonneg, lemma_exact_one,
    lemma_exact_order, lemma_sub_error, lemma_sub_finite, lemma_trace_small, parts, trace,
};
use crate::num_laws::{
    lemma_add_grows, lemma_add_key, lemma_add_mono, lemma_add_nonneg, lemma_complements,
    lemma_div_mag, lemma_div_mono, lemma_div_nonneg, lemma_div_order, lemma_div_share, lemma_mul_mag,
    lemma_mul_mono, lemma_mul_share, lemma_mul_share_finite, lemma_negated, lemma_ratio_one,
    lemma_self_difference, lemma_self_quotient,
    lemma_sub_mono, lemma_sub_nonneg, lemma_sub_pos, lemma_sub_shrinks, lemma_sum_mono, nonneg,
    unit, within,
};
use crate::num_ops::{lemma_ratio_mono, lemma_ratio_nonneg, lemma_uint_is_ratio};
use crate::rounding::{expo, lemma_encode_exact, sig, units, INF_BITS};
use crate::strategy::{SpotSignalSnapshot, TradeTapeSnapshot};
use crate::strategy_j::{EndgameTier, JWindowState};
use crate::trader::WindowState;
use vstd::arithmetic::power2::{lemma_pow2_pos, pow2};
use vstd::prelude::*;

verus! {

/// A ramp over finite bounds from zero on gives a share.
pub proof fn law_ramp_is_share(x: Num, lo: Num, hi: Num)
    requires
        nonneg(lo),
        hi.is_finite(),
    ensures
        unit(ramp(x, lo, hi)),
{
    if x.is_finite() && !hi.le(lo) {
        lemma_sub_pos(hi, lo);
        lemma_sub_shrinks(hi, lo);
        lemma_sub_shrinks(x, lo);
        let d = hi - lo;
        let n = x - lo;
        assert(d.is_finite() && d.gt(Num::zero()));
        reveal(Num::spec_div);
        if n.is_finite() {
            lemma_quotient_number(n, d);
        }
        assert(!(n / d).is_nan());
    }
}

pub(crate) proof fn lemma_quotient_number(n: Num, d: Num)
    requires
        n.is_finite(),
        d.gt(Num::zero()),
    ensures
        !(n / d).is_nan(),
{
    reveal(Num::spec_div);
    if d.is_finite() {
        lemma_div_mag(n, d);
    }
}

/// At its lower bound and below a ramp is zero.
pub proof fn law_ramp_zero_below(x: Num, lo: Num, hi: Num)
    requires
        nonneg(lo),
        hi.is_finite(),
        lo.lt(hi),
        x.le(lo),
    ensures
        ramp(x, lo, hi).le(Num::zero()),
        ramp(x, lo, hi).mag() == 0,
{
    if x.is_finite() {
        lemma_sub_pos(hi, lo);
        lemma_sub_shrinks(hi, lo);
        lemma_sub_mono(x, lo, lo, lo);
        lemma_self_difference(lo);
        lemma_sub_shrinks(x, lo);
        let n = x - lo;
        assert(n.key() <= 0);
        lemma_div_order(n, Num::zero(), hi - lo);
    }
}

/// From its upper bound on a ramp is one.
pub proof fn law_ramp_full_above(x: Num, lo: Num, hi: Num)
    requires
        x.is_finite(),
        nonneg(lo),
        hi.is_finite(),
        hi.le(x),
    ensures
        ramp(x, lo, hi) == Num::one(),
{
    if !hi.le(lo) {
        let d = hi - lo;
        lemma_sub_pos(hi, lo);
        lemma_sub_shrinks(hi, lo);
        lemma_sub_mono(hi, x, lo, lo);
        lemma_sub_shrinks(x, lo);
        lemma_div_order(d, x - lo, d);
        lemma_self_quotient(d);
        let q = (x - lo) / d;
        assert(Num::one().le(q));
        if !q.gt(Num::one()) {
            assert(q.key() == Num::one().key());
            assert(q.bits == Num::one().bits);
        }
    }
}

/// Between its bounds a ramp is the share of the way that lies behind, up to a few
/// roundings.
pub proof fn law_ramp_is_linear(x: Num, lo: Num, hi: Num)
    requires
        nonneg(lo),
        lo.le(x),
        x.le(hi),
        hi.is_finite(),
        lo.lt(hi),
    ensures
        ({
            let way = exact(hi) - exact(lo);
            parts() * dist(exact(ramp(x, lo, hi)) * way, exact(x) - exact(lo)) <= 8int as real * way
        }),
{
    let (d, n) = (hi - lo, x - lo);
    lemma_sub_pos(hi, lo);
    lemma_sub_finite(hi, lo);
    lemma_sub_nonneg(x, lo);
    lemma_sub_finite(x, lo);
    lemma_sub_mono(x, hi, lo, lo);
    let q = n / d;
    lemma_div_share(n, d);
    assert(ramp(x, lo, hi) == q);
    lemma_sub_error(hi, lo);
    lemma_sub_error(x, lo);
    lemma_div_error(n, d);
    lemma_exact_order(lo, x);
    lemma_exact_order(x, hi);
    lemma_exact_order(lo, hi);
    lemma_exact_nonneg(n);
    lemma_exact_nonneg(d);
    lemma_exact_nonneg(q);
    lemma_exact_order(n, d);
    lemma_exact_one();
    lemma_exact_order(q, Num::one());
    lemma_trace_small(d);
    lemma_ramp_error(
        exact(q),
        exact(hi) - exact(lo),
        exact(x) - exact(lo),
        exact(d),
        exact(n),
        parts() * trace(),
        parts(),
    );
}

proof fn lemma_ramp_error(q: real, way: real, gone: real, d: real, n: real, t: real, k: real)
    requires
        k >= 0x20_0000_0000_0000int as real,
        0int as real <= q <= 1int as real,
        0int as real <= gone <= way,
        (0int as real) < way,
        0int as real <= n <= d,
        0int as real <= t <= 1int as real,
        k * dist(d, way) <= dist(way, 0int as real),
        k * dist(n, gone) <= dist(gone, 0int as real),
        k * dist(q * d, n) <= n + t * d,
    ensures
        k * dist(q * way, gone) <= 8int as real * way,
{
    let one = 1int as real;
    assert(dist(way, 0int as real) == way && dist(gone, 0int as real) == gone);
    // the rounded way is at most twice the way
    assert(d <= 2int as real * way) by (nonlinear_arith)
        requires
            k * dist(d, way) <= way,
            d - way <= dist(d, way),
            k >= 0x20_0000_0000_0000int as real,
            (0int as real) < way,
            dist(d, way) >= 0int as real,
    ;
    assert(t * d <= d) by (nonlinear_arith)
        requires
            0int as real <= t <= one,
            one == 1int as real,
            0int as real <= d,
    ;
    let e = dist(d, way);
    assert(q * way - q * d <= e && q * d - q * way <= e) by (nonlinear_arith)
        requires
            0int as real <= q <= one,
            one == 1int as real,
            d - way <= e,
            way - d <= e,
    ;
    let f = dist(q * d, n);
    let g = dist(n, gone);
    let h = dist(q * way, gone);
    assert(h <= e + f + g);
    assert(k * h <= k * e + k * f + k * g) by (nonlinear_arith)
        requires
            h <= e + f + g,
            k >= 0int as real,
    ;
}

/// Which configurations of the confidence score are sound: weights that are not
/// negative with a finite sum, a risk floor that is not negative, finite saturation
/// points.
pub open spec fn sound_scores(cfg: JEndgameConfig) -> bool {
    &&& nonneg(cfg.conf_w_gap)
    &&& nonneg(cfg.conf_w_mom)
    &&& nonneg(cfg.conf_w_book)
    &&& nonneg(cfg.conf_w_flow)
    &&& weight_sum(cfg).is_finite()
    &&& nonneg(cfg.final_seal_min_gap_z)
    &&& full_gap(cfg).is_finite()
    &&& (full_gap(cfg) * Num::ratio(125, 100)).is_finite()
    &&& cfg.book_full_lead_gap.is_finite()
    &&& cfg.mom_full_vel_usd_per_sec.max(Num::ratio(1, 1_000_000)).is_finite()
}

/// Readings of the flow that a tape and an exchange can give.
pub open spec fn sound_flow(cex: CexMicroSnapshot, tape: TradeTapeSnapshot) -> bool {
    &&& nonneg(tape.up_buy_usd)
    &&& nonneg(tape.down_buy_usd)
    &&& cex.buy_sell_imbalance_3s.is_finite()
}

pub(crate) proof fn lemma_calm_share(cfg: JEndgameConfig, mid_cross: MidCrossSnapshot)
    ensures
        unit(calm(cfg, mid_cross)),
{
    let limit: u32 = if cfg.book_max_sig_cross >= 1 {
        cfg.book_max_sig_cross
    } else {
        1
    };
    let n = mid_cross.significant_cross_count;
    lemma_uint_is_ratio(n as u64);
    lemma_uint_is_ratio(limit as u64);
    lemma_ratio_one();
    lemma_ratio_nonneg(n as u64, 1);
    lemma_ratio_mono(1, 1, limit as u64, 1);
    lemma_uint_finite(n as u64);
    let q = Num::uint(n as u64) / Num::uint(limit as u64);
    lemma_div_nonneg(Num::uint(n as u64), Num::uint(limit as u64));
    let t = q.clamp(Num::zero(), Num::one());
    lemma_sub_nonneg(Num::one(), t);
    lemma_sub_shrinks(Num::one(), t);
}

/// Every machine integer is a finite number.
pub proof fn lemma_uint_finite(n: u64)
    ensures
        nonneg(Num::uint(n)),
{
    lemma_uint_is_ratio(n);
    lemma_ratio_nonneg(n, 1);
    reveal(Num::spec_ratio);
    vstd::arithmetic::power2::lemma_pow2_pos(1074);
    vstd::arithmetic::power2::lemma2_to64();
    let p = vstd::arithmetic::power2::pow2(1074) as int;
    // 2^64 is the double with these bits
    let b = 0x43F0_0000_0000_0000int;
    vstd::arithmetic::power2::lemma_pow2_adds(52, 1086);
    vstd::arithmetic::power2::lemma_pow2_adds(64, 1074);
    assert(vstd::arithmetic::power2::pow2(52) == 0x10_0000_0000_0000) by {
        vstd::arithmetic::power2::lemma_pow2_adds(32, 20);
    }
    assert(crate::rounding::sig(b) == 0x10_0000_0000_0000 && crate::rounding::expo(b) == 1086);
    let u = crate::rounding::units(b);
    assert(u == 0x1_0000_0000_0000_0000 * p);
    assert(0 <= n * p && n * p <= u) by (nonlinear_arith)
        requires
            0 <= n < 0x1_0000_0000_0000_0000,
            p > 0,
            u == 0x1_0000_0000_0000_0000 * p,
    ;
    crate::rounding::lemma_encode_mono(n * p, 1, u * 1, 1);
    crate::rounding::lemma_encode_exact(b, 1);
}

pub(crate) proof fn lemma_flow_share(winner: Seq<char>, cex: CexMicroSnapshot, tape: TradeTapeSnapshot)
    requires
        sound_flow(cex, tape),
    ensures
        unit(flow_score(winner, cex, tape)),
{
    let (win, lose) = if winner == "UP"@ {
        (tape.up_buy_usd, tape.down_buy_usd)
    } else {
        (tape.down_buy_usd, tape.up_buy_usd)
    };
    let half = Num::ratio(5, 10);
    lemma_ratio_mono(5, 10, 1, 1);
    lemma_ratio_nonneg(5, 10);
    lemma_ratio_one();
    assert(unit(half));
    lemma_add_nonneg(win, lose);
    lemma_sub_shrinks(win, lose);
    // win - lose is at least -lose
    lemma_negated(lose);
    lemma_add_key(win, lose.negated());
    lemma_add_grows(lose.negated(), win);
    lemma_add_key(lose.negated(), win);
    let diff = win - lose;
    assert(diff.is_finite());
    let imb = tape_balance(winner, tape);
    if (win + lose).gt(Num::zero()) {
        lemma_quotient_number(diff, win + lose);
    }
    assert(!imb.is_nan());
    let dir = direction(winner);
    let c = cex.buy_sell_imbalance_3s;
    lemma_mul_share_finite(Num::one(), c);
    lemma_mul_mag(c, Num::one());
    lemma_mul_mag(c, Num::one().negated());
    assert((c * dir).is_finite());
    lemma_mul_share_finite(half, c * dir);
    let a = half * imb;
    if imb.is_finite() {
        lemma_mul_share_finite(half, imb);
    } else {
        lemma_half_positive();
        reveal(Num::spec_mul);
    }
    assert(!a.is_nan());
    reveal(Num::spec_add);
    let b = half * (c * dir);
    if a.is_finite() {
        lemma_add_key(a, b);
    }
    assert(!(a + b).is_nan());
}

pub(crate) proof fn lemma_half_positive()
    ensures
        Num::ratio(5, 10).mag() > 0,
{
    vstd::arithmetic::power2::lemma2_to64();
    assert(vstd::arithmetic::power2::pow2(53) == 0x20_0000_0000_0000) by {
        vstd::arithmetic::power2::lemma_pow2_adds(32, 21);
    }
    crate::num_laws::lemma_ratio_bits(5, 10, 1021, 0x10_0000_0000_0000);
}

pub(crate) proof fn lemma_blend_share(cfg: JEndgameConfig, gap: Num, mom: Num, book: Num, flow: Num)
    requires
        nonneg(cfg.conf_w_gap),
        nonneg(cfg.conf_w_mom),
        nonneg(cfg.conf_w_book),
        nonneg(cfg.conf_w_flow),
        weight_sum(cfg).is_finite(),
        weight_sum(cfg).gt(Num::zero()),
        unit(gap),
        unit(mom),
        unit(book),
        unit(flow),
    ensures
        unit(blend(cfg, gap, mom, book, flow)),
{
    let (g, m, b, f) = (cfg.conf_w_gap, cfg.conf_w_mom, cfg.conf_w_book, cfg.conf_w_flow);
    lemma_mul_share(gap, g);
    lemma_mul_share(mom, m);
    lemma_mul_share(book, b);
    lemma_mul_share(flow, f);
    let p1 = g + m;
    let p2 = p1 + b;
    lemma_add_nonneg(g, m);
    lemma_add_grows(p1, b);
    lemma_add_grows(p2, f);
    lemma_sum_mono(g * gap, g, m * mom, m);
    lemma_sum_mono(g * gap + m * mom, p1, b * book, b);
    lemma_sum_mono(g * gap + m * mom + b * book, p2, f * flow, f);
    lemma_div_share(g * gap + m * mom + b * book + f * flow, weight_sum(cfg));
}

pub(crate) proof fn lemma_trust_share(c: Num, gap: Num)
    requires
        unit(c),
        unit(gap),
    ensures
        unit(gap_trust(c, gap)),
{
    lemma_complements();
    let a = Num::ratio(72, 100);
    let b = Num::ratio(28, 100);
    lemma_mul_share(gap, a);
    lemma_mul_share(c, b);
    lemma_sum_mono(gap * a, a, c * b, b);
}

pub(crate) proof fn lemma_boost_share(c: Num, gz: Num, full: Num)
    requires
        unit(c),
        nonneg(full),
        (full * Num::ratio(125, 100)).is_finite(),
    ensures
        unit(safe_boost(c, gz, full)),
{
    let lo = full * Num::ratio(75, 100);
    let hi = full * Num::ratio(125, 100);
    let t = ramp(gz.abs(), lo, hi);
    lemma_ratio_one();
    lemma_ratio_mono(75, 100, 1, 1);
    lemma_ratio_nonneg(75, 100);
    lemma_mul_share(Num::ratio(75, 100), full);
    law_ramp_is_share(gz.abs(), lo, hi);
    lemma_complements();
    let a = Num::ratio(58, 100);
    let b = Num::ratio(38, 100);
    lemma_ratio_mono(58, 100, 60, 100);
    lemma_ratio_mono(38, 100, 40, 100);
    lemma_ratio_nonneg(58, 100);
    lemma_ratio_nonneg(38, 100);
    lemma_mul_share(t, b);
    lemma_sum_mono(a, Num::ratio(60, 100), b * t, Num::ratio(40, 100));
}

/// Composite confidence always lies in [0, 1].
pub proof fn law_confidence_is_share(
    cfg: JEndgameConfig,
    winner: Seq<char>,
    gz: Num,
    spot_sig: SpotSignalSnapshot,
    mid_cross: MidCrossSnapshot,
    cex: CexMicroSnapshot,
    tape: TradeTapeSnapshot,
)
    requires
        sound_scores(cfg),
        sound_flow(cex, tape),
    ensures
        unit(confidence_of(cfg, winner, gz, spot_sig, mid_cross, cex, tape)),
{
    let full = full_gap(cfg);
    let gap = gap_score(cfg, gz);
    law_ramp_is_share(gz.abs(), cfg.final_seal_min_gap_z, full);
    let mom = momentum_score(cfg, winner, spot_sig);
    let v = match spot_sig.smoothed_velocity_usd_per_sec {
        Some(v) => v,
        None => Num::zero(),
    };
    law_ramp_is_share(
        v * direction(winner),
        Num::zero(),
        cfg.mom_full_vel_usd_per_sec.max(Num::ratio(1, 1_000_000)),
    );
    let book = book_score(cfg, winner, mid_cross);
    lemma_calm_share(cfg, mid_cross);
    law_ramp_is_share(mid_cross.lead_gap, Num::zero(), cfg.book_full_lead_gap);
    lemma_mul_share(
        ramp(mid_cross.lead_gap, Num::zero(), cfg.book_full_lead_gap),
        calm(cfg, mid_cross),
    );
    assert(unit(book));
    lemma_flow_share(winner, cex, tape);
    let flow = flow_score(winner, cex, tape);
    if !weight_sum(cfg).le(Num::zero()) {
        lemma_blend_share(cfg, gap, mom, book, flow);
        let c = blend(cfg, gap, mom, book, flow);
        lemma_trust_share(c, gap);
        lemma_ratio_nonneg(1, 1_000_000);
        lemma_ratio_one();
        lemma_ratio_mono(1, 1_000_000, 1, 1);
        lemma_add_nonneg(cfg.final_seal_min_gap_z, Num::ratio(1, 1_000_000));
        assert(nonneg(full));
        lemma_boost_share(gap_trust(c, gap), gz, full);
    }
}

/// A gap below the risk floor is a coin flip: no confidence, whatever else is seen.
pub proof fn law_no_confidence_below_gap_floor(
    cfg: JEndgameConfig,
    winner: Seq<char>,
    gz: Num,
    spot_sig: SpotSignalSnapshot,
    mid_cross: MidCrossSnapshot,
    cex: CexMicroSnapshot,
    tape: TradeTapeSnapshot,
)
    requires
        nonneg(cfg.final_seal_min_gap_z),
        full_gap(cfg).is_finite(),
        cfg.final_seal_min_gap_z.lt(full_gap(cfg)),
        gz.abs().le(cfg.final_seal_min_gap_z),
    ensures
        confidence_of(cfg, winner, gz, spot_sig, mid_cross, cex, tape) == Num::zero(),
{
    law_ramp_zero_below(gz.abs(), cfg.final_seal_min_gap_z, full_gap(cfg));
}

/// A book that firmly leads the other side leaves no confidence.
pub proof fn law_no_confidence_against_book(
    cfg: JEndgameConfig,
    winner: Seq<char>,
    gz: Num,
    spot_sig: SpotSignalSnapshot,
    mid_cross: MidCrossSnapshot,
    cex: CexMicroSnapshot,
    tape: TradeTapeSnapshot,
)
    requires
        book_contradicts(cfg, winner, mid_cross),
    ensures
        confidence_of(cfg, winner, gz, spot_sig, mid_cross, cex, tape) == Num::zero(),
{
}

/// Which configurations of the entry bar are sound: a bar that can be lowered to the
/// lowest one, and limits that are not negative and finite.
pub open spec fn sound_bar(cfg: JEndgameConfig) -> bool {
    &&& enter_bar_valid(cfg)
    &&& cfg.conf_enter.is_finite()
    &&& nonneg(cfg.cheap_max_ask)
    &&& nonneg(cfg.full_size_gap_z)
    &&& (cfg.full_size_gap_z * Num::ratio(125, 100)).is_finite()
}

/// Whatever the ask and the gap, the entry bar lies between 0.40 and the configured bar.
pub proof fn law_enter_bar_within_limits(cfg: JEndgameConfig, ask: Num, gz: Num)
    requires
        sound_bar(cfg),
    ensures
        within(enter_bar(cfg, ask, gz), Num::ratio(40, 100), cfg.conf_enter),
{
    let full = cfg.full_size_gap_z;
    let lo = full * Num::ratio(75, 100);
    let hi = full * Num::ratio(125, 100);
    let t = ramp(gz.abs(), lo, hi);
    lemma_ratio_one();
    lemma_ratio_mono(75, 100, 1, 1);
    lemma_ratio_nonneg(75, 100);
    lemma_mul_share(Num::ratio(75, 100), full);
    law_ramp_is_share(gz.abs(), lo, hi);
    lemma_ratio_mono(10, 100, 1, 1);
    lemma_ratio_nonneg(10, 100);
    lemma_mul_share(t, Num::ratio(10, 100));
    lemma_ratio_mono(14, 100, 1, 1);
    lemma_ratio_nonneg(14, 100);
    let top = cfg.cheap_max_ask;
    let share = ((top - ask) / top.max(Num::ratio(1, 100))).clamp(Num::zero(), Num::one());
    let a = if ask.gt(Num::zero()) && ask.le(top) {
        lemma_ratio_nonneg(1, 100);
        lemma_ratio_mono(1, 100, 1, 1);
        lemma_sub_nonneg(top, ask);
        lemma_sub_shrinks(top, ask);
        if top.max(Num::ratio(1, 100)).gt(Num::zero()) {
            lemma_quotient_number(top - ask, top.max(Num::ratio(1, 100)));
        }
        assert(unit(share));
        lemma_mul_share(share, Num::ratio(14, 100));
        lemma_sub_shrinks(cfg.conf_enter, Num::ratio(14, 100) * share);
        cfg.conf_enter - Num::ratio(14, 100) * share
    } else {
        cfg.conf_enter
    };
    lemma_sub_shrinks(a, Num::ratio(10, 100) * t);
}

/// A ramp does not fall.
pub proof fn law_ramp_rises(x: Num, y: Num, lo: Num, hi: Num)
    requires
        x.is_finite(),
        y.is_finite(),
        x.le(y),
        nonneg(lo),
        hi.is_finite(),
    ensures
        ramp(x, lo, hi).le(ramp(y, lo, hi)),
{
    law_ramp_is_share(x, lo, hi);
    law_ramp_is_share(y, lo, hi);
    if !hi.le(lo) {
        lemma_sub_pos(hi, lo);
        lemma_sub_shrinks(hi, lo);
        lemma_sub_mono(x, y, lo, lo);
        lemma_sub_shrinks(x, lo);
        lemma_sub_shrinks(y, lo);
        lemma_div_order(x - lo, y - lo, hi - lo);
    }
}

/// How far a cheap ask lowers the bar: a share that a cheaper ask does not make smaller.
proof fn lemma_cheap_share(top: Num, a1: Num, a2: Num)
    requires
        nonneg(top),
        Num::zero().lt(a1),
        a1.le(a2),
        a2.le(top),
    ensures
        ({
            let d = top.max(Num::ratio(1, 100));
            let s1 = ((top - a1) / d).clamp(Num::zero(), Num::one());
            let s2 = ((top - a2) / d).clamp(Num::zero(), Num::one());
            unit(s1) && unit(s2) && s2.le(s1)
        }),
{
    let d = top.max(Num::ratio(1, 100));
    lemma_ratio_nonneg(1, 100);
    lemma_ratio_one();
    lemma_ratio_mono(1, 100, 1, 1);
    assert(nonneg(d) && d.key() > 0);
    lemma_sub_nonneg(top, a1);
    lemma_sub_nonneg(top, a2);
    lemma_sub_finite(top, a1);
    lemma_sub_finite(top, a2);
    lemma_sub_mono(top, top, a2, a1);
    lemma_div_mag(top - a1, d);
    lemma_div_mag(top - a2, d);
    lemma_div_mono(top - a2, top - a1, d);
}

/// Neither a cheaper ask nor a safer gap raises the entry bar.
pub proof fn law_enter_bar_falls(cfg: JEndgameConfig, a1: Num, a2: Num, g1: Num, g2: Num)
    requires
        sound_bar(cfg),
        Num::zero().lt(a1),
        a1.le(a2),
        g1.is_finite(),
        g2.is_finite(),
        g2.abs().le(g1.abs()),
    ensures
        enter_bar(cfg, a1, g1).le(enter_bar(cfg, a2, g2)),
{
    let full = cfg.full_size_gap_z;
    let lo = full * Num::ratio(75, 100);
    let hi = full * Num::ratio(125, 100);
    let top = cfg.cheap_max_ask;
    let c = cfg.conf_enter;
    let d = top.max(Num::ratio(1, 100));
    let most = Num::ratio(14, 100);
    let gap_most = Num::ratio(10, 100);
    lemma_complements();
    lemma_ratio_one();
    lemma_ratio_mono(75, 100, 1, 1);
    lemma_ratio_nonneg(75, 100);
    lemma_mul_share(Num::ratio(75, 100), full);
    lemma_ratio_mono(10, 100, 1, 1);
    lemma_ratio_nonneg(10, 100);
    lemma_ratio_mono(14, 100, 1, 1);
    lemma_ratio_nonneg(14, 100);
    lemma_ratio_mono(14, 100, 40, 100);
    // the ask
    let s1 = ((top - a1) / d).clamp(Num::zero(), Num::one());
    let s2 = ((top - a2) / d).clamp(Num::zero(), Num::one());
    let b1 = if a1.le(top) { c - most * s1 } else { c };
    let b2 = if a2.le(top) { c - most * s2 } else { c };
    if a1.le(top) {
        lemma_cheap_share(top, a1, a1);
        lemma_mul_share(s1, most);
        lemma_sub_nonneg(c, most * s1);
        lemma_sub_finite(c, most * s1);
        lemma_sub_shrinks(c, most * s1);
        if a2.le(top) {
            lemma_cheap_share(top, a1, a2);
            lemma_mul_share(s2, most);
            lemma_mul_mono(most, s2, s1);
            lemma_sub_nonneg(c, most * s2);
            lemma_sub_finite(c, most * s2);
            lemma_sub_mono(c, c, most * s1, most * s2);
        }
    }
    assert(nonneg(b1) && nonneg(b2) && b1.le(b2));
    // the gap
    let t1 = ramp(g1.abs(), lo, hi);
    let t2 = ramp(g2.abs(), lo, hi);
    law_ramp_is_share(g1.abs(), lo, hi);
    law_ramp_is_share(g2.abs(), lo, hi);
    law_ramp_rises(g2.abs(), g1.abs(), lo, hi);
    lemma_mul_share(t1, gap_most);
    lemma_mul_share(t2, gap_most);
    lemma_mul_mono(gap_most, t2, t1);
    lemma_sub_finite(b1, gap_most * t1);
    lemma_sub_finite(b2, gap_most * t2);
    lemma_sub_shrinks(b1, gap_most * t1);
    lemma_sub_mono(b1, b2, gap_most * t1, gap_most * t2);
}

/// Without confidence nothing is bought on the winner, however cheap it is.
pub proof fn law_no_confidence_buys_nothing(
    config: Config,
    state: JWindowState,
    win_state: WindowState,
    winner: Seq<char>,
    ask: Num,
    gz: Num,
    elapsed_pct: Num,
    available_cash: Num,
)
    requires
        sound_bar(config.j_endgame),
    ensures
        composite_plan(
            config,
            state,
            win_state,
            winner,
            ask,
            gz,
            Num::zero(),
            elapsed_pct,
            available_cash,
        ) is None,
{
    law_enter_bar_within_limits(config.j_endgame, ask, gz);
    lemma_complements();
}

/// In a window where nothing is deployed the profit target asks for nothing: the first
/// buy is sized by confidence alone.
pub proof fn law_empty_window_has_no_profit_target(
    config: Config,
    win_state: WindowState,
    winner: Seq<char>,
    ask: Num,
)
    requires
        !deployed(win_state.spent, win_state.up_shares, win_state.down_shares),
    ensures
        profit_increment(config, win_state, winner, ask) == Num::zero(),
{
}

/// After the first buy, a step toward the target that stays below the smallest increment
/// is not taken.
pub proof fn law_no_small_follow_up(
    config: Config,
    state: JWindowState,
    win_state: WindowState,
    winner: Seq<char>,
    ask: Num,
    gz: Num,
    confidence: Num,
    elapsed_pct: Num,
    available_cash: Num,
)
    requires
        state.rescue_spent_usd.gt(eps()),
        ({
            let gap = profit_increment(config, win_state, winner, ask);
            let enter = enter_bar(config.j_endgame, ask, gz);
            let spent = state.rescue_spent_usd;
            let target = target_exposure(config, spent, gap, gz, confidence, enter, ask);
            let left = rescue_left(config, spent, win_state.spent, available_cash);
            ((target - spent).clamp(Num::zero(), left) + eps()).lt(
                config.j_endgame.effective_min_increment_usd(&config.session),
            )
        }),
    ensures
        composite_plan(
            config,
            state,
            win_state,
            winner,
            ask,
            gz,
            confidence,
            elapsed_pct,
            available_cash,
        ) is None,
{
}

/// A composite clip buys the current winner, costs no more than the money left, the room
/// under the exposure cap and the clip cap allow, and pays no more than the ask and the
/// taker limit.
pub proof fn law_composite_within_limits(
    config: Config,
    state: JWindowState,
    win_state: WindowState,
    winner: Seq<char>,
    ask: Num,
    gz: Num,
    confidence: Num,
    elapsed_pct: Num,
    available_cash: Num,
)
    requires
        nonneg(state.rescue_spent_usd),
    ensures
        composite_plan(
            config,
            state,
            win_state,
            winner,
            ask,
            gz,
            confidence,
            elapsed_pct,
            available_cash,
        ) matches Some(plan) ==> {
            let remaining = rescue_left(
                config,
                state.rescue_spent_usd,
                win_state.spent,
                available_cash,
            );
            &&& plan.side == winner
            &&& plan.tier == EndgameTier::FinalSeal
            &&& plan.clip_usd == plan.budget_left
            &&& plan.clip_usd.le(remaining)
            &&& plan.clip_usd.le(
                (exposure_cap(config, ask) - state.rescue_spent_usd).max(Num::zero()),
            )
            &&& !plan.clip_usd.gt(
                clip_cap(config, state.rescue_spent_usd, gz, ask, elapsed_pct),
            )
            &&& !plan.max_pay.gt(ask)
            &&& !plan.max_pay.gt(config.j_endgame.taker_max_ask)
            &&& !confidence.lt(enter_bar(config.j_endgame, ask, gz))
        },
{
    if composite_plan(
        config,
        state,
        win_state,
        winner,
        ask,
        gz,
        confidence,
        elapsed_pct,
        available_cash,
    ) is Some {
        let spent = state.rescue_spent_usd;
        crate::j_controller::lemma_cap_is_number(config, ask);
        crate::j_controller::law_rescue_left_nonneg(
            config,
            spent,
            win_state.spent,
            available_cash,
            ask,
        );
        let gap = profit_increment(config, win_state, winner, ask);
        let enter = enter_bar(config.j_endgame, ask, gz);
        let t = target_exposure(config, spent, gap, gz, confidence, enter, ask);
        let cap = exposure_cap(config, ask);
        assert(!t.is_nan());
        lemma_sub_shrinks(t, spent);
        lemma_sub_shrinks(cap, spent);
        lemma_negated(spent);
        if t.is_finite() && cap.is_finite() {
            lemma_add_mono(t, cap, spent.negated());
        } else {
            reveal(Num::spec_add);
        }
    }
}

/// The wanted exposure never exceeds the cap at the ask, nor the rescue limit.
pub proof fn law_target_under_caps(
    config: Config,
    rescue_spent: Num,
    gap: Num,
    gz: Num,
    confidence: Num,
    enter: Num,
    ask: Num,
)
    ensures
        ({
            let t = target_exposure(config, rescue_spent, gap, gz, confidence, enter, ask);
            &&& t.le(exposure_cap(config, ask))
            &&& exposure_cap(config, ask).le(tail_cap(config, ask))
            &&& !exposure_cap(config, ask).gt(
                config.j_endgame.effective_max_rescue_usd(&config.session),
            )
        }),
{
    crate::j_controller::lemma_cap_is_number(config, ask);
}

/// Above an ask of 0.97 nothing is bought on the winner.
pub proof fn law_no_composite_above_97(
    config: Config,
    state: JWindowState,
    win_state: WindowState,
    winner: Seq<char>,
    ask: Num,
    gz: Num,
    confidence: Num,
    elapsed_pct: Num,
    available_cash: Num,
)
    requires
        ask.gt(Num::ratio(97, 100)),
    ensures
        composite_plan(
            config,
            state,
            win_state,
            winner,
            ask,
            gz,
            confidence,
            elapsed_pct,
            available_cash,
        ) is None,
{
    lemma_ratio_mono(70, 100, 97, 100);
    lemma_ratio_mono(88, 100, 97, 100);
    lemma_ratio_mono(94, 100, 97, 100);
    lemma_ratio_nonneg(1, 1_000_000_000);
    assert(tail_cap(config, ask) == Num::zero());
}

/// A fresh entry at an expensive ask needs a strong gap.
pub proof fn law_no_fresh_expensive_entry(
    config: Config,
    state: JWindowState,
    win_state: WindowState,
    winner: Seq<char>,
    ask: Num,
    gz: Num,
    confidence: Num,
    elapsed_pct: Num,
    available_cash: Num,
)
    requires
        state.rescue_spent_usd.lt(eps()),
        ask.gt(config.j_endgame.expensive_ask_threshold),
        (gz.abs() + eps()).lt(config.j_endgame.expensive_min_gap_z),
    ensures
        composite_plan(
            config,
            state,
            win_state,
            winner,
            ask,
            gz,
            confidence,
            elapsed_pct,
            available_cash,
        ) is None,
{
}

/// The first clip of a window is no larger than the first-clip size, or the probe where
/// that is larger.
pub proof fn law_first_clip_is_capped(
    config: Config,
    rescue_spent: Num,
    gz: Num,
    ask: Num,
    elapsed_pct: Num,
)
    requires
        rescue_spent.lt(eps()),
    ensures
        clip_cap(config, rescue_spent, gz, ask, elapsed_pct)
            == config.j_endgame.effective_first_clip_usd(&config.session).max(
            config.j_endgame.effective_probe_clip_usd(&config.session).max(eps()),
        ),
{
}

/// A reload buys only the committed side, only while it wins, and within the money left
/// for reloads.
pub proof fn law_reload_only_on_winner(
    config: Config,
    state: JWindowState,
    win_state: WindowState,
    current_winner: Seq<char>,
    ask: Num,
    gz: Num,
    available_cash: Num,
)
    ensures
        state.primary() != Some(current_winner) ==> reload_plan(
            config,
            state,
            win_state,
            current_winner,
            ask,
            gz,
            available_cash,
        ) is None,
        reload_plan(config, state, win_state, current_winner, ask, gz, available_cash) matches Some(
            plan,
        ) ==> {
            &&& state.primary() == Some(plan.side)
            &&& plan.clip_usd.le(
                reload_left(config, state, win_state.spent, ask, available_cash),
            )
            &&& state.discount_reload_clips < config.j_endgame.discount_reload_max_clips
        },
{
}

/// A hedge buys the side opposite to the committed one, within a budget that never
/// exceeds the hedge limit.
pub proof fn law_hedge_is_opposite_and_capped(
    config: Config,
    state: JWindowState,
    current_winner: Seq<char>,
    gz: Num,
    prices: PricesState,
    mid_cross: MidCrossSnapshot,
)
    ensures
        !hedge_cap(config, state).gt(
            config.j_endgame.effective_flip_tier_max_usd(&config.session),
        ),
        hedge_plan(config, state, current_winner, gz, prices, mid_cross) matches Some(plan) ==> {
            &&& state.primary() is Some
            &&& plan.side == opposite(state.primary()->0)
            &&& plan.tier == EndgameTier::FlipHedge
            &&& plan.budget_left == hedge_cap(config, state) - state.hedge_spent_usd
            &&& !plan.clip_usd.gt(plan.budget_left)
            &&& !plan.max_pay.gt(config.j_endgame.flip_max_ask)
            &&& state.has_primary_exposure()
        },
{
}

/// The hedge comes before any buy on the winner.
pub proof fn law_hedge_first(
    config: Config,
    state: JWindowState,
    win_state: WindowState,
    prices: PricesState,
    current_winner: Seq<char>,
    gz: Num,
    elapsed_pct: Num,
    mid_cross: MidCrossSnapshot,
    allow_directional: bool,
    confidence: Num,
    available_cash: Num,
)
    requires
        hedge_plan(config, state, current_winner, gz, prices, mid_cross) is Some,
    ensures
        endgame_plan(
            config,
            state,
            win_state,
            prices,
            current_winner,
            gz,
            elapsed_pct,
            mid_cross,
            allow_directional,
            confidence,
            available_cash,
        ) == hedge_plan(config, state, current_winner, gz, prices, mid_cross),
{
}

/// Nothing is bought while the tracker warms up or in mid-window, and insurance is never
/// bought where it is switched off.
pub proof fn law_quiet_phases(
    config: Config,
    state: JWindowState,
    win_state: WindowState,
    prices: PricesState,
    spot: Num,
    ptb: Num,
    secs_to_end: i64,
    elapsed_pct: Num,
    current_atr: Num,
    min_atr: Num,
    mid_cross: MidCrossSnapshot,
    allow_directional: bool,
    confidence: Num,
    available_cash: Num,
)
    ensures
        ({
            let plan = window_plan(
                config,
                state,
                win_state,
                prices,
                spot,
                ptb,
                secs_to_end,
                elapsed_pct,
                current_atr,
                min_atr,
                mid_cross,
                allow_directional,
                confidence,
                available_cash,
            );
            let phase = phase_of(elapsed_pct, secs_to_end, config.j_endgame, mid_cross);
            &&& phase == JWindowPhase::Warmup || phase == JWindowPhase::MidWindow ==> plan is None
            &&& !config.j_endgame.insurance_enabled ==> phase != JWindowPhase::Insurance
            &&& !config.j_endgame.insurance_enabled ==> (plan matches Some(p) ==> p.tier
                != EndgameTier::Insurance)
            &&& (plan matches Some(p) ==> (p.tier == EndgameTier::Insurance <==> phase
                == JWindowPhase::Insurance))
        }),
{
}

/// A size under bank sizing stays between its clamps, any size is at least zero.
pub proof fn law_sized_within_clamps(
    cfg: JEndgameConfig,
    session: SessionConfig,
    fixed: Num,
    pct: Num,
    min_fix: Num,
    max_fix: Num,
)
    ensures
        ({
            let r = cfg.spec_sized_usd(session, fixed, pct, min_fix, max_fix);
            let lo = min_fix.max(cfg.min_trade_usd.max(Num::one()));
            let hi = max_fix.max(lo);
            &&& !cfg.bank_sizing_enabled ==> r.ge(Num::zero())
            &&& cfg.bank_sizing_enabled ==> lo.ge(Num::one()) && (r.is_nan() || within(r, lo, hi))
        }),
{
}

/// Where nothing vetoes and the gap is safe, the confidence is at least 0.58.
pub proof fn law_safe_gap_is_trusted(
    cfg: JEndgameConfig,
    winner: Seq<char>,
    gz: Num,
    spot_sig: SpotSignalSnapshot,
    mid_cross: MidCrossSnapshot,
    cex: CexMicroSnapshot,
    tape: TradeTapeSnapshot,
)
    requires
        !gap_score(cfg, gz).le(Num::zero()),
        !book_contradicts(cfg, winner, mid_cross),
        !weight_sum(cfg).le(Num::zero()),
        nonneg(full_gap(cfg)),
        (full_gap(cfg) * Num::ratio(125, 100)).is_finite(),
        gz.abs().ge(full_gap(cfg) * Num::ratio(75, 100)),
    ensures
        confidence_of(cfg, winner, gz, spot_sig, mid_cross, cex, tape).ge(Num::ratio(58, 100)),
{
    let full = full_gap(cfg);
    let lo = full * Num::ratio(75, 100);
    let hi = full * Num::ratio(125, 100);
    let t = ramp(gz.abs(), lo, hi);
    lemma_ratio_one();
    lemma_ratio_mono(75, 100, 1, 1);
    lemma_ratio_nonneg(75, 100);
    lemma_mul_share(Num::ratio(75, 100), full);
    law_ramp_is_share(gz.abs(), lo, hi);
    lemma_ratio_mono(38, 100, 1, 1);
    lemma_ratio_nonneg(38, 100);
    lemma_mul_share(t, Num::ratio(38, 100));
    lemma_ratio_mono(58, 100, 1, 1);
    lemma_ratio_nonneg(58, 100);
    lemma_add_grows(Num::ratio(58, 100), Num::ratio(38, 100) * t);
}

/// A composite clip stays within what the window may still spend: with it the money spent
/// in the window reaches at most the window's limit, up to the rounding of one subtraction.
pub proof fn law_clip_stays_within_window(
    config: Config,
    state: JWindowState,
    win_state: WindowState,
    winner: Seq<char>,
    ask: Num,
    gz: Num,
    confidence: Num,
    elapsed_pct: Num,
    available_cash: Num,
)
    requires
        state.rescue_spent_usd.is_finite(),
        nonneg(win_state.spent),
        nonneg(config.j_endgame.effective_max_usd_per_window(&config.session)),
        win_state.spent.le(config.j_endgame.effective_max_usd_per_window(&config.session)),
        composite_plan(
            config,
            state,
            win_state,
            winner,
            ask,
            gz,
            confidence,
            elapsed_pct,
            available_cash,
        ) is Some,
    ensures
        ({
            let plan = composite_plan(
                config,
                state,
                win_state,
                winner,
                ask,
                gz,
                confidence,
                elapsed_pct,
                available_cash,
            )->0;
            let limit = config.j_endgame.effective_max_usd_per_window(&config.session);
            let left = exact(limit) - exact(win_state.spent);
            &&& plan.clip_usd.le(limit - win_state.spent)
            &&& plan.clip_usd.is_finite() ==> exact(win_state.spent) + exact(plan.clip_usd)
                <= exact(limit) + left / parts()
        }),
{
    let cfg = config.j_endgame;
    let spent = state.rescue_spent_usd;
    let limit = cfg.effective_max_usd_per_window(&config.session);
    let left = limit - win_state.spent;
    let enter = enter_bar(cfg, ask, gz);
    let remaining = rescue_left(config, spent, win_state.spent, available_cash);
    let gap = profit_increment(config, win_state, winner, ask);
    let target = target_exposure(config, spent, gap, gz, confidence, enter, ask);
    lemma_sub_nonneg(limit, win_state.spent);
    lemma_sub_finite(limit, win_state.spent);
    lemma_sub_error(limit, win_state.spent);
    lemma_exact_order(win_state.spent, limit);
    assert(!target.is_nan());
    assert(!(target - spent).is_nan()) by {
        lemma_negated(spent);
        if target.is_finite() {
            lemma_add_key(target, spent.negated());
        } else {
            reveal(Num::spec_add);
        }
    }
    assert(!remaining.is_nan() && remaining.le(left));
    let increment = (target - spent).clamp(Num::zero(), remaining);
    assert(!increment.is_nan() && increment.le(left));
    let clip = increment.min(clip_cap(config, spent, gz, ask, elapsed_pct));
    if clip.is_finite() {
        lemma_exact_order(clip, left);
    }
}

/// The dearer the ask, the less may be deployed on the winner, where the caps are set so.
pub proof fn law_exposure_cap_falls(config: Config, a1: Num, a2: Num)
    requires
        Num::zero().lt(a1),
        a1.le(a2),
        a2.is_finite(),
        ({
            let (j, s) = (config.j_endgame, &config.session);
            &&& j.effective_tail_cap_ask88_usd(s).le(j.effective_tail_cap_ask70_usd(s))
            &&& j.effective_tail_cap_ask94_usd(s).le(j.effective_tail_cap_ask88_usd(s))
            &&& j.effective_tail_cap_ask97_usd(s).le(j.effective_tail_cap_ask94_usd(s))
        }),
        !config.j_endgame.effective_max_rescue_usd(&config.session).is_nan(),
    ensures
        tail_cap(config, a2).le(tail_cap(config, a1)),
        exposure_cap(config, a2).le(exposure_cap(config, a1)),
{
}

/// The hedge's budget does not shrink when more is committed, and is at least its share of
/// the committed money and at least the tier's own budget, as far as the cap allows.
pub proof fn law_hedge_budget_grows(config: Config, less: JWindowState, more: JWindowState)
    requires
        nonneg(less.primary_exposure_usd()),
        nonneg(more.primary_exposure_usd()),
        less.primary_exposure_usd().le(more.primary_exposure_usd()),
        nonneg(config.j_endgame.flip_hedge_exposure_ratio),
        !config.j_endgame.effective_flip_tier_usd(&config.session).is_nan(),
        !config.j_endgame.effective_flip_tier_max_usd(&config.session).is_nan(),
    ensures
        hedge_cap(config, less).le(hedge_cap(config, more)),
        ({
            let (j, s) = (config.j_endgame, &config.session);
            let top = j.effective_flip_tier_max_usd(s);
            let share = more.primary_exposure_usd() * j.flip_hedge_exposure_ratio;
            &&& hedge_cap(config, more).le(top)
            &&& hedge_cap(config, more).ge(share.min(top))
            &&& hedge_cap(config, more).ge(j.effective_flip_tier_usd(s).min(top))
        }),
{
    let ratio = config.j_endgame.flip_hedge_exposure_ratio;
    let (a, b) = (less.primary_exposure_usd(), more.primary_exposure_usd());
    lemma_mul_mag(a, ratio);
    lemma_mul_mag(b, ratio);
    lemma_mul_mag(ratio, a);
    lemma_mul_mag(ratio, b);
    lemma_mul_mono(ratio, a, b);
    let (ua, ub, ur) = (
        crate::rounding::units(a.mag()),
        crate::rounding::units(b.mag()),
        crate::rounding::units(ratio.mag()),
    );
    assert(ua * ur == ur * ua && ub * ur == ur * ub) by (nonlinear_arith);
}

/// The other side's lead.
pub open spec fn mirrored_side(side: Option<LeadSide>) -> Option<LeadSide> {
    match side {
        Some(LeadSide::Up) => Some(LeadSide::Down),
        Some(LeadSide::Down) => Some(LeadSide::Up),
        other => other,
    }
}

/// The spot's signal with its velocity turned round.
pub open spec fn mirrored_signal(s: SpotSignalSnapshot) -> SpotSignalSnapshot {
    SpotSignalSnapshot {
        smoothed_velocity_usd_per_sec: match s.smoothed_velocity_usd_per_sec {
            Some(v) => Some(v.negated()),
            None => None,
        },
        ..s
    }
}

/// The book with its lead on the other side.
pub open spec fn mirrored_book(m: MidCrossSnapshot) -> MidCrossSnapshot {
    MidCrossSnapshot { current_side: mirrored_side(m.current_side), ..m }
}

/// The exchange's flow with buys and sells exchanged.
pub open spec fn mirrored_flow(c: CexMicroSnapshot) -> CexMicroSnapshot {
    CexMicroSnapshot { buy_sell_imbalance_3s: c.buy_sell_imbalance_3s.negated(), ..c }
}

/// The tape with the buys of the two outcomes exchanged.
pub open spec fn mirrored_tape(t: TradeTapeSnapshot) -> TradeTapeSnapshot {
    TradeTapeSnapshot { up_buy_usd: t.down_buy_usd, down_buy_usd: t.up_buy_usd, ..t }
}

pub(crate) proof fn lemma_product_of_negated(a: Num, b: Num)
    ensures
        a.negated() * b.negated() == a * b,
{
    reveal(Num::spec_mul);
}

/// Zero, and no other magnitude, has no units.
pub(crate) proof fn lemma_no_units(mag: int)
    requires
        0 <= mag <= INF_BITS,
    ensures
        units(mag) == 0 <==> mag == 0,
{
    assert(units(0) == 0) by {
        assert(sig(0) * pow2(expo(0)) == 0) by (nonlinear_arith)
            requires
                sig(0) == 0,
        ;
    }
    lemma_encode_exact(mag, 1);
    lemma_encode_exact(0, 1);
    assert(units(mag) * 1 == units(mag));
}

/// The same number, where the two zeros are one.
pub open spec fn same_number(a: Num, b: Num) -> bool {
    a == b || a.mag() == 0 && b.mag() == 0
}

proof fn lemma_same_product(a: Num, x: Num, y: Num)
    requires
        same_number(x, y),
    ensures
        same_number(a * x, a * y),
        same_number(x * a, y * a),
{
    if x != y {
        reveal(Num::spec_mul);
        lemma_no_units(0);
        lemma_pow2_pos(1074);
        lemma_encode_exact(0, pow2(1074) as int);
        assert(0 * pow2(1074) == 0);
        assert(units(a.mag()) * 0 == 0 && 0 * units(a.mag()) == 0);
    }
}

proof fn lemma_same_sum(a: Num, x: Num, y: Num)
    requires
        same_number(x, y),
    ensures
        same_number(a + x, a + y),
        same_number(x + a, y + a),
{
    if x != y {
        reveal(Num::spec_add);
        lemma_no_units(0);
        if a.is_finite() {
            lemma_no_units(a.mag());
        }
    }
}

proof fn lemma_same_quotient(x: Num, y: Num, d: Num)
    requires
        same_number(x, y),
    ensures
        same_number(x / d, y / d),
{
    if x != y {
        reveal(Num::spec_div);
        if d.is_finite() && d.mag() > 0 {
            lemma_div_mag(x, d);
            lemma_div_mag(y, d);
        }
    }
}

proof fn lemma_same_max(x: Num, y: Num, a: Num, b: Num)
    requires
        same_number(x, y),
        same_number(a, b),
    ensures
        same_number(x.max(a), y.max(b)),
{
}

/// Without a velocity the momentum scores a zero, toward either side.
pub(crate) proof fn lemma_no_momentum(cfg: JEndgameConfig, winner: Seq<char>, s: SpotSignalSnapshot)
    requires
        s.smoothed_velocity_usd_per_sec is None,
    ensures
        momentum_score(cfg, winner, s).mag() == 0,
{
    let x = Num::zero() * direction(winner);
    let small = Num::ratio(1, 1_000_000);
    let hi = cfg.mom_full_vel_usd_per_sec.max(small);
    lemma_billionth();
    lemma_ratio_nonneg(1, 1_000_000);
    lemma_ratio_mono(1, 1_000_000_000, 1, 1_000_000);
    assert(small.gt(Num::zero()));
    reveal(Num::spec_mul);
    lemma_mul_mag(Num::zero(), direction(winner));
    lemma_no_units(0);
    assert(0 * pow2(1074) == 0);
    assert(units(Num::zero().mag()) * units(direction(winner).mag()) == 0) by (nonlinear_arith)
        requires
            units(Num::zero().mag()) == 0,
    ;
    lemma_pow2_pos(1074);
    lemma_encode_exact(0, pow2(1074) as int);
    assert(x.mag() == 0);
    let n = x - Num::zero();
    assert(n.mag() == 0) by {
        reveal(Num::spec_add);
    }
    if hi.is_finite() {
        lemma_sub_pos(hi, Num::zero());
        lemma_sub_shrinks(hi, Num::zero());
        lemma_div_mag(n, hi - Num::zero());
    } else {
        reveal(Num::spec_add);
        reveal(Num::spec_div);
        assert(hi - Num::zero() == hi);
    }
}

/// Confidence knows no favourite: with the gap, the velocity and the flow turned round, the
/// book's lead and the tape's buys on the other side, DOWN is as sure as UP was. Where
/// there is a velocity the two agree to the bit; where there is none, up to the sign of a
/// zero.
pub proof fn law_confidence_is_mirrored(
    cfg: JEndgameConfig,
    gz: Num,
    s: SpotSignalSnapshot,
    m: MidCrossSnapshot,
    c: CexMicroSnapshot,
    t: TradeTapeSnapshot,
)
    ensures
        ({
            let up = confidence_of(cfg, "UP"@, gz, s, m, c, t);
            let down = confidence_of(
                cfg,
                "DOWN"@,
                gz.negated(),
                mirrored_signal(s),
                mirrored_book(m),
                mirrored_flow(c),
                mirrored_tape(t),
            );
            &&& same_number(up, down)
            &&& s.smoothed_velocity_usd_per_sec is Some ==> up == down
        }),
{
    reveal_strlit("UP");
    reveal_strlit("DOWN");
    assert("UP"@.len() != "DOWN"@.len());
    assert(gz.negated().abs() == gz.abs());
    let (s2, m2, c2, t2) = (mirrored_signal(s), mirrored_book(m), mirrored_flow(c), mirrored_tape(t));
    let gap = gap_score(cfg, gz);
    let (mom, mom2) = (momentum_score(cfg, "UP"@, s), momentum_score(cfg, "DOWN"@, s2));
    let book = book_score(cfg, "UP"@, m);
    let flow = flow_score("UP"@, c, t);
    assert(book == book_score(cfg, "DOWN"@, m2));
    assert(book_contradicts(cfg, "UP"@, m) == book_contradicts(cfg, "DOWN"@, m2));
    assert(tape_balance("UP"@, t) == tape_balance("DOWN"@, t2));
    lemma_product_of_negated(c.buy_sell_imbalance_3s, Num::one());
    assert(flow == flow_score("DOWN"@, c2, t2));
    match s.smoothed_velocity_usd_per_sec {
        Some(v) => {
            lemma_product_of_negated(v, Num::one());
            assert(mom == mom2);
        },
        None => {
            lemma_no_momentum(cfg, "UP"@, s);
            lemma_no_momentum(cfg, "DOWN"@, s2);
            lemma_same_blend(cfg, gap, mom, mom2, book, flow);
            let (b1, b2) = (blend(cfg, gap, mom, book, flow), blend(cfg, gap, mom2, book, flow));
            lemma_same_product(Num::ratio(28, 100), b1, b2);
            lemma_same_sum(
                gap * Num::ratio(72, 100),
                b1 * Num::ratio(28, 100),
                b2 * Num::ratio(28, 100),
            );
            lemma_same_max(
                b1,
                b2,
                gap * Num::ratio(72, 100) + b1 * Num::ratio(28, 100),
                gap * Num::ratio(72, 100) + b2 * Num::ratio(28, 100),
            );
            let full = full_gap(cfg);
            let floor = Num::ratio(58, 100) + Num::ratio(38, 100) * ramp(
                gz.abs(),
                full * Num::ratio(75, 100),
                full * Num::ratio(125, 100),
            );
            lemma_same_max(gap_trust(b1, gap), gap_trust(b2, gap), floor, floor);
        },
    }
}

proof fn lemma_same_blend(cfg: JEndgameConfig, gap: Num, x: Num, y: Num, book: Num, flow: Num)
    requires
        same_number(x, y),
    ensures
        same_number(blend(cfg, gap, x, book, flow), blend(cfg, gap, y, book, flow)),
{
    let (g, b, f) = (cfg.conf_w_gap * gap, cfg.conf_w_book * book, cfg.conf_w_flow * flow);
    let (mx, my) = (cfg.conf_w_mom * x, cfg.conf_w_mom * y);
    lemma_same_product(cfg.conf_w_mom, x, y);
    lemma_same_sum(g, mx, my);
    lemma_same_sum(b, g + mx, g + my);
    lemma_same_sum(f, g + mx + b, g + my + b);
    lemma_same_quotient(g + mx + b + f, g + my + b + f, weight_sum(cfg));
}

} // verus!
