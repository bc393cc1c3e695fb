//! What the confidence in a side follows from.
use crate::cex_micro::CexMicroSnapshot;
use crate::config::JEndgameConfig;
use crate::j_controller::{
    blend, book_contradicts, book_score, calm, confidence_of, direction, flow_score, full_gap,
    gap_score, gap_trust, momentum_score, ramp, safe_boost, tape_balance, weight_sum,
};
use crate::j_laws::{
    law_confidence_is_share, law_ramp_full_above, law_ramp_is_share, law_ramp_rises,
    law_ramp_zero_below, lemma_blend_share, lemma_boost_share, lemma_calm_share, lemma_flow_share,
    lemma_product_of_negated, lemma_trust_share, lemma_uint_finite, sound_flow, sound_scores,
};
use crate::mid_cross_tracker::{LeadSide, MidCrossSnapshot};
use crate::num::Num;
use crate::num_error::{lemma_billionth, lemma_one_times, lemma_sub_finite};
use crate::num_laws::{
    lemma_add_grows, lemma_add_key, lemma_add_mono, lemma_add_nonneg, lemma_complements,
    lemma_div_mag, lemma_div_mono, lemma_div_order, lemma_div_share, lemma_mul_comm, lemma_mul_mono,
    lemma_mul_order, lemma_mul_share, lemma_mul_share_finite, lemma_negated, lemma_ratio_one,
    lemma_self_difference, lemma_self_quotient, lemma_sub_mono, lemma_sub_nonneg, lemma_sub_shrinks,
    lemma_sum_mono, lemma_zero_product, lemma_zero_sum, nonneg, unit,
};
use crate::num_ops::{lemma_ratio_mono, lemma_ratio_nonneg, lemma_uint_is_ratio};
use crate::rounding::encode;
use crate::strategy::{SpotSignalSnapshot, TradeTapeSnapshot};
use vstd::arithmetic::power2::pow2;
use vstd::prelude::*;

verus! {

proof fn lemma_sides()
    ensures
        "UP"@ != "DOWN"@,
{
    reveal_strlit("UP");
    reveal_strlit("DOWN");
    assert("UP"@.len() != "DOWN"@.len());
}

/// A number toward UP is itself, toward DOWN its opposite.
proof fn lemma_toward(x: Num)
    requires
        x.is_finite(),
    ensures
        x * direction("UP"@) == x,
        x * direction("DOWN"@) == x.negated(),
{
    lemma_sides();
    lemma_one_times(x);
    lemma_mul_comm(x, Num::one());
    let y = x.negated();
    lemma_negated(x);
    lemma_one_times(y);
    lemma_mul_comm(y, Num::one());
    lemma_product_of_negated(y, Num::one());
    assert(y.negated() == x);
}

pub(crate) proof fn lemma_scores_are_shares(
    cfg: JEndgameConfig,
    winner: Seq<char>,
    gz: Num,
    s: SpotSignalSnapshot,
    m: MidCrossSnapshot,
    c: CexMicroSnapshot,
    t: TradeTapeSnapshot,
)
    requires
        sound_scores(cfg),
        sound_flow(c, t),
    ensures
        unit(gap_score(cfg, gz)),
        unit(momentum_score(cfg, winner, s)),
        unit(book_score(cfg, winner, m)),
        unit(flow_score(winner, c, t)),
        nonneg(full_gap(cfg)),
{
    let v = match s.smoothed_velocity_usd_per_sec {
        Some(v) => v,
        None => Num::zero(),
    };
    law_ramp_is_share(gz.abs(), cfg.final_seal_min_gap_z, full_gap(cfg));
    law_ramp_is_share(
        v * direction(winner),
        Num::zero(),
        cfg.mom_full_vel_usd_per_sec.max(Num::ratio(1, 1_000_000)),
    );
    lemma_calm_share(cfg, m);
    law_ramp_is_share(m.lead_gap, Num::zero(), cfg.book_full_lead_gap);
    lemma_mul_share(ramp(m.lead_gap, Num::zero(), cfg.book_full_lead_gap), calm(cfg, m));
    lemma_flow_share(winner, c, t);
    lemma_ratio_nonneg(1, 1_000_000);
    lemma_ratio_one();
    lemma_ratio_mono(1, 1_000_000, 1, 1);
    lemma_add_nonneg(cfg.final_seal_min_gap_z, Num::ratio(1, 1_000_000));
}

/// Where the gap is not narrower, no score is lower and no new veto speaks, the confidence
/// is not lower.
proof fn lemma_confidence_grows(
    cfg: JEndgameConfig,
    w1: Seq<char>,
    g1: Num,
    s1: SpotSignalSnapshot,
    m1: MidCrossSnapshot,
    c1: CexMicroSnapshot,
    t1: TradeTapeSnapshot,
    w2: Seq<char>,
    g2: Num,
    s2: SpotSignalSnapshot,
    m2: MidCrossSnapshot,
    c2: CexMicroSnapshot,
    t2: TradeTapeSnapshot,
)
    requires
        sound_scores(cfg),
        sound_flow(c1, t1),
        sound_flow(c2, t2),
        g1.is_finite(),
        g2.is_finite(),
        g1.abs().le(g2.abs()),
        momentum_score(cfg, w1, s1).le(momentum_score(cfg, w2, s2)),
        book_score(cfg, w1, m1).le(book_score(cfg, w2, m2)),
        flow_score(w1, c1, t1).le(flow_score(w2, c2, t2)),
        book_contradicts(cfg, w2, m2) ==> book_contradicts(cfg, w1, m1),
    ensures
        confidence_of(cfg, w1, g1, s1, m1, c1, t1).le(confidence_of(cfg, w2, g2, s2, m2, c2, t2)),
{
    let full = full_gap(cfg);
    lemma_scores_are_shares(cfg, w1, g1, s1, m1, c1, t1);
    lemma_scores_are_shares(cfg, w2, g2, s2, m2, c2, t2);
    law_confidence_is_share(cfg, w1, g1, s1, m1, c1, t1);
    law_confidence_is_share(cfg, w2, g2, s2, m2, c2, t2);
    law_ramp_rises(g1.abs(), g2.abs(), cfg.final_seal_min_gap_z, full);
    let (a1, a2) = (gap_score(cfg, g1), gap_score(cfg, g2));
    let (b1, b2) = (momentum_score(cfg, w1, s1), momentum_score(cfg, w2, s2));
    let (d1, d2) = (book_score(cfg, w1, m1), book_score(cfg, w2, m2));
    let (f1, f2) = (flow_score(w1, c1, t1), flow_score(w2, c2, t2));
    if !(a1.le(Num::zero()) || book_contradicts(cfg, w1, m1) || weight_sum(cfg).le(Num::zero())) {
        lemma_blend_share(cfg, a1, b1, d1, f1);
        lemma_blend_share(cfg, a2, b2, d2, f2);
        lemma_blend_grows(cfg, a1, b1, d1, f1, a2, b2, d2, f2);
        let (x1, x2) = (blend(cfg, a1, b1, d1, f1), blend(cfg, a2, b2, d2, f2));
        lemma_trust_share(x1, a1);
        lemma_trust_share(x2, a2);
        lemma_trust_grows(x1, a1, x2, a2);
        lemma_boost_grows(gap_trust(x1, a1), g1, gap_trust(x2, a2), g2, full);
    }
}

proof fn lemma_blend_grows(
    cfg: JEndgameConfig,
    a1: Num,
    b1: Num,
    d1: Num,
    f1: Num,
    a2: Num,
    b2: Num,
    d2: Num,
    f2: Num,
)
    requires
        nonneg(cfg.conf_w_gap),
        nonneg(cfg.conf_w_mom),
        nonneg(cfg.conf_w_book),
        nonneg(cfg.conf_w_flow),
        weight_sum(cfg).is_finite(),
        weight_sum(cfg).gt(Num::zero()),
        unit(a1) && unit(b1) && unit(d1) && unit(f1),
        unit(a2) && unit(b2) && unit(d2) && unit(f2),
        a1.le(a2) && b1.le(b2) && d1.le(d2) && f1.le(f2),
    ensures
        blend(cfg, a1, b1, d1, f1).le(blend(cfg, a2, b2, d2, f2)),
{
    let (g, m, b, f) = (cfg.conf_w_gap, cfg.conf_w_mom, cfg.conf_w_book, cfg.conf_w_flow);
    lemma_mul_mono(g, a1, a2);
    lemma_mul_mono(m, b1, b2);
    lemma_mul_mono(b, d1, d2);
    lemma_mul_mono(f, f1, f2);
    lemma_mul_share(a1, g);
    lemma_mul_share(b1, m);
    lemma_mul_share(d1, b);
    lemma_mul_share(f1, f);
    lemma_mul_share(a2, g);
    lemma_mul_share(b2, m);
    lemma_mul_share(d2, b);
    lemma_mul_share(f2, f);
    let p1 = g + m;
    let p2 = p1 + b;
    lemma_add_nonneg(g, m);
    lemma_add_grows(p1, b);
    lemma_add_grows(p2, f);
    lemma_sum_mono(g * a2, g, m * b2, m);
    lemma_sum_mono(g * a2 + m * b2, p1, b * d2, b);
    lemma_sum_mono(g * a2 + m * b2 + b * d2, p2, f * f2, f);
    lemma_sum_mono(g * a1, g * a2, m * b1, m * b2);
    lemma_sum_mono(g * a1 + m * b1, g * a2 + m * b2, b * d1, b * d2);
    lemma_sum_mono(
        g * a1 + m * b1 + b * d1,
        g * a2 + m * b2 + b * d2,
        f * f1,
        f * f2,
    );
    lemma_div_mono(
        g * a1 + m * b1 + b * d1 + f * f1,
        g * a2 + m * b2 + b * d2 + f * f2,
        weight_sum(cfg),
    );
}

proof fn lemma_trust_grows(x1: Num, a1: Num, x2: Num, a2: Num)
    requires
        unit(x1) && unit(a1) && unit(x2) && unit(a2),
        x1.le(x2),
        a1.le(a2),
    ensures
        gap_trust(x1, a1).le(gap_trust(x2, a2)),
{
    lemma_complements();
    let (a, b) = (Num::ratio(72, 100), Num::ratio(28, 100));
    lemma_mul_mono(a, a1, a2);
    lemma_mul_mono(b, x1, x2);
    lemma_mul_comm(a, a1);
    lemma_mul_comm(a, a2);
    lemma_mul_comm(b, x1);
    lemma_mul_comm(b, x2);
    lemma_mul_share(a1, a);
    lemma_mul_share(a2, a);
    lemma_mul_share(x1, b);
    lemma_mul_share(x2, b);
    lemma_sum_mono(a2 * a, a, x2 * b, b);
    lemma_sum_mono(a1 * a, a2 * a, x1 * b, x2 * b);
}

proof fn lemma_boost_grows(x1: Num, g1: Num, x2: Num, g2: Num, full: Num)
    requires
        unit(x1) && unit(x2),
        x1.le(x2),
        g1.is_finite(),
        g2.is_finite(),
        g1.abs().le(g2.abs()),
        nonneg(full),
        (full * Num::ratio(125, 100)).is_finite(),
    ensures
        safe_boost(x1, g1, full).le(safe_boost(x2, g2, full)),
{
    let (lo, hi) = (full * Num::ratio(75, 100), full * Num::ratio(125, 100));
    lemma_ratio_one();
    lemma_ratio_mono(75, 100, 1, 1);
    lemma_ratio_nonneg(75, 100);
    lemma_mul_share(Num::ratio(75, 100), full);
    let (r1, r2) = (ramp(g1.abs(), lo, hi), ramp(g2.abs(), lo, hi));
    law_ramp_is_share(g1.abs(), lo, hi);
    law_ramp_is_share(g2.abs(), lo, hi);
    law_ramp_rises(g1.abs(), g2.abs(), lo, hi);
    let (a, b) = (Num::ratio(58, 100), Num::ratio(38, 100));
    lemma_complements();
    lemma_ratio_mono(58, 100, 60, 100);
    lemma_ratio_mono(38, 100, 40, 100);
    lemma_ratio_nonneg(58, 100);
    lemma_ratio_nonneg(38, 100);
    lemma_mul_mono(b, r1, r2);
    lemma_mul_share(r1, b);
    lemma_mul_share(r2, b);
    lemma_sum_mono(a, Num::ratio(60, 100), b * r2, Num::ratio(40, 100));
    lemma_sum_mono(a, a, b * r1, b * r2);
    lemma_boost_share(x1, g1, full);
    lemma_boost_share(x2, g2, full);
}

/// The momentum of two velocities, toward UP and toward DOWN.
proof fn lemma_momentum(cfg: JEndgameConfig, s1: SpotSignalSnapshot, s2: SpotSignalSnapshot)
    requires
        cfg.mom_full_vel_usd_per_sec.max(Num::ratio(1, 1_000_000)).is_finite(),
        s1.smoothed_velocity_usd_per_sec is Some,
        s2.smoothed_velocity_usd_per_sec is Some,
        (s1.smoothed_velocity_usd_per_sec->0).is_finite(),
        (s2.smoothed_velocity_usd_per_sec->0).is_finite(),
        (s1.smoothed_velocity_usd_per_sec->0).le(s2.smoothed_velocity_usd_per_sec->0),
    ensures
        momentum_score(cfg, "UP"@, s1).le(momentum_score(cfg, "UP"@, s2)),
        momentum_score(cfg, "DOWN"@, s2).le(momentum_score(cfg, "DOWN"@, s1)),
{
    let (v1, v2) = (s1.smoothed_velocity_usd_per_sec->0, s2.smoothed_velocity_usd_per_sec->0);
    let hi = cfg.mom_full_vel_usd_per_sec.max(Num::ratio(1, 1_000_000));
    lemma_toward(v1);
    lemma_toward(v2);
    lemma_negated(v1);
    lemma_negated(v2);
    law_ramp_rises(v1, v2, Num::zero(), hi);
    law_ramp_rises(v2.negated(), v1.negated(), Num::zero(), hi);
}

/// The balance of the tape lies between minus one and one.
proof fn lemma_tape_bounds(winner: Seq<char>, t: TradeTapeSnapshot)
    requires
        nonneg(t.up_buy_usd),
        nonneg(t.down_buy_usd),
    ensures
        tape_balance(winner, t).is_finite(),
        tape_balance(winner, t).abs().le(Num::one()),
{
    let (win, lose) = if winner == "UP"@ {
        (t.up_buy_usd, t.down_buy_usd)
    } else {
        (t.down_buy_usd, t.up_buy_usd)
    };
    let (sum, diff) = (win + lose, win - lose);
    lemma_add_nonneg(win, lose);
    lemma_balance(win, lose);
}

/// Two amounts' difference over their sum: at most one either way, not negative where the
/// first is not smaller, and turned round where they are exchanged.
proof fn lemma_balance(a: Num, b: Num)
    requires
        nonneg(a),
        nonneg(b),
    ensures
        (a + b).gt(Num::zero()) ==> {
            let q = (a - b) / (a + b);
            &&& q.is_finite()
            &&& q.abs().le(Num::one())
            &&& b.le(a) ==> q.key() >= 0
            &&& a.le(b) ==> q.key() <= 0
        },
        (a + b).key() == (b + a).key(),
{
    let (sum, diff) = (a + b, a - b);
    lemma_add_nonneg(a, b);
    lemma_sub_finite(a, b);
    lemma_sub_shrinks(a, b);
    lemma_add_key(a, b);
    lemma_add_key(b, a);
    // the difference lies between the opposites of the sum
    lemma_negated(b);
    lemma_add_key(a, b.negated());
    lemma_add_grows(b.negated(), a);
    lemma_add_key(b.negated(), a);
    assert(diff.key() >= -b.key());
    assert(diff.abs().le(sum));
    if sum.gt(Num::zero()) {
        if sum.is_finite() {
            lemma_div_share(diff.abs(), sum);
            lemma_div_mag(diff, sum);
            lemma_div_mag(diff.abs(), sum);
        } else {
            reveal(Num::spec_div);
        }
        if b.le(a) {
            lemma_sub_nonneg(a, b);
        }
        if a.le(b) {
            lemma_sub_mono(a, b, b, b);
            lemma_self_difference(b);
        }
        if sum.is_finite() {
            if diff.key() >= 0 {
                lemma_div_order(Num::zero(), diff, sum);
            }
            if diff.key() <= 0 {
                lemma_div_order(diff, Num::zero(), sum);
            }
        }
    }
}

/// A flow whose two halves are not lower is not lower.
proof fn lemma_flow_grows(
    w1: Seq<char>,
    c1: CexMicroSnapshot,
    t1: TradeTapeSnapshot,
    w2: Seq<char>,
    c2: CexMicroSnapshot,
    t2: TradeTapeSnapshot,
)
    requires
        sound_flow(c1, t1),
        sound_flow(c2, t2),
        (c1.buy_sell_imbalance_3s * direction(w1)).is_finite(),
        (c2.buy_sell_imbalance_3s * direction(w2)).is_finite(),
        (c1.buy_sell_imbalance_3s * direction(w1)).le(c2.buy_sell_imbalance_3s * direction(w2)),
        tape_balance(w1, t1).le(tape_balance(w2, t2)),
    ensures
        flow_score(w1, c1, t1).le(flow_score(w2, c2, t2)),
{
    let half = Num::ratio(5, 10);
    lemma_ratio_mono(5, 10, 1, 1);
    lemma_ratio_nonneg(5, 10);
    lemma_ratio_one();
    lemma_tape_bounds(w1, t1);
    lemma_tape_bounds(w2, t2);
    let (x1, x2) = (tape_balance(w1, t1), tape_balance(w2, t2));
    let (y1, y2) = (
        c1.buy_sell_imbalance_3s * direction(w1),
        c2.buy_sell_imbalance_3s * direction(w2),
    );
    lemma_mul_order(half, x1, x2);
    lemma_mul_order(half, y1, y2);
    lemma_mul_share_finite(half, x1);
    lemma_mul_share_finite(half, x2);
    lemma_mul_share_finite(half, y1);
    lemma_mul_share_finite(half, y2);
    lemma_add_mono(half * x1, half * x2, half * y1);
    lemma_add_mono(half * y1, half * y2, half * x2);
    lemma_flow_share(w1, c1, t1);
    lemma_flow_share(w2, c2, t2);
}

/// A spot that rises faster, or an exchange that buys more, does not lower the confidence in
/// UP and does not raise the confidence in DOWN. Nothing else of the two signals matters.
pub proof fn law_confidence_follows_spot_and_exchange(
    cfg: JEndgameConfig,
    gz: Num,
    s1: SpotSignalSnapshot,
    s2: SpotSignalSnapshot,
    m: MidCrossSnapshot,
    c1: CexMicroSnapshot,
    c2: CexMicroSnapshot,
    t: TradeTapeSnapshot,
)
    requires
        sound_scores(cfg),
        sound_flow(c1, t),
        sound_flow(c2, t),
        gz.is_finite(),
        s1.smoothed_velocity_usd_per_sec is Some,
        s2.smoothed_velocity_usd_per_sec is Some,
        (s1.smoothed_velocity_usd_per_sec->0).is_finite(),
        (s2.smoothed_velocity_usd_per_sec->0).is_finite(),
        (s1.smoothed_velocity_usd_per_sec->0).le(s2.smoothed_velocity_usd_per_sec->0),
        c1.buy_sell_imbalance_3s.le(c2.buy_sell_imbalance_3s),
    ensures
        confidence_of(cfg, "UP"@, gz, s1, m, c1, t).le(
            confidence_of(cfg, "UP"@, gz, s2, m, c2, t),
        ),
        confidence_of(cfg, "DOWN"@, gz, s2, m, c2, t).le(
            confidence_of(cfg, "DOWN"@, gz, s1, m, c1, t),
        ),
{
    let (up, down) = ("UP"@, "DOWN"@);
    lemma_momentum(cfg, s1, s2);
    let (i1, i2) = (c1.buy_sell_imbalance_3s, c2.buy_sell_imbalance_3s);
    lemma_toward(i1);
    lemma_toward(i2);
    lemma_negated(i1);
    lemma_negated(i2);
    lemma_tape_bounds(up, t);
    lemma_tape_bounds(down, t);
    lemma_flow_grows(up, c1, t, up, c2, t);
    lemma_flow_grows(down, c2, t, down, c1, t);
    lemma_scores_are_shares(cfg, up, gz, s1, m, c1, t);
    lemma_scores_are_shares(cfg, down, gz, s1, m, c1, t);
    lemma_confidence_grows(cfg, up, gz, s1, m, c1, t, up, gz, s2, m, c2, t);
    lemma_confidence_grows(cfg, down, gz, s2, m, c2, t, down, gz, s1, m, c1, t);
}

/// Momentum counts only toward the winner: a spot that stands still or moves away scores
/// nothing, one that moves toward it with at least the full speed scores one.
pub proof fn law_momentum_counts_toward_the_winner(
    cfg: JEndgameConfig,
    s: SpotSignalSnapshot,
)
    requires
        cfg.mom_full_vel_usd_per_sec.max(Num::ratio(1, 1_000_000)).is_finite(),
        s.smoothed_velocity_usd_per_sec is Some,
        (s.smoothed_velocity_usd_per_sec->0).is_finite(),
    ensures
        ({
            let v = s.smoothed_velocity_usd_per_sec->0;
            let (up, down) = (momentum_score(cfg, "UP"@, s), momentum_score(cfg, "DOWN"@, s));
            let full = cfg.mom_full_vel_usd_per_sec.max(Num::ratio(1, 1_000_000));
            &&& v.le(Num::zero()) ==> up.mag() == 0
            &&& v.ge(Num::zero()) ==> down.mag() == 0
            &&& v.ge(full) ==> up == Num::one()
            &&& v.negated().ge(full) ==> down == Num::one()
        }),
{
    let v = s.smoothed_velocity_usd_per_sec->0;
    let full = cfg.mom_full_vel_usd_per_sec.max(Num::ratio(1, 1_000_000));
    lemma_toward(v);
    lemma_negated(v);
    lemma_billionth();
    lemma_ratio_nonneg(1, 1_000_000);
    lemma_ratio_mono(1, 1_000_000_000, 1, 1_000_000);
    if v.le(Num::zero()) {
        law_ramp_zero_below(v, Num::zero(), full);
    }
    if v.ge(Num::zero()) {
        law_ramp_zero_below(v.negated(), Num::zero(), full);
    }
    if v.ge(full) {
        law_ramp_full_above(v, Num::zero(), full);
    }
    if v.negated().ge(full) {
        law_ramp_full_above(v.negated(), Num::zero(), full);
    }
}

/// A spot that moves away from the winner, however fast, counts as one that stands still;
/// beyond the full speed toward it more speed adds nothing.
pub proof fn law_only_speed_toward_the_winner_matters(
    cfg: JEndgameConfig,
    gz: Num,
    s1: SpotSignalSnapshot,
    s2: SpotSignalSnapshot,
    m: MidCrossSnapshot,
    c: CexMicroSnapshot,
    t: TradeTapeSnapshot,
)
    requires
        sound_scores(cfg),
        sound_flow(c, t),
        gz.is_finite(),
        s1.smoothed_velocity_usd_per_sec is Some,
        s2.smoothed_velocity_usd_per_sec is Some,
        (s1.smoothed_velocity_usd_per_sec->0).is_finite(),
        (s2.smoothed_velocity_usd_per_sec->0).is_finite(),
    ensures
        ({
            let (v1, v2) = (s1.smoothed_velocity_usd_per_sec->0, s2.smoothed_velocity_usd_per_sec->0);
            let full = cfg.mom_full_vel_usd_per_sec.max(Num::ratio(1, 1_000_000));
            let (up1, up2) = (
                confidence_of(cfg, "UP"@, gz, s1, m, c, t),
                confidence_of(cfg, "UP"@, gz, s2, m, c, t),
            );
            let (down1, down2) = (
                confidence_of(cfg, "DOWN"@, gz, s1, m, c, t),
                confidence_of(cfg, "DOWN"@, gz, s2, m, c, t),
            );
            &&& v1.le(Num::zero()) && v2.le(Num::zero()) ==> up1.le(up2) && up2.le(up1)
            &&& v1.ge(Num::zero()) && v2.ge(Num::zero()) ==> down1.le(down2) && down2.le(down1)
            &&& v1.ge(full) && v2.ge(full) ==> up1.le(up2) && up2.le(up1)
        }),
{
    law_momentum_counts_toward_the_winner(cfg, s1);
    law_momentum_counts_toward_the_winner(cfg, s2);
    let (up, down) = ("UP"@, "DOWN"@);
    lemma_scores_are_shares(cfg, up, gz, s1, m, c, t);
    lemma_scores_are_shares(cfg, up, gz, s2, m, c, t);
    lemma_scores_are_shares(cfg, down, gz, s1, m, c, t);
    lemma_scores_are_shares(cfg, down, gz, s2, m, c, t);
    if momentum_score(cfg, up, s1).key() == momentum_score(cfg, up, s2).key() {
        lemma_confidence_grows(cfg, up, gz, s1, m, c, t, up, gz, s2, m, c, t);
        lemma_confidence_grows(cfg, up, gz, s2, m, c, t, up, gz, s1, m, c, t);
    }
    if momentum_score(cfg, down, s1).key() == momentum_score(cfg, down, s2).key() {
        lemma_confidence_grows(cfg, down, gz, s1, m, c, t, down, gz, s2, m, c, t);
        lemma_confidence_grows(cfg, down, gz, s2, m, c, t, down, gz, s1, m, c, t);
    }
}

/// A wider gap does not lower the confidence.
pub proof fn law_confidence_follows_the_gap(
    cfg: JEndgameConfig,
    winner: Seq<char>,
    g1: Num,
    g2: Num,
    s: SpotSignalSnapshot,
    m: MidCrossSnapshot,
    c: CexMicroSnapshot,
    t: TradeTapeSnapshot,
)
    requires
        sound_scores(cfg),
        sound_flow(c, t),
        g1.is_finite(),
        g2.is_finite(),
        g1.abs().le(g2.abs()),
    ensures
        confidence_of(cfg, winner, g1, s, m, c, t).le(confidence_of(cfg, winner, g2, s, m, c, t)),
{
    lemma_scores_are_shares(cfg, winner, g1, s, m, c, t);
    lemma_confidence_grows(cfg, winner, g1, s, m, c, t, winner, g2, s, m, c, t);
}

/// Buys of a side's token speak for that side: the confidence in UP is not lower with more
/// bought on UP than on DOWN than with the two sums exchanged, and the other way for DOWN.
pub proof fn law_confidence_follows_the_tape(
    cfg: JEndgameConfig,
    gz: Num,
    s: SpotSignalSnapshot,
    m: MidCrossSnapshot,
    c: CexMicroSnapshot,
    t: TradeTapeSnapshot,
    x: TradeTapeSnapshot,
)
    requires
        sound_scores(cfg),
        sound_flow(c, t),
        gz.is_finite(),
        t.down_buy_usd.le(t.up_buy_usd),
        x.up_buy_usd == t.down_buy_usd,
        x.down_buy_usd == t.up_buy_usd,
    ensures
        confidence_of(cfg, "UP"@, gz, s, m, c, x).le(confidence_of(cfg, "UP"@, gz, s, m, c, t)),
        confidence_of(cfg, "DOWN"@, gz, s, m, c, t).le(confidence_of(cfg, "DOWN"@, gz, s, m, c, x)),
{
    lemma_sides();
    let (up, down) = ("UP"@, "DOWN"@);
    let (a, b) = (t.up_buy_usd, t.down_buy_usd);
    lemma_balance(a, b);
    lemma_balance(b, a);
    lemma_tape_bounds(up, t);
    lemma_tape_bounds(up, x);
    lemma_tape_bounds(down, t);
    lemma_tape_bounds(down, x);
    let i = c.buy_sell_imbalance_3s;
    lemma_toward(i);
    lemma_negated(i);
    assert(tape_balance(up, x).le(tape_balance(up, t)));
    assert(tape_balance(down, t).le(tape_balance(down, x)));
    lemma_flow_grows(up, c, x, up, c, t);
    lemma_flow_grows(down, c, t, down, c, x);
    lemma_scores_are_shares(cfg, up, gz, s, m, c, t);
    lemma_scores_are_shares(cfg, down, gz, s, m, c, t);
    lemma_confidence_grows(cfg, up, gz, s, m, c, x, up, gz, s, m, c, t);
    lemma_confidence_grows(cfg, down, gz, s, m, c, t, down, gz, s, m, c, x);
}

/// The flow is half tape and half exchange: with nothing on the tape the exchange's balance
/// counts half, with a balanced exchange a tape of the winner's buys alone counts half, and
/// flow against the winner counts nothing.
pub proof fn law_flow_is_half_tape_half_exchange(c: CexMicroSnapshot, t: TradeTapeSnapshot)
    requires
        sound_flow(c, t),
        c.buy_sell_imbalance_3s.abs().le(Num::one()),
        (t.up_buy_usd + t.down_buy_usd).is_finite(),
    ensures
        ({
            let i = c.buy_sell_imbalance_3s;
            let (up, down) = (flow_score("UP"@, c, t), flow_score("DOWN"@, c, t));
            let empty = t.up_buy_usd.mag() == 0 && t.down_buy_usd.mag() == 0;
            let half = Num::ratio(5, 10);
            &&& empty && i.gt(Num::zero()) ==> up.key() == (half * i).key() && down.key() == 0
            &&& empty && i.lt(Num::zero()) ==> down.key() == (half * i.negated()).key() && up.key()
                == 0
            &&& i.mag() == 0 && t.down_buy_usd.mag() == 0 && t.up_buy_usd.gt(Num::zero())
                ==> up.key() == half.key() && down.key() == 0
            &&& i.mag() == 0 && t.up_buy_usd.mag() == 0 && t.down_buy_usd.gt(Num::zero())
                ==> down.key() == half.key() && up.key() == 0
        }),
{
    lemma_sides();
    let i = c.buy_sell_imbalance_3s;
    let half = Num::ratio(5, 10);
    lemma_ratio_mono(5, 10, 1, 1);
    lemma_ratio_nonneg(5, 10);
    lemma_ratio_one();
    lemma_toward(i);
    lemma_negated(i);
    let n = i.negated();
    lemma_mul_share_finite(half, i);
    lemma_mul_share_finite(half, n);
    let (a, b) = (t.up_buy_usd, t.down_buy_usd);
    let (x, y) = (tape_balance("UP"@, t), tape_balance("DOWN"@, t));
    lemma_tape_bounds("UP"@, t);
    lemma_tape_bounds("DOWN"@, t);
    lemma_mul_share_finite(half, x);
    lemma_mul_share_finite(half, y);
    if i.key() >= 0 {
        lemma_mul_share(half, i);
        lemma_mul_order(half, n, Num::zero());
    }
    if i.key() <= 0 {
        lemma_mul_share(half, n);
        lemma_mul_order(half, i, Num::zero());
    }
    if a.mag() == 0 && b.mag() == 0 {
        lemma_zero_sum(a, b);
        lemma_zero_sum(b, a);
        assert(x == Num::zero() && y == Num::zero());
        lemma_zero_product(x, half);
        lemma_zero_sum(half * i, half * x);
        lemma_zero_sum(half * n, half * x);
        lemma_sum_comm(half * i, half * x);
        lemma_sum_comm(half * n, half * x);
    } else if i.mag() == 0 {
        lemma_zero_product(i, half);
        lemma_zero_product(n, half);
        lemma_zero_sum(half * x, half * i);
        lemma_zero_sum(half * y, half * n);
        if b.mag() == 0 && a.gt(Num::zero()) {
            lemma_one_sided(a, b);
        }
        if a.mag() == 0 && b.gt(Num::zero()) {
            lemma_one_sided(b, a);
        }
        lemma_one_times(half);
        lemma_mul_comm(Num::one(), half);
        lemma_toward(half);
        lemma_mul_order(half, Num::one().negated(), Num::zero());
    }
}

proof fn lemma_sum_comm(a: Num, b: Num)
    requires
        a.is_finite(),
        b.is_finite(),
    ensures
        (a + b).key() == (b + a).key(),
        !(a + b).is_nan(),
        !(b + a).is_nan(),
{
    lemma_add_key(a, b);
    lemma_add_key(b, a);
}

/// An amount against nothing: all of the balance.
proof fn lemma_one_sided(a: Num, z: Num)
    requires
        nonneg(a),
        a.gt(Num::zero()),
        z.mag() == 0,
    ensures
        a + z == a,
        (z + a) == a,
        (a - z) / (a + z) == Num::one(),
        (z - a) / (z + a) == Num::one().negated(),
{
    lemma_zero_sum(a, z);
    lemma_zero_sum(a, z.negated());
    lemma_zero_sum(a.negated(), z);
    lemma_negated(z);
    lemma_negated(a);
    reveal(Num::spec_add);
    assert(a - z == a.spec_add(z.negated()));
    assert(z - a == z.spec_add(a.negated()));
    assert(a.negated().spec_add(z) == z.spec_add(a.negated()));
    lemma_self_quotient(a);
    lemma_div_mag(a.negated(), a);
    lemma_div_mag(a, a);
    let q = a.negated() / a;
    assert(q.mag() == Num::one().mag() && q.is_neg());
    assert(q.bits == Num::one().negated().bits);
}

/// A book that leads the winner by more, or has crossed less often, does not lower the
/// confidence; a lead on the winner is not worse than none; and a lead on the other side
/// that is not firm counts as none.
pub proof fn law_confidence_follows_the_book(
    cfg: JEndgameConfig,
    gz: Num,
    s: SpotSignalSnapshot,
    m1: MidCrossSnapshot,
    m2: MidCrossSnapshot,
    c: CexMicroSnapshot,
    t: TradeTapeSnapshot,
)
    requires
        sound_scores(cfg),
        sound_flow(c, t),
        gz.is_finite(),
        m1.lead_gap.is_finite(),
        m2.lead_gap.is_finite(),
    ensures
        ({
            let (up1, up2) = (
                confidence_of(cfg, "UP"@, gz, s, m1, c, t),
                confidence_of(cfg, "UP"@, gz, s, m2, c, t),
            );
            let (down1, down2) = (
                confidence_of(cfg, "DOWN"@, gz, s, m1, c, t),
                confidence_of(cfg, "DOWN"@, gz, s, m2, c, t),
            );
            let better = m1.lead_gap.le(m2.lead_gap) && m1.significant_cross_count
                >= m2.significant_cross_count;
            let soft = !m1.lead_gap.ge(cfg.book_contradict_gap);
            let (on_up, on_down) = (Some(LeadSide::Up), Some(LeadSide::Down));
            let (a, b) = (m1.current_side, m2.current_side);
            &&& a == on_up && b == on_up && better ==> up1.le(up2)
            &&& a == on_down && b == on_down && better ==> down1.le(down2)
            &&& a is None && b == on_up ==> up1.le(up2)
            &&& a is None && b == on_down ==> down1.le(down2)
            &&& a == on_down && soft && b is None ==> up1 == up2
            &&& a == on_up && soft && b is None ==> down1 == down2
        }),
{
    lemma_sides();
    let (up, down) = ("UP"@, "DOWN"@);
    lemma_scores_are_shares(cfg, up, gz, s, m1, c, t);
    lemma_scores_are_shares(cfg, up, gz, s, m2, c, t);
    lemma_scores_are_shares(cfg, down, gz, s, m1, c, t);
    lemma_scores_are_shares(cfg, down, gz, s, m2, c, t);
    let (a, b) = (m1.current_side, m2.current_side);
    if m1.lead_gap.le(m2.lead_gap) && m1.significant_cross_count >= m2.significant_cross_count {
        law_ramp_rises(m1.lead_gap, m2.lead_gap, Num::zero(), cfg.book_full_lead_gap);
        lemma_calmer(cfg, m1, m2);
        lemma_calm_share(cfg, m1);
        lemma_calm_share(cfg, m2);
        let (r1, r2) = (
            ramp(m1.lead_gap, Num::zero(), cfg.book_full_lead_gap),
            ramp(m2.lead_gap, Num::zero(), cfg.book_full_lead_gap),
        );
        law_ramp_is_share(m1.lead_gap, Num::zero(), cfg.book_full_lead_gap);
        law_ramp_is_share(m2.lead_gap, Num::zero(), cfg.book_full_lead_gap);
        lemma_mul_mono(r1, calm(cfg, m1), calm(cfg, m2));
        lemma_mul_mono(calm(cfg, m2), r1, r2);
        lemma_mul_comm(calm(cfg, m2), r1);
        lemma_mul_comm(calm(cfg, m2), r2);
        if a == Some(LeadSide::Up) && b == Some(LeadSide::Up) {
            lemma_confidence_grows(cfg, up, gz, s, m1, c, t, up, gz, s, m2, c, t);
        }
        if a == Some(LeadSide::Down) && b == Some(LeadSide::Down) {
            lemma_confidence_grows(cfg, down, gz, s, m1, c, t, down, gz, s, m2, c, t);
        }
    }
    if a is None && b == Some(LeadSide::Up) {
        lemma_confidence_grows(cfg, up, gz, s, m1, c, t, up, gz, s, m2, c, t);
    }
    if a is None && b == Some(LeadSide::Down) {
        lemma_confidence_grows(cfg, down, gz, s, m1, c, t, down, gz, s, m2, c, t);
    }
}

proof fn lemma_calmer(cfg: JEndgameConfig, m1: MidCrossSnapshot, m2: MidCrossSnapshot)
    requires
        m1.significant_cross_count >= m2.significant_cross_count,
    ensures
        calm(cfg, m1).le(calm(cfg, m2)),
{
    let limit: u32 = if cfg.book_max_sig_cross >= 1 {
        cfg.book_max_sig_cross
    } else {
        1
    };
    let (n1, n2) = (m1.significant_cross_count as u64, m2.significant_cross_count as u64);
    let d = Num::uint(limit as u64);
    lemma_uint_is_ratio(n1);
    lemma_uint_is_ratio(n2);
    lemma_uint_is_ratio(limit as u64);
    lemma_ratio_one();
    lemma_ratio_mono(1, 1, limit as u64, 1);
    lemma_ratio_mono(n2, 1, n1, 1);
    lemma_uint_finite(n1);
    lemma_uint_finite(n2);
    lemma_uint_finite(limit as u64);
    lemma_div_order(Num::uint(n2), Num::uint(n1), d);
    let (q1, q2) = (
        (Num::uint(n1) / d).clamp(Num::zero(), Num::one()),
        (Num::uint(n2) / d).clamp(Num::zero(), Num::one()),
    );
    lemma_sub_mono(Num::one(), Num::one(), q1, q2);
}

/// A book that has crossed significantly as often as its limit, or more, says nothing for
/// its leader.
pub proof fn law_choppy_book_says_nothing(
    cfg: JEndgameConfig,
    winner: Seq<char>,
    m: MidCrossSnapshot,
)
    requires
        cfg.book_full_lead_gap.is_finite(),
        m.significant_cross_count >= cfg.book_max_sig_cross,
        m.significant_cross_count >= 1,
    ensures
        book_score(cfg, winner, m).mag() == 0,
{
    let limit: u32 = if cfg.book_max_sig_cross >= 1 {
        cfg.book_max_sig_cross
    } else {
        1
    };
    let n = m.significant_cross_count as u64;
    let d = Num::uint(limit as u64);
    lemma_uint_is_ratio(n);
    lemma_uint_is_ratio(limit as u64);
    lemma_ratio_one();
    lemma_ratio_mono(1, 1, limit as u64, 1);
    lemma_ratio_mono(limit as u64, 1, n, 1);
    lemma_uint_finite(n);
    lemma_uint_finite(limit as u64);
    lemma_div_order(d, Num::uint(n), d);
    lemma_self_quotient(d);
    let q = (Num::uint(n) / d).clamp(Num::zero(), Num::one());
    assert(q.key() == Num::one().key());
    assert(q == Num::one());
    lemma_self_difference(Num::one());
    law_ramp_is_share(m.lead_gap, Num::zero(), cfg.book_full_lead_gap);
    lemma_zero_product(calm(cfg, m), ramp(m.lead_gap, Num::zero(), cfg.book_full_lead_gap));
}

/// A book that leads the other side by at least the firm gap leaves no confidence, whatever
/// else is seen.
pub proof fn law_firm_book_vetoes(
    cfg: JEndgameConfig,
    gz: Num,
    s: SpotSignalSnapshot,
    m: MidCrossSnapshot,
    c: CexMicroSnapshot,
    t: TradeTapeSnapshot,
)
    requires
        m.lead_gap.ge(cfg.book_contradict_gap),
    ensures
        m.current_side == Some(LeadSide::Down) ==> confidence_of(cfg, "UP"@, gz, s, m, c, t)
            == Num::zero(),
        m.current_side == Some(LeadSide::Up) ==> confidence_of(cfg, "DOWN"@, gz, s, m, c, t)
            == Num::zero(),
{
    lemma_sides();
}

/// A signal whose weight is zero does not matter: not the velocity without its weight, not
/// the flow without its weight, and not a lead on the winner without its weight.
pub proof fn law_weightless_signals_do_not_matter(
    cfg: JEndgameConfig,
    winner: Seq<char>,
    gz: Num,
    s1: SpotSignalSnapshot,
    s2: SpotSignalSnapshot,
    m1: MidCrossSnapshot,
    m2: MidCrossSnapshot,
    c1: CexMicroSnapshot,
    c2: CexMicroSnapshot,
    t1: TradeTapeSnapshot,
    t2: TradeTapeSnapshot,
)
    requires
        sound_scores(cfg),
        sound_flow(c1, t1),
        sound_flow(c2, t2),
        gz.is_finite(),
        s1 == s2 || cfg.conf_w_mom.mag() == 0,
        m1 == m2 || cfg.conf_w_book.mag() == 0 && !m1.lead_gap.ge(cfg.book_contradict_gap)
            && !m2.lead_gap.ge(cfg.book_contradict_gap),
        (c1 == c2 && t1 == t2) || cfg.conf_w_flow.mag() == 0,
    ensures
        ({
            let x = confidence_of(cfg, winner, gz, s1, m1, c1, t1);
            let y = confidence_of(cfg, winner, gz, s2, m2, c2, t2);
            x.le(y) && y.le(x)
        }),
{
    lemma_weightless(cfg, winner, gz, s1, s2, m1, m2, c1, c2, t1, t2);
    lemma_weightless(cfg, winner, gz, s2, s1, m2, m1, c2, c1, t2, t1);
}

proof fn lemma_weightless(
    cfg: JEndgameConfig,
    winner: Seq<char>,
    gz: Num,
    s1: SpotSignalSnapshot,
    s2: SpotSignalSnapshot,
    m1: MidCrossSnapshot,
    m2: MidCrossSnapshot,
    c1: CexMicroSnapshot,
    c2: CexMicroSnapshot,
    t1: TradeTapeSnapshot,
    t2: TradeTapeSnapshot,
)
    requires
        sound_scores(cfg),
        sound_flow(c1, t1),
        sound_flow(c2, t2),
        gz.is_finite(),
        s1 == s2 || cfg.conf_w_mom.mag() == 0,
        m1 == m2 || cfg.conf_w_book.mag() == 0 && !m1.lead_gap.ge(cfg.book_contradict_gap)
            && !m2.lead_gap.ge(cfg.book_contradict_gap),
        (c1 == c2 && t1 == t2) || cfg.conf_w_flow.mag() == 0,
    ensures
        confidence_of(cfg, winner, gz, s1, m1, c1, t1).le(
            confidence_of(cfg, winner, gz, s2, m2, c2, t2),
        ),
{
    lemma_scores_are_shares(cfg, winner, gz, s1, m1, c1, t1);
    lemma_scores_are_shares(cfg, winner, gz, s2, m2, c2, t2);
    law_confidence_is_share(cfg, winner, gz, s1, m1, c1, t1);
    law_confidence_is_share(cfg, winner, gz, s2, m2, c2, t2);
    let a = gap_score(cfg, gz);
    let (b1, b2) = (momentum_score(cfg, winner, s1), momentum_score(cfg, winner, s2));
    let (d1, d2) = (book_score(cfg, winner, m1), book_score(cfg, winner, m2));
    let (f1, f2) = (flow_score(winner, c1, t1), flow_score(winner, c2, t2));
    if !(a.le(Num::zero()) || book_contradicts(cfg, winner, m1) || weight_sum(cfg).le(Num::zero())) {
        let (g, m, b, f) = (cfg.conf_w_gap, cfg.conf_w_mom, cfg.conf_w_book, cfg.conf_w_flow);
        lemma_blend_share(cfg, a, b1, d1, f1);
        lemma_blend_share(cfg, a, b2, d2, f2);
        if m.mag() == 0 {
            lemma_zero_product(m, b1);
            lemma_zero_product(m, b2);
        }
        if b.mag() == 0 {
            lemma_zero_product(b, d1);
            lemma_zero_product(b, d2);
        }
        if f.mag() == 0 {
            lemma_zero_product(f, f1);
            lemma_zero_product(f, f2);
        }
        assert((m * b1).key() == (m * b2).key());
        assert((b * d1).key() == (b * d2).key());
        assert((f * f1).key() == (f * f2).key());
        lemma_mul_share(a, g);
        lemma_mul_share(b1, m);
        lemma_mul_share(d1, b);
        lemma_mul_share(f1, f);
        lemma_mul_share(b2, m);
        lemma_mul_share(d2, b);
        lemma_mul_share(f2, f);
        let p1 = g + m;
        let p2 = p1 + b;
        lemma_add_nonneg(g, m);
        lemma_add_grows(p1, b);
        lemma_add_grows(p2, f);
        lemma_sum_mono(g * a, g, m * b2, m);
        lemma_sum_mono(g * a + m * b2, p1, b * d2, b);
        lemma_sum_mono(g * a + m * b2 + b * d2, p2, f * f2, f);
        lemma_sum_mono(g * a, g * a, m * b1, m * b2);
        lemma_sum_mono(g * a + m * b1, g * a + m * b2, b * d1, b * d2);
        lemma_sum_mono(g * a + m * b1 + b * d1, g * a + m * b2 + b * d2, f * f1, f * f2);
        lemma_div_mono(
            g * a + m * b1 + b * d1 + f * f1,
            g * a + m * b2 + b * d2 + f * f2,
            weight_sum(cfg),
        );
        let (x1, x2) = (blend(cfg, a, b1, d1, f1), blend(cfg, a, b2, d2, f2));
        lemma_trust_share(x1, a);
        lemma_trust_share(x2, a);
        lemma_trust_grows(x1, a, x2, a);
        lemma_boost_grows(gap_trust(x1, a), gz, gap_trust(x2, a), gz, full_gap(cfg));
    }
}

/// Where every signal speaks for the winner at its full, the confidence is one.
pub proof fn law_full_signals_give_full_confidence(
    cfg: JEndgameConfig,
    winner: Seq<char>,
    gz: Num,
    s: SpotSignalSnapshot,
    m: MidCrossSnapshot,
    c: CexMicroSnapshot,
    t: TradeTapeSnapshot,
)
    requires
        sound_scores(cfg),
        sound_flow(c, t),
        weight_sum(cfg).gt(Num::zero()),
        gz.is_finite(),
        gz.abs().ge(full_gap(cfg)),
        cfg.book_full_lead_gap.gt(Num::zero()),
        m.lead_gap.is_finite(),
        m.lead_gap.ge(cfg.book_full_lead_gap),
        m.significant_cross_count == 0,
        s.smoothed_velocity_usd_per_sec is Some,
        (s.smoothed_velocity_usd_per_sec->0).is_finite(),
        ({
            let v = s.smoothed_velocity_usd_per_sec->0;
            let full = cfg.mom_full_vel_usd_per_sec.max(Num::ratio(1, 1_000_000));
            ||| winner == "UP"@ && m.current_side == Some(LeadSide::Up) && v.ge(full)
            ||| winner == "DOWN"@ && m.current_side == Some(LeadSide::Down) && v.negated().ge(full)
        }),
        flow_score(winner, c, t) == Num::one(),
    ensures
        confidence_of(cfg, winner, gz, s, m, c, t) == Num::one(),
{
    lemma_sides();
    lemma_scores_are_shares(cfg, winner, gz, s, m, c, t);
    law_confidence_is_share(cfg, winner, gz, s, m, c, t);
    law_momentum_counts_toward_the_winner(cfg, s);
    let one = Num::one();
    law_ramp_full_above(gz.abs(), cfg.final_seal_min_gap_z, full_gap(cfg));
    law_ramp_full_above(m.lead_gap, Num::zero(), cfg.book_full_lead_gap);
    let limit: u32 = if cfg.book_max_sig_cross >= 1 {
        cfg.book_max_sig_cross
    } else {
        1
    };
    lemma_uint_is_ratio(0);
    lemma_uint_is_ratio(limit as u64);
    lemma_ratio_one();
    lemma_ratio_mono(1, 1, limit as u64, 1);
    lemma_uint_finite(0);
    lemma_uint_finite(limit as u64);
    assert(Num::uint(0).mag() == 0) by {
        reveal(Num::spec_uint);
        assert(0 * pow2(1074) == 0);
        assert(encode(0, 1) == 0);
    }
    lemma_div_mag(Num::uint(0), Num::uint(limit as u64));
    let z = (Num::uint(0) / Num::uint(limit as u64)).clamp(Num::zero(), one);
    lemma_negated(z);
    lemma_zero_sum(one, z.negated());
    assert(one - z == one.spec_add(z.negated()));
    assert(calm(cfg, m) == one);
    lemma_one_times(one);
    assert(book_score(cfg, winner, m) == one);
    let (g, w, b, f) = (cfg.conf_w_gap, cfg.conf_w_mom, cfg.conf_w_book, cfg.conf_w_flow);
    lemma_one_times(g);
    lemma_one_times(w);
    lemma_one_times(b);
    lemma_one_times(f);
    lemma_mul_comm(one, g);
    lemma_mul_comm(one, w);
    lemma_mul_comm(one, b);
    lemma_mul_comm(one, f);
    lemma_self_quotient(weight_sum(cfg));
    assert(blend(cfg, one, one, one, one) == one);
    lemma_trust_share(one, one);
    let x = gap_trust(one, one);
    assert(x.key() == one.key());
    lemma_boost_share(x, gz, full_gap(cfg));
    let y = safe_boost(x, gz, full_gap(cfg));
    assert(y.key() == one.key());
    assert(y.bits == one.bits);
    assert(!book_contradicts(cfg, winner, m));
}

} // verus!
