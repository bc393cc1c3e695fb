//! What the size of a clip on the winner follows from.
use crate::config::{Config, JEndgameConfig};
use crate::j_controller::{clip_cap, clip_scale, composite_plan, eps, ramp};
use crate::j_laws::{
    law_composite_within_limits, law_ramp_full_above, law_ramp_is_share, law_ramp_rises,
    law_ramp_zero_below, lemma_uint_finite,
};
use crate::num::Num;
use crate::num_error::{
    dist, exact, lemma_add_error, lemma_billionth, lemma_exact_nonneg, lemma_exact_order,
    lemma_one_times, lemma_sub_error, lemma_sub_finite, parts,
};
use crate::num_laws::{
    lemma_add_mono, lemma_add_nonneg, lemma_mul_comm, lemma_mul_mono, lemma_mul_share,
    lemma_ratio_bits, lemma_ratio_one, lemma_self_difference, lemma_sub_mono, lemma_sub_nonneg,
    lemma_zero_product, lemma_zero_sum, nonneg, unit,
};
use crate::num_ops::{lemma_ratio_mono, lemma_ratio_nonneg, lemma_uint_is_ratio};
use crate::rounding::lemma_rne_exact;
use crate::strategy_j::JWindowState;
use crate::trader::WindowState;
use vstd::arithmetic::power2::{lemma2_to64, lemma_pow2_adds, pow2};
use vstd::prelude::*;

verus! {

/// The smallest cap on a clip: the probe.
pub open spec fn probe_size(config: Config) -> Num {
    config.j_endgame.effective_probe_clip_usd(&config.session).max(eps())
}

/// The first clip, or the probe where that is larger.
pub open spec fn first_size(config: Config) -> Num {
    config.j_endgame.effective_first_clip_usd(&config.session).max(probe_size(config))
}

/// The largest clip, or the probe where that is larger.
pub open spec fn top_size(config: Config) -> Num {
    config.j_endgame.effective_max_clip_usd(&config.session).max(probe_size(config))
}

/// The size that lies a share of the way from the probe to the largest clip, and is at
/// least the first clip.
pub open spec fn size_at(config: Config, share: Num) -> Num {
    let floor = probe_size(config);
    (floor + share * (top_size(config) - floor)).max(first_size(config))
}

/// Limits from which a clip can be sized: finite sizes, a full gap and an expensive ask that
/// are not negative.
pub open spec fn sound_sizes(config: Config) -> bool {
    let cfg = config.j_endgame;
    &&& nonneg(cfg.full_size_gap_z)
    &&& nonneg(cfg.expensive_ask_threshold)
    &&& probe_size(config).is_finite()
    &&& first_size(config).is_finite()
    &&& top_size(config).is_finite()
}

proof fn lemma_probe_positive(config: Config)
    ensures
        probe_size(config).key() > 0,
        !probe_size(config).is_nan(),
        !first_size(config).is_nan(),
        probe_size(config).le(first_size(config)),
        probe_size(config).le(top_size(config)),
        !probe_size(config).is_neg() && !first_size(config).is_neg(),
{
    lemma_billionth();
}

proof fn lemma_constants()
    ensures
        unit(Num::ratio(75, 100)),
        unit(Num::ratio(35, 100)),
        unit(Num::ratio(4, 100)),
        nonneg(Num::ratio(4, 100)),
        Num::zero().lt(Num::ratio(4, 100)),
        nonneg(Num::uint(60)),
        nonneg(Num::uint(78)),
        Num::uint(60).le(Num::uint(78)),
{
    lemma_ratio_one();
    lemma_ratio_mono(75, 100, 1, 1);
    lemma_ratio_nonneg(75, 100);
    lemma_ratio_mono(35, 100, 1, 1);
    lemma_ratio_nonneg(35, 100);
    lemma_ratio_mono(4, 100, 1, 1);
    lemma_ratio_nonneg(4, 100);
    lemma_billionth();
    lemma_ratio_mono(1, 1_000_000_000, 4, 100);
    lemma_uint_finite(60);
    lemma_uint_finite(78);
    lemma_uint_is_ratio(60);
    lemma_uint_is_ratio(78);
    lemma_ratio_mono(60, 1, 78, 1);
}

/// The three shares that the scale is made of: of the gap, of the time, of the ask.
pub open spec fn gap_part(cfg: JEndgameConfig, gz: Num) -> Num {
    ramp(gz.abs(), cfg.full_size_gap_z * Num::ratio(75, 100), cfg.full_size_gap_z)
}

pub open spec fn time_part(elapsed_pct: Num) -> Num {
    ramp(elapsed_pct, Num::uint(60), Num::uint(78))
}

pub open spec fn ask_part(cfg: JEndgameConfig, ask: Num) -> Num {
    if ask.le(cfg.cheap_max_ask) {
        Num::one()
    } else {
        ramp(cfg.expensive_ask_threshold - ask, Num::zero(), Num::ratio(4, 100))
    }
}

proof fn lemma_parts_are_shares(cfg: JEndgameConfig, gz: Num, ask: Num, elapsed_pct: Num)
    requires
        nonneg(cfg.full_size_gap_z),
    ensures
        unit(gap_part(cfg, gz)),
        unit(time_part(elapsed_pct)),
        unit(ask_part(cfg, ask)),
        unit(Num::ratio(35, 100) * ask_part(cfg, ask)),
        unit(time_part(elapsed_pct).max(Num::ratio(35, 100) * ask_part(cfg, ask))),
{
    lemma_constants();
    lemma_mul_share(Num::ratio(75, 100), cfg.full_size_gap_z);
    law_ramp_is_share(
        gz.abs(),
        cfg.full_size_gap_z * Num::ratio(75, 100),
        cfg.full_size_gap_z,
    );
    law_ramp_is_share(elapsed_pct, Num::uint(60), Num::uint(78));
    law_ramp_is_share(cfg.expensive_ask_threshold - ask, Num::zero(), Num::ratio(4, 100));
    lemma_mul_share(ask_part(cfg, ask), Num::ratio(35, 100));
}

/// The scale is a share, and none of its parts is smaller.
proof fn lemma_scale(cfg: JEndgameConfig, gz: Num, ask: Num, elapsed_pct: Num)
    requires
        nonneg(cfg.full_size_gap_z),
    ensures
        ({
            let s = clip_scale(cfg, gz, ask, elapsed_pct);
            let g = gap_part(cfg, gz);
            let c = ask_part(cfg, ask);
            let t = time_part(elapsed_pct).max(Num::ratio(35, 100) * c);
            &&& unit(s)
            &&& s == g * t * c
            &&& s.le(g)
            &&& s.le(t)
            &&& s.le(c)
        }),
{
    lemma_parts_are_shares(cfg, gz, ask, elapsed_pct);
    let g = gap_part(cfg, gz);
    let c = ask_part(cfg, ask);
    let t = time_part(elapsed_pct).max(Num::ratio(35, 100) * c);
    lemma_mul_share(g, t);
    lemma_mul_share(t, g);
    lemma_mul_comm(g, t);
    lemma_mul_share(g * t, c);
    lemma_mul_share(c, g * t);
    lemma_mul_comm(g * t, c);
}

/// A larger share makes a size that is not smaller.
proof fn lemma_size_grows(config: Config, s: Num, t: Num)
    requires
        sound_sizes(config),
        unit(s),
        unit(t),
        s.le(t),
    ensures
        size_at(config, s).le(size_at(config, t)),
{
    lemma_probe_positive(config);
    let floor = probe_size(config);
    let d = top_size(config) - floor;
    lemma_sub_nonneg(top_size(config), floor);
    lemma_sub_finite(top_size(config), floor);
    lemma_mul_mono(d, s, t);
    lemma_mul_comm(d, s);
    lemma_mul_comm(d, t);
    lemma_mul_share(s, d);
    lemma_mul_share(t, d);
    lemma_add_mono(s * d, t * d, floor);
    lemma_add_nonneg(floor, s * d);
    lemma_add_nonneg(floor, t * d);
}

proof fn lemma_nothing_grown(config: Config, z: Num)
    requires
        z.mag() == 0,
    ensures
        size_at(config, z) == first_size(config),
{
    lemma_probe_positive(config);
    let floor = probe_size(config);
    let first = first_size(config);
    let d = top_size(config) - floor;
    if d.is_finite() {
        lemma_zero_product(z, d);
        lemma_zero_sum(floor, z * d);
        assert(floor + z * d == floor);
        if !floor.lt(first) {
            assert(floor.key() == first.key());
            assert(floor.bits == first.bits);
        }
    } else {
        assert((z * d).is_nan()) by {
            reveal(Num::spec_mul);
        }
        assert((floor + z * d).is_nan()) by {
            reveal(Num::spec_add);
        }
    }
}

/// A follow-up clip starts at the size of the first one: it has not grown at all while the
/// gap is at most three quarters of the full one, or while the ask is expensive.
pub proof fn law_follow_up_starts_at_the_first_clip(
    config: Config,
    rescue_spent: Num,
    gz: Num,
    ask: Num,
    elapsed_pct: Num,
)
    requires
        nonneg(config.j_endgame.full_size_gap_z),
        ({
            let cfg = config.j_endgame;
            let full = cfg.full_size_gap_z;
            ||| (full * Num::ratio(75, 100)).lt(full) && gz.abs().le(full * Num::ratio(75, 100))
            ||| ask.ge(cfg.expensive_ask_threshold) && ask.gt(cfg.cheap_max_ask)
        }),
    ensures
        clip_cap(config, rescue_spent, gz, ask, elapsed_pct) == first_size(config),
{
    let cfg = config.j_endgame;
    let full = cfg.full_size_gap_z;
    lemma_constants();
    lemma_parts_are_shares(cfg, gz, ask, elapsed_pct);
    lemma_scale(cfg, gz, ask, elapsed_pct);
    let (g, c) = (gap_part(cfg, gz), ask_part(cfg, ask));
    let t = time_part(elapsed_pct).max(Num::ratio(35, 100) * c);
    lemma_mul_share(g, t);
    if ask.ge(cfg.expensive_ask_threshold) && ask.gt(cfg.cheap_max_ask) {
        let x = cfg.expensive_ask_threshold - ask;
        if x.is_finite() {
            lemma_difference_not_positive(cfg.expensive_ask_threshold, ask);
            law_ramp_zero_below(x, Num::zero(), Num::ratio(4, 100));
        }
        assert(c.mag() == 0);
        lemma_zero_product(c, g * t);
    } else {
        lemma_mul_share(Num::ratio(75, 100), full);
        law_ramp_zero_below(gz.abs(), full * Num::ratio(75, 100), full);
        lemma_zero_product(g, t);
        lemma_zero_product(g * t, c);
    }
    lemma_nothing_grown(config, clip_scale(cfg, gz, ask, elapsed_pct));
}

proof fn lemma_difference_not_positive(a: Num, b: Num)
    requires
        a.le(b),
        (a - b).is_finite(),
    ensures
        (a - b).le(Num::zero()),
{
    reveal(Num::spec_add);
    if a.is_finite() && b.is_finite() {
        lemma_sub_mono(a, b, b, b);
        lemma_self_difference(b);
    }
}

/// Neither a wider gap, nor a later moment, nor a cheaper ask makes the cap on a clip
/// smaller.
pub proof fn law_clip_cap_follows_its_signals(
    config: Config,
    rescue_spent: Num,
    g1: Num,
    a1: Num,
    e1: Num,
    g2: Num,
    a2: Num,
    e2: Num,
)
    requires
        sound_sizes(config),
        g1.is_finite(),
        g2.is_finite(),
        g1.abs().le(g2.abs()),
        e1.is_finite(),
        e2.is_finite(),
        e1.le(e2),
        nonneg(a1),
        nonneg(a2),
        a2.le(a1),
    ensures
        clip_cap(config, rescue_spent, g1, a1, e1).le(
            clip_cap(config, rescue_spent, g2, a2, e2),
        ),
{
    let cfg = config.j_endgame;
    let full = cfg.full_size_gap_z;
    lemma_constants();
    lemma_probe_positive(config);
    lemma_parts_are_shares(cfg, g1, a1, e1);
    lemma_parts_are_shares(cfg, g2, a2, e2);
    lemma_scale(cfg, g1, a1, e1);
    lemma_scale(cfg, g2, a2, e2);
    lemma_mul_share(Num::ratio(75, 100), full);
    law_ramp_rises(g1.abs(), g2.abs(), full * Num::ratio(75, 100), full);
    law_ramp_rises(e1, e2, Num::uint(60), Num::uint(78));
    let (p1, p2) = (gap_part(cfg, g1), gap_part(cfg, g2));
    let (c1, c2) = (ask_part(cfg, a1), ask_part(cfg, a2));
    assert(c1.le(c2)) by {
        if !a2.le(cfg.cheap_max_ask) {
            let th = cfg.expensive_ask_threshold;
            lemma_sub_finite(th, a1);
            lemma_sub_finite(th, a2);
            lemma_sub_mono(th, th, a1, a2);
            law_ramp_rises(th - a1, th - a2, Num::zero(), Num::ratio(4, 100));
        }
    }
    let q = Num::ratio(35, 100);
    lemma_mul_mono(q, c1, c2);
    let (t1, t2) = (time_part(e1).max(q * c1), time_part(e2).max(q * c2));
    assert(t1.le(t2));
    lemma_products_grow(p1, p2, t1, t2);
    lemma_mul_share(p1, t1);
    lemma_mul_share(p2, t2);
    lemma_products_grow(p1 * t1, p2 * t2, c1, c2);
    lemma_size_grows(
        config,
        clip_scale(cfg, g1, a1, e1),
        clip_scale(cfg, g2, a2, e2),
    );
}

proof fn lemma_products_grow(a1: Num, a2: Num, b1: Num, b2: Num)
    requires
        nonneg(a1),
        nonneg(a2),
        nonneg(b1),
        nonneg(b2),
        a1.le(a2),
        b1.le(b2),
    ensures
        (a1 * b1).le(a2 * b2),
{
    lemma_mul_mono(a1, b1, b2);
    lemma_mul_mono(b2, a1, a2);
    lemma_mul_comm(b2, a1);
    lemma_mul_comm(b2, a2);
}

/// A follow-up clip grows no further than each of its signals has come: the gap on its way
/// from three quarters to the full one, the ask on its way down from the expensive one, and
/// the time from three fifths of the window on, before which it is at most a bit over a
/// third of the way.
pub proof fn law_each_signal_limits_the_clip(
    config: Config,
    rescue_spent: Num,
    gz: Num,
    ask: Num,
    elapsed_pct: Num,
)
    requires
        sound_sizes(config),
    ensures
        ({
            let cfg = config.j_endgame;
            let full = cfg.full_size_gap_z;
            let cap = clip_cap(config, rescue_spent, gz, ask, elapsed_pct);
            let by_gap = ramp(gz.abs(), full * Num::ratio(75, 100), full);
            let by_time = ramp(elapsed_pct, Num::uint(60), Num::uint(78));
            let by_ask = ramp(
                cfg.expensive_ask_threshold - ask,
                Num::zero(),
                Num::ratio(4, 100),
            );
            &&& cap.le(size_at(config, by_gap))
            &&& cap.le(size_at(config, by_time.max(Num::ratio(35, 100))))
            &&& ask.gt(cfg.cheap_max_ask) ==> cap.le(size_at(config, by_ask))
            &&& elapsed_pct.le(Num::uint(60)) ==> cap.le(size_at(config, Num::ratio(35, 100)))
        }),
{
    let cfg = config.j_endgame;
    lemma_constants();
    lemma_probe_positive(config);
    lemma_parts_are_shares(cfg, gz, ask, elapsed_pct);
    lemma_scale(cfg, gz, ask, elapsed_pct);
    let s = clip_scale(cfg, gz, ask, elapsed_pct);
    let g = gap_part(cfg, gz);
    let c = ask_part(cfg, ask);
    let q = Num::ratio(35, 100);
    let t = time_part(elapsed_pct);
    lemma_mul_share(c, q);
    lemma_size_grows(config, s, g);
    lemma_size_grows(config, s, t.max(q));
    lemma_size_grows(config, s, c);
    lemma_first_below(config, g);
    lemma_first_below(config, t.max(q));
    lemma_first_below(config, c);
    if elapsed_pct.le(Num::uint(60)) {
        if elapsed_pct.is_finite() && Num::uint(60).lt(Num::uint(78)) {
            law_ramp_zero_below(elapsed_pct, Num::uint(60), Num::uint(78));
        }
        lemma_sixty_below();
        lemma_size_grows(config, t.max(q), q);
    }
}

proof fn lemma_sixty_below()
    ensures
        Num::uint(60).lt(Num::uint(78)),
{
    lemma_uint_is_ratio(60);
    lemma_uint_is_ratio(78);
    lemma2_to64();
    assert(pow2(47) == 0x8000_0000_0000) by {
        lemma_pow2_adds(32, 15);
    }
    assert(pow2(46) == 0x4000_0000_0000) by {
        lemma_pow2_adds(32, 14);
    }
    let x = 60int * 0x8000_0000_0000;
    let y = 78int * 0x4000_0000_0000;
    lemma_rne_exact(x, 1);
    lemma_rne_exact(y, 1);
    lemma_ratio_bits(60, 1, 1027, x);
    lemma_ratio_bits(78, 1, 1028, y);
}

proof fn lemma_first_below(config: Config, s: Num)
    requires
        sound_sizes(config),
        unit(s),
    ensures
        first_size(config).le(size_at(config, s)),
{
    lemma_probe_positive(config);
    let floor = probe_size(config);
    let d = top_size(config) - floor;
    lemma_sub_nonneg(top_size(config), floor);
    lemma_sub_finite(top_size(config), floor);
    lemma_mul_share(s, d);
    lemma_add_nonneg(floor, s * d);
}

/// Where two of the signals are at their full, a follow-up clip goes as far as the third:
/// a cheap ask late in the window leaves the gap to decide, a full gap late in the window
/// the ask, and a full gap at a cheap ask the time, from a bit over a third on.
pub proof fn law_the_last_signal_decides(
    config: Config,
    rescue_spent: Num,
    gz: Num,
    ask: Num,
    elapsed_pct: Num,
)
    requires
        sound_sizes(config),
        !rescue_spent.lt(eps()),
        gz.is_finite(),
        elapsed_pct.is_finite(),
    ensures
        ({
            let cfg = config.j_endgame;
            let full = cfg.full_size_gap_z;
            let cap = clip_cap(config, rescue_spent, gz, ask, elapsed_pct);
            let (wide, late, cheap) = (
                gz.abs().ge(full),
                elapsed_pct.ge(Num::uint(78)),
                ask.le(cfg.cheap_max_ask),
            );
            &&& late && cheap ==> cap == size_at(
                config,
                ramp(gz.abs(), full * Num::ratio(75, 100), full),
            )
            &&& wide && late && !cheap ==> cap == size_at(
                config,
                ramp(cfg.expensive_ask_threshold - ask, Num::zero(), Num::ratio(4, 100)),
            )
            &&& wide && cheap ==> cap == size_at(
                config,
                ramp(elapsed_pct, Num::uint(60), Num::uint(78)).max(Num::ratio(35, 100)),
            )
            &&& wide && late && cheap ==> cap == size_at(config, Num::one())
        }),
{
    let cfg = config.j_endgame;
    let full = cfg.full_size_gap_z;
    lemma_constants();
    lemma_parts_are_shares(cfg, gz, ask, elapsed_pct);
    lemma_scale(cfg, gz, ask, elapsed_pct);
    let g = gap_part(cfg, gz);
    let c = ask_part(cfg, ask);
    let q = Num::ratio(35, 100);
    let one = Num::one();
    let t = time_part(elapsed_pct);
    lemma_mul_share(Num::ratio(75, 100), full);
    if gz.abs().ge(full) {
        law_ramp_full_above(gz.abs(), full * Num::ratio(75, 100), full);
    }
    if elapsed_pct.ge(Num::uint(78)) {
        law_ramp_full_above(elapsed_pct, Num::uint(60), Num::uint(78));
    }
    lemma_one_times(q);
    lemma_mul_comm(one, q);
    lemma_one_times(g);
    lemma_mul_comm(one, g);
    lemma_one_times(c);
    lemma_mul_comm(one, c);
    lemma_one_times(t.max(q * c));
    lemma_mul_comm(one, t.max(q * c));
    lemma_mul_share(c, q);
    if t == one {
        assert(t.max(q * c) == one) by {
            if t.lt(q * c) {
                assert(false);
            }
        }
    }
    lemma_one_times(one);
    lemma_mul_comm(g * one, one);
    lemma_one_times(g * one);
}

/// With a full gap late in the window and a cheap ask a follow-up clip may be as large as
/// anywhere, and that is the largest clip, up to a few roundings.
pub proof fn law_largest_clip_is_reached(
    config: Config,
    rescue_spent: Num,
    gz: Num,
    ask: Num,
    elapsed_pct: Num,
    other_gz: Num,
    other_ask: Num,
    other_pct: Num,
)
    requires
        sound_sizes(config),
        !rescue_spent.lt(eps()),
        gz.is_finite(),
        elapsed_pct.is_finite(),
        gz.abs().ge(config.j_endgame.full_size_gap_z),
        elapsed_pct.ge(Num::uint(78)),
        ask.le(config.j_endgame.cheap_max_ask),
    ensures
        ({
            let cap = clip_cap(config, rescue_spent, gz, ask, elapsed_pct);
            let best = top_size(config).max(first_size(config));
            &&& clip_cap(config, rescue_spent, other_gz, other_ask, other_pct).le(cap)
            &&& cap.is_finite() ==> parts() * dist(exact(cap), exact(best)) <= 4int as real * exact(
                best,
            )
        }),
{
    law_the_last_signal_decides(config, rescue_spent, gz, ask, elapsed_pct);
    let cfg = config.j_endgame;
    lemma_probe_positive(config);
    lemma_parts_are_shares(cfg, other_gz, other_ask, other_pct);
    lemma_scale(cfg, other_gz, other_ask, other_pct);
    lemma_size_grows(config, clip_scale(cfg, other_gz, other_ask, other_pct), Num::one());
    let floor = probe_size(config);
    let (top, first) = (top_size(config), first_size(config));
    let d = top - floor;
    lemma_sub_nonneg(top, floor);
    lemma_sub_finite(top, floor);
    lemma_one_times(d);
    let s = floor + d;
    let cap = s.max(first);
    lemma_add_nonneg(floor, d);
    if cap.is_finite() {
        lemma_sub_error(top, floor);
        lemma_add_error(floor, d);
        lemma_exact_order(floor, top);
        lemma_exact_nonneg(floor);
        lemma_exact_nonneg(d);
        lemma_exact_nonneg(top);
        lemma_exact_nonneg(first);
        lemma_exact_order(s, first);
        lemma_exact_order(top, first);
        lemma_regained(exact(floor), exact(top), exact(d), exact(s), parts());
        let best = top.max(first);
        let (x, y) = (exact(s), exact(top));
        assert(parts() * dist(x, y) <= 4int as real * y);
        assert(dist(exact(cap), exact(best)) <= dist(x, y));
        assert(y <= exact(best));
        assert(parts() * dist(exact(cap), exact(best)) <= parts() * dist(x, y))
            by (nonlinear_arith)
            requires
                dist(exact(cap), exact(best)) <= dist(x, y),
                parts() >= 0int as real,
        ;
    }
}

proof fn lemma_regained(floor: real, top: real, d: real, s: real, k: real)
    requires
        k >= 0x20_0000_0000_0000int as real,
        0int as real <= floor <= top,
        0int as real <= d,
        k * dist(d, top - floor) <= dist(top - floor, 0int as real),
        k * dist(s, floor + d) <= dist(floor + d, 0int as real),
    ensures
        k * dist(s, top) <= 4int as real * top,
{
    let e = dist(d, top - floor);
    let f = dist(s, floor + d);
    let h = dist(s, top);
    assert(h <= e + f);
    assert(e <= top) by (nonlinear_arith)
        requires
            k * e <= top - floor,
            k >= 0x20_0000_0000_0000int as real,
            e >= 0int as real,
            0int as real <= floor,
    ;
    assert(d <= 2int as real * top);
    assert(k * h <= k * e + k * f) by (nonlinear_arith)
        requires
            h <= e + f,
            k >= 0int as real,
    ;
}

/// A follow-up buy on the winner while the gap has not begun to widen, or at an expensive
/// ask, is no larger than the first one could be.
pub proof fn law_follow_up_buy_is_ramped(
    config: Config,
    state: JWindowState,
    win_state: WindowState,
    winner: Seq<char>,
    ask: Num,
    gz: Num,
    confidence: Num,
    elapsed_pct: Num,
    available_cash: Num,
)
    requires
        nonneg(state.rescue_spent_usd),
        nonneg(config.j_endgame.full_size_gap_z),
        ({
            let cfg = config.j_endgame;
            let full = cfg.full_size_gap_z;
            ||| (full * Num::ratio(75, 100)).lt(full) && gz.abs().le(full * Num::ratio(75, 100))
            ||| ask.ge(cfg.expensive_ask_threshold) && ask.gt(cfg.cheap_max_ask)
        }),
    ensures
        composite_plan(
            config,
            state,
            win_state,
            winner,
            ask,
            gz,
            confidence,
            elapsed_pct,
            available_cash,
        ) matches Some(plan) ==> !plan.clip_usd.gt(first_size(config)),
{
    law_follow_up_starts_at_the_first_clip(
        config,
        state.rescue_spent_usd,
        gz,
        ask,
        elapsed_pct,
    );
    law_composite_within_limits(
        config,
        state,
        win_state,
        winner,
        ask,
        gz,
        confidence,
        elapsed_pct,
        available_cash,
    );
}

} // verus!
