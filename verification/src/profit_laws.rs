//! That the money which closes the profit gap does close it.
use crate::j_controller::{eps, profit_gap_usd, redeem_edge, redeem_pnl};
use crate::j_fees::leg_fee_usd;
use crate::num::Num;
use crate::num_error::{
    dist, exact, lemma_add_error, lemma_billionth, lemma_div_error, lemma_exact_nonneg,
    lemma_exact_one, lemma_exact_order, lemma_mul_error, lemma_one_times, lemma_scaled,
    lemma_sub_error, lemma_sub_finite, lemma_ten_thousand, lemma_trace_small, lemma_value_order,
    parts, trace,
};
use crate::num_laws::{
    lemma_add_grows, lemma_add_key, lemma_add_nonneg, lemma_div_mag, lemma_div_nonneg,
    lemma_mul_share, lemma_negated, lemma_skey_exact, lemma_skey_mono, lemma_sub_nonneg,
    lemma_sub_pos, lemma_sub_shrinks, lemma_units_nonneg, nonneg, unit,
};
use crate::rounding::encode;
use vstd::arithmetic::power2::{lemma_pow2_pos, pow2};
use vstd::prelude::*;

verus! {

/// The figures of a buy for `r` at `ask`: fee share `f`, what is left of a share after it
/// `g`, redeemed per dollar `q`, edge `e`, shares `m`, and the gap `n` that it closes.
struct BuyFigures {
    ask: real,
    f: real,
    g: real,
    q: real,
    e: real,
    n: real,
    r: real,
    m: real,
}

/// The figures as the operations round them.
spec fn rounded_buy(b: BuyFigures) -> bool {
    let zero = 0int as real;
    let one = 1int as real;
    let tiny = parts() * trace();
    &&& zero < b.ask < one && zero <= b.f < one
    &&& zero < b.g && zero < b.e && zero < b.n && zero <= b.r && zero <= b.m && one < b.q
    &&& tiny * b.e <= 4int as real && tiny * b.r <= 4int as real
    &&& parts() * dist(b.g, one - b.f) <= one
    &&& parts() * dist(b.q * b.ask, b.g) <= b.g + tiny * b.ask
    &&& parts() * dist(b.e, b.q - one) <= b.q - one
    &&& parts() * dist(b.r * b.e, b.n) <= b.n + tiny * b.e
    &&& parts() * dist(b.m * b.ask, b.r) <= b.r + tiny * b.ask
}

/// Redeeming the shares of a buy, after the fee, brings back its cost and the gap, up to
/// rounding.
proof fn lemma_buy_closes(b: BuyFigures)
    requires
        rounded_buy(b),
        0int as real <= parts() * trace() <= 1int as real,
    ensures
        parts() * (b.n - (b.m * (1int as real - b.f) - b.r)) <= 51int as real * b.m + 30int as real,
        b.n <= 32int as real * b.m + 5int as real,
{
    let k = parts();
    let tiny = parts() * trace();
    let one = 1int as real;
    let (ask, f, g, q, e, n, r, m) = (b.ask, b.f, b.g, b.q, b.e, b.n, b.r, b.m);
    let qa = q * ask;
    let ma = m * ask;
    let re = r * e;
    let qr = q * r;
    let mg = m * g;
    assert(0int as real <= tiny * ask <= one) by (nonlinear_arith)
        requires
            one == 1int as real,
            0int as real <= tiny <= one,
            (0int as real) < ask < one,
    ;
    // m (1 - f) against m g
    lemma_scaled(m, g, one - f, one);
    assert(m * one == m);
    // m g against m q ask
    lemma_scaled(m, qa, g, g + tiny * ask);
    assert(m * (g + tiny * ask) == mg + tiny * ma) by (nonlinear_arith)
        requires
            one == 1int as real,
            mg == m * g,
            ma == m * ask,
    ;
    assert(mg <= 2int as real * m) by (nonlinear_arith)
        requires
            one == 1int as real,
            mg == m * g,
            m >= 0int as real,
            g <= 2int as real,
    ;
    assert(ma <= 2int as real * r + one);
    assert(tiny * ma <= 2int as real * (tiny * r) + tiny) by (nonlinear_arith)
        requires
            one == 1int as real,
            ma <= 2int as real * r + one,
            tiny >= 0int as real,
    ;
    // q (m ask) against q r
    lemma_scaled(q, ma, r, r + tiny * ask);
    assert(q * (r + tiny * ask) == qr + tiny * qa) by (nonlinear_arith)
        requires
            one == 1int as real,
            qr == q * r,
            qa == q * ask,
    ;
    assert(qa <= 4int as real);
    assert(tiny * qa <= 4int as real) by (nonlinear_arith)
        requires
            one == 1int as real,
            qa <= 4int as real,
            0int as real <= tiny <= one,
    ;
    assert(m * qa == q * ma) by (nonlinear_arith)
        requires
            one == 1int as real,
            qa == q * ask,
            ma == m * ask,
    ;
    assert(m * qa <= 4int as real * m) by (nonlinear_arith)
        requires
            one == 1int as real,
            qa <= 4int as real,
            m >= 0int as real,
    ;
    assert(qr <= 8int as real * m + one);
    // r e against r (q - 1)
    lemma_scaled(r, e, q - one, q - one);
    assert(r * (q - one) == qr - r) by (nonlinear_arith)
        requires
            one == 1int as real,
            qr == q * r,
    ;
    assert(re <= 2int as real * qr);
}

/// What a redeem leaves of `shares` and of the money spent, after the fee.
pub open spec fn redeem_net(shares: Num, spent: Num, fee_bps: Num) -> Num {
    shares - leg_fee_usd(Num::one(), shares, fee_bps) - spent
}

/// The redeem profit is the shares after the fee less the money, up to rounding.
proof fn lemma_redeem_error(shares: Num, spent: Num, fee_bps: Num)
    requires
        nonneg(shares),
        nonneg(spent),
        unit(fee_bps / Num::uint(10_000)),
    ensures
        redeem_net(shares, spent, fee_bps).is_finite(),
        parts() * dist(
            exact(redeem_net(shares, spent, fee_bps)),
            exact(shares) * (1int as real - exact(fee_bps / Num::uint(10_000))) - exact(spent),
        ) <= 3int as real * exact(shares) + exact(spent) + 1int as real,
{
    let fee = fee_bps / Num::uint(10_000);
    let w = leg_fee_usd(Num::one(), shares, fee_bps);
    let net = shares - w;
    let x = exact(shares);
    let f = exact(fee);
    lemma_exact_one();
    lemma_exact_nonneg(shares);
    lemma_exact_nonneg(spent);
    lemma_exact_nonneg(fee);
    lemma_exact_order(fee, Num::one());
    lemma_one_times(shares);
    lemma_mul_share(fee, shares);
    lemma_mul_error(shares, fee);
    lemma_trace_small(shares);
    assert(w == if shares.le(Num::zero()) { Num::zero() } else { shares * fee });
    if shares.le(Num::zero()) {
        assert(x == 0int as real);
    }
    assert(0int as real <= x * f <= x) by (nonlinear_arith)
        requires
            0int as real <= x,
            0int as real <= f <= 1int as real,
    ;
    assert(x * (1int as real - f) == x - x * f) by (nonlinear_arith);
    lemma_exact_nonneg(w);
    lemma_exact_order(w, shares);
    lemma_sub_shrinks(shares, w);
    lemma_sub_nonneg(shares, w);
    lemma_sub_error(shares, w);
    lemma_exact_nonneg(net);
    lemma_exact_order(net, shares);
    lemma_sub_finite(net, spent);
    lemma_sub_error(net, spent);
}

/// A rounded sum below a number comes from values whose sum is below it.
proof fn lemma_sum_below(a: Num, b: Num, c: Num)
    requires
        a.is_finite(),
        b.is_finite(),
        c.is_finite(),
        (a + b).lt(c),
    ensures
        exact(a) + exact(b) < exact(c),
{
    lemma_add_key(a, b);
    lemma_skey_exact(c);
    if a.val() + b.val() >= c.val() {
        lemma_skey_mono(c.val(), a.val() + b.val());
    }
    lemma_pow2_pos(1074);
    let k = pow2(1074) as real;
    let (x, y, z) = (a.val() as real, b.val() as real, c.val() as real);
    assert(x / k + y / k < z / k) by (nonlinear_arith)
        requires
            x + y < z,
            k > 0int as real,
    ;
}

/// The edge and what it is made of.
proof fn lemma_edge_parts(ask: Num, fee_bps: Num)
    requires
        nonneg(fee_bps),
        Num::zero().lt(ask),
        ask.lt(Num::one()),
        redeem_edge(ask, fee_bps).ge(eps()),
        redeem_edge(ask, fee_bps).is_finite(),
    ensures
        ({
            let fee = fee_bps / Num::uint(10_000);
            let left = Num::one() - fee;
            let back = left / ask;
            &&& unit(fee) && exact(fee) < 1int as real
            &&& nonneg(left) && left.key() > 0
            &&& nonneg(back) && exact(back) > 1int as real
            &&& redeem_edge(ask, fee_bps) == back - Num::one()
            &&& nonneg(redeem_edge(ask, fee_bps)) && redeem_edge(ask, fee_bps).key() > 0
        }),
{
    let fee = fee_bps / Num::uint(10_000);
    let left = Num::one() - fee;
    let back = left / ask;
    let edge = back - Num::one();
    lemma_ten_thousand();
    lemma_billionth();
    lemma_exact_one();
    lemma_div_nonneg(fee_bps, Num::uint(10_000));
    lemma_exact_order(ask, Num::one());
    if !fee.is_finite() {
        reveal(Num::spec_add);
        reveal(Num::spec_div);
        assert(left.is_inf() && left.is_neg());
        assert(back.is_inf());
        assert(edge.is_inf());
    }
    lemma_sub_finite(Num::one(), fee);
    lemma_div_mag(left, ask);
    if !back.is_finite() {
        reveal(Num::spec_add);
        assert(edge.is_inf());
    }
    lemma_negated(Num::one());
    let minus = Num::one().negated();
    assert(edge == back.spec_add(minus));
    lemma_add_key(back, minus);
    lemma_skey_exact(back);
    lemma_skey_exact(Num::one());
    assert(encode(0, 1) == 0);
    if back.val() <= Num::one().val() {
        lemma_skey_mono(back.val() + minus.val(), 0);
    }
    lemma_exact_nonneg(Num::one());
    lemma_units_nonneg(back.mag());
    lemma_units_nonneg(left.mag());
    assert(!left.is_neg());
    lemma_negated(fee);
    let nf = fee.negated();
    assert(left == Num::one().spec_add(nf));
    lemma_add_key(Num::one(), nf);
    if Num::one().val() <= fee.val() {
        lemma_skey_mono(Num::one().val() + nf.val(), 0);
    }
    lemma_exact_nonneg(back);
    lemma_exact_nonneg(fee);
    lemma_value_order(fee, Num::one());
    lemma_value_order(Num::one(), back);
    lemma_exact_order(fee, Num::one());
}

/// How far rounding may move a redeem profit: one part in 2^45 of the shares, the money and
/// a dollar.
pub open spec fn rounding_slack(shares: Num, spent: Num) -> real {
    (exact(shares) + exact(spent) + 1int as real) / 0x2000_0000_0000int as real
}

proof fn lemma_gap_closed(shares: Num, spent: Num, ask: Num, target: Num, fee_bps: Num)
    requires
        nonneg(shares),
        nonneg(spent),
        target.is_finite(),
        nonneg(fee_bps),
        Num::zero().lt(ask),
        ask.lt(Num::one()),
        redeem_edge(ask, fee_bps).ge(eps()),
        redeem_edge(ask, fee_bps).is_finite(),
        (redeem_net(shares, spent, fee_bps) + eps()).lt(target),
        ({
            let r = (target - redeem_net(shares, spent, fee_bps)) / redeem_edge(ask, fee_bps);
            &&& r.is_finite()
            &&& (shares + r / ask).is_finite()
            &&& (spent + r).is_finite()
        }),
    ensures
        ({
            let r = (target - redeem_net(shares, spent, fee_bps)) / redeem_edge(ask, fee_bps);
            let more = shares + r / ask;
            let paid = spent + r;
            &&& r.gt(Num::zero())
            &&& redeem_net(more, paid, fee_bps).is_finite()
            &&& exact(redeem_net(more, paid, fee_bps)) >= exact(target) - rounding_slack(more, paid)
        }),
{
    let fee = fee_bps / Num::uint(10_000);
    let left = Num::one() - fee;
    let back = left / ask;
    let edge = back - Num::one();
    let now = redeem_net(shares, spent, fee_bps);
    let gap = target - now;
    let r = gap / edge;
    let m = r / ask;
    let more = shares + m;
    let paid = spent + r;
    let done = redeem_net(more, paid, fee_bps);
    lemma_edge_parts(ask, fee_bps);
    lemma_redeem_error(shares, spent, fee_bps);
    lemma_billionth();
    lemma_exact_one();
    lemma_add_grows(now, eps());
    assert(now.lt(target));
    lemma_exact_order(now, target);
    lemma_sum_below(now, eps(), target);
    lemma_sub_pos(target, now);
    if !gap.is_finite() {
        reveal(Num::spec_div);
        assert(gap.is_inf() && r.is_inf());
    }
    lemma_exact_nonneg(gap);
    lemma_sub_error(target, now);
    lemma_exact_nonneg(edge);
    lemma_div_error(gap, edge);
    lemma_exact_nonneg(r);
    lemma_exact_order(ask, Num::one());
    lemma_exact_nonneg(ask);
    lemma_div_mag(r, ask);
    if !m.is_finite() {
        reveal(Num::spec_add);
        assert(more.is_inf());
    }
    lemma_div_error(r, ask);
    lemma_exact_nonneg(m);
    lemma_add_error(shares, m);
    lemma_add_nonneg(shares, m);
    lemma_add_error(spent, r);
    lemma_add_nonneg(spent, r);
    lemma_exact_nonneg(shares);
    lemma_exact_nonneg(spent);
    lemma_exact_nonneg(more);
    lemma_exact_nonneg(paid);
    lemma_redeem_error(more, paid, fee_bps);
    lemma_trace_small(edge);
    lemma_trace_small(r);
    lemma_sub_error(Num::one(), fee);
    lemma_exact_nonneg(fee);
    lemma_exact_nonneg(left);
    lemma_div_error(left, ask);
    lemma_sub_error(back, Num::one());
    let b = BuyFigures {
        ask: exact(ask),
        f: exact(fee),
        g: exact(left),
        q: exact(back),
        e: exact(edge),
        n: exact(gap),
        r: exact(r),
        m: exact(m),
    };
    assert(rounded_buy(b));
    lemma_buy_closes(b);
    if r.key() <= 0 {
        assert(exact(r) * exact(edge) == 0int as real) by (nonlinear_arith)
            requires
                exact(r) == 0int as real,
        ;
    }
    lemma_profit_sum(
        b,
        exact(shares),
        exact(spent),
        exact(now),
        exact(target),
        exact(more),
        exact(paid),
        exact(done),
    );
}

/// The errors of a buy and of both redeem profits, added up.
proof fn lemma_profit_sum(b: BuyFigures, s: real, p: real, c: real, t: real, s1: real, p1: real, c1: real)
    requires
        0int as real <= s,
        0int as real <= p,
        0int as real <= b.m,
        0int as real <= b.r,
        0int as real <= b.f,
        b.f <= 1int as real,
        c < t,
        parts() * dist(s1, s + b.m) <= s + b.m,
        parts() * dist(p1, p + b.r) <= p + b.r,
        parts() * dist(b.n, t - c) <= t - c,
        parts() * dist(c, s * (1int as real - b.f) - p) <= 3int as real * s + p + 1int as real,
        parts() * dist(c1, s1 * (1int as real - b.f) - p1) <= 3int as real * s1 + p1 + 1int as real,
        parts() * (b.n - (b.m * (1int as real - b.f) - b.r)) <= 51int as real * b.m + 30int as real,
        b.n <= 32int as real * b.m + 5int as real,
    ensures
        c1 >= t - (s1 + p1 + 1int as real) / 0x2000_0000_0000int as real,
{
    let k = 1int as real - b.f;
    lemma_scaled(k, s1, s + b.m, s + b.m);
    assert(k * (s + b.m) == s * k + b.m * k) by (nonlinear_arith);
    assert(k * s1 == s1 * k) by (nonlinear_arith);
    assert(s * k + b.m * k <= s + b.m) by (nonlinear_arith)
        requires
            0int as real <= s,
            0int as real <= b.m,
            k <= 1int as real,
    ;
    assert(t - c <= 2int as real * b.n);
    assert(s + b.m <= 2int as real * s1);
    assert(p + b.r <= 2int as real * p1);
    assert(parts() * (t - c1) <= 256int as real * (s1 + p1 + 1int as real));
}

/// The money that closes the profit gap does close it: where the edge after the fee is at
/// least a billionth and the profit is below the target, it is positive, and with that
/// much more spent and its shares more of the winner the redeem profit is at least the
/// target, up to rounding. The rounding is below a millionth where shares and money stay
/// within thirty million.
pub proof fn law_profit_gap_is_closed(
    up_shares: Num,
    down_shares: Num,
    spent: Num,
    winner: Seq<char>,
    ask: Num,
    target_profit: Num,
    fee_bps: Num,
)
    requires
        winner == "UP"@ || winner == "DOWN"@,
        nonneg(up_shares),
        nonneg(down_shares),
        nonneg(spent),
        nonneg(fee_bps),
        target_profit.is_finite(),
        Num::zero().lt(ask),
        ask.lt(Num::one()),
        redeem_edge(ask, fee_bps).ge(eps()),
        redeem_edge(ask, fee_bps).is_finite(),
        (redeem_pnl(up_shares, down_shares, spent, winner, fee_bps) + eps()).lt(target_profit),
        ({
            let r = profit_gap_usd(
                up_shares,
                down_shares,
                spent,
                winner,
                ask,
                target_profit,
                fee_bps,
            );
            let held = if winner == "UP"@ { up_shares } else { down_shares };
            r.is_finite() && (held + r / ask).is_finite() && (spent + r).is_finite()
        }),
    ensures
        ({
            let r = profit_gap_usd(
                up_shares,
                down_shares,
                spent,
                winner,
                ask,
                target_profit,
                fee_bps,
            );
            let up = if winner == "UP"@ { up_shares + r / ask } else { up_shares };
            let down = if winner == "UP"@ { down_shares } else { down_shares + r / ask };
            let held = if winner == "UP"@ { up } else { down };
            let profit = redeem_pnl(up, down, spent + r, winner, fee_bps);
            &&& r.gt(Num::zero())
            &&& profit.is_finite()
            &&& exact(profit) >= exact(target_profit) - rounding_slack(held, spent + r)
            &&& exact(held) + exact(spent + r) <= 30_000_000int as real ==> exact(profit) >= exact(
                target_profit,
            ) - 1int as real / 1_000_000int as real
        }),
{
    reveal_strlit("UP");
    reveal_strlit("DOWN");
    assert("UP"@.len() != "DOWN"@.len());
    let held = if winner == "UP"@ { up_shares } else { down_shares };
    assert(redeem_pnl(up_shares, down_shares, spent, winner, fee_bps) == redeem_net(
        held,
        spent,
        fee_bps,
    ));
    lemma_gap_closed(held, spent, ask, target_profit, fee_bps);
}

} // verus!
