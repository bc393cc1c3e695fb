//! What holds of what comes in: messages on the two tokens, prices to beat, listings, sizes
//! from the settings, and what is noted of fills and closes.
use crate::asset_price::{implausible, strike_ceiling, strike_floor};
use crate::client::{after_message, after_print, text_at, ContractView, FeedState, MarketWindow};
use crate::config::{JEndgameConfig, SessionConfig};
use crate::dashboard::{
    chance_pct, elapsed_share, implied, is_window_snapshot, secs_left, SnapshotWindow,
};
use crate::h_stats::{
    close_stats, first_price_of, is_entry, is_redeem, is_salvage, win_rate, HCloseStats, HoldTotals,
};
use crate::j_laws::lemma_uint_finite;
use crate::json::Json;
use crate::market_parse::{first_strike, is_open, label_place, slug_stamp, token_pair, window_times};
use crate::num::Num;
use crate::num_error::{lemma_billionth, lemma_exact_one, lemma_one_times};
use crate::num_laws::{
    lemma_add_grows, lemma_div_mag, lemma_div_order, lemma_div_share, lemma_mul_comm,
    lemma_mul_order, lemma_ratio_one, lemma_self_quotient, lemma_whole_is_uint, lemma_zero_product,
    nonneg,
};
use crate::num_ops::{lemma_ratio_mono, lemma_ratio_nonneg, lemma_uint_is_ratio};
use crate::session::capture_of;
use crate::strategy_j::{EndgameTier, JWindowState};
use crate::text::{lowercase, uppercase};
use crate::trade_laws::lemma_nothing;
use crate::trader::{TradeRecord, WindowState};
use vstd::prelude::*;

verus! {

/// A message on a token changes that token's quotes only, and one on neither token changes
/// nothing.
pub proof fn law_message_changes_its_own_token(
    s: FeedState,
    up_id: Seq<char>,
    down_id: Seq<char>,
    m: Json,
)
    requires
        up_id != down_id,
    ensures
        ({
            let t = after_message(s, up_id, down_id, m);
            let id = text_at(m, "asset_id"@);
            &&& id == up_id ==> t.prices.down == s.prices.down
            &&& id == down_id ==> t.prices.up == s.prices.up
            &&& id != up_id && id != down_id ==> t == s
            &&& s.updated ==> t.updated
            &&& t.buys.len() == s.buys.len() || t.buys.len() == s.buys.len() + 1
            &&& t.buys.take(s.buys.len() as int) == s.buys
            &&& t.buys.len() > s.buys.len() ==> t.buys.last().up == (id == up_id)
        }),
{
    assert(after_message(s, up_id, down_id, m).buys.take(s.buys.len() as int) =~= s.buys);
}

/// A print sets the bid to its price and leaves the ask above it.
pub proof fn law_print_sets_the_bid(c: ContractView, price: Num)
    requires
        nonneg(price),
        nonneg(c.ask),
    ensures
        after_print(c, price).bid == price,
        price.lt(c.ask) ==> after_print(c, price).ask == c.ask,
        price.le(after_print(c, price).ask),
        after_print(c, price).bids == c.bids && after_print(c, price).asks == c.asks,
{
    lemma_ratio_nonneg(1, 100);
    lemma_ratio_one();
    lemma_exact_one();
    lemma_ratio_mono(1, 100, 1, 1);
    lemma_add_grows(price, Num::ratio(1, 100));
}

/// A price to beat is implausible exactly where it or the spot is not positive, where it
/// leaves the asset's range, or where one of the two is more than three times the other; so
/// a plausible one is plausible whichever of two prices in the range it is.
pub proof fn law_plausible_prices_are_near_each_other(asset: Seq<char>, a: Num, b: Num)
    requires
        !strike_floor(uppercase(asset)).gt(a) && !strike_floor(uppercase(asset)).gt(b),
        !strike_ceiling(uppercase(asset)).lt(a) && !strike_ceiling(uppercase(asset)).lt(b),
        !a.is_nan() && !b.is_nan(),
        !(a / b).is_nan() && !(b / a).is_nan(),
    ensures
        implausible(asset, a, b) == implausible(asset, b, a),
        a.le(Num::zero()) ==> implausible(asset, a, b),
        b.le(Num::zero()) ==> implausible(asset, a, b),
        Num::uint(3).lt(a / b) ==> implausible(asset, a, b),
        Num::uint(3).lt(b / a) ==> implausible(asset, a, b),
        Num::zero().lt(a) && Num::zero().lt(b) && (a / b).le(Num::uint(3)) && (b / a).le(
            Num::uint(3),
        ) ==> !implausible(asset, a, b),
{
    lemma_uint_finite(3);
}

/// The spot is taken as the price to beat only once, from the window's start on, and where
/// none is known or the known one is implausible; and it is the spot that is taken.
pub proof fn law_capture_takes_the_first_spot(
    locked: bool,
    market: MarketWindow,
    start: i64,
    spot: Num,
    now_ms: i64,
)
    requires
        Num::zero().lt(spot),
    ensures
        ({
            let c = capture_of(locked, market, Some(start), spot, now_ms);
            &&& locked ==> c is None
            &&& now_ms < start ==> c is None
            &&& c is Some ==> (c->0).0 == spot
            &&& !locked && now_ms >= start && market.price_to_beat is None ==> c is Some
            &&& market.price_to_beat is Some && !implausible(
                market.asset@,
                market.price_to_beat->0,
                spot,
            ) ==> c is None
            &&& !locked && now_ms >= start && market.price_to_beat is Some && implausible(
                market.asset@,
                market.price_to_beat->0,
                spot,
            ) ==> c is Some
        }),
        capture_of(locked, market, None, spot, now_ms) is None,
{
}

/// The UP token is the one with UP's label and the DOWN token the one with DOWN's, in
/// whichever order the listing gives the two.
pub proof fn law_tokens_follow_their_labels(
    up_id: Seq<char>,
    down_id: Seq<char>,
    up_label: Seq<char>,
    down_label: Seq<char>,
)
    requires
        lowercase(up_label) == "up"@ || lowercase(up_label) == "yes"@,
        lowercase(down_label) == "down"@ || lowercase(down_label) == "no"@,
    ensures
        token_pair(seq![up_id, down_id], seq![up_label, down_label]) == Some((up_id, down_id)),
        token_pair(seq![down_id, up_id], seq![down_label, up_label]) == Some((up_id, down_id)),
{
    reveal_strlit("up");
    reveal_strlit("yes");
    reveal_strlit("down");
    reveal_strlit("no");
    assert("up"@[0] == 'u' && "no"@[0] == 'n' && "up"@.len() == 2 && "no"@.len() == 2);
    assert("yes"@.len() == 3 && "down"@.len() == 4);
    let one = seq![up_label, down_label];
    let two = seq![down_label, up_label];
    assert(one.drop_first() =~= seq![down_label]);
    assert(two.drop_first() =~= seq![up_label]);
    reveal_with_fuel(label_place, 3);
}

/// A window whose slug ends in a moment starts there and lasts as long as its interval.
pub proof fn law_slug_gives_the_window(m: Json, slug: Seq<char>, bucket: int)
    requires
        1_000_000_000 < slug_stamp(slug) <= 9_000_000_000_000_000,
    ensures
        ({
            let t = window_times(m, slug, bucket);
            &&& t is Some
            &&& (t->0).0 == slug_stamp(slug) * 1000
            &&& (t->0).1 - (t->0).0 == bucket * 1000
        }),
{
}

/// A market is open from its start on and no longer at its end.
pub proof fn law_open_from_start_to_end(start: i64, end: i64, now_ms: i64)
    ensures
        is_open(Some(start), Some(end), now_ms) <==> start <= now_ms && now_ms < end,
        !is_open(None, Some(end), now_ms),
        !is_open(Some(start), None, now_ms),
{
}

/// Fixed sizes are the settings of their own names, and nothing where those are negative.
pub proof fn law_fixed_sizes_are_their_own(cfg: JEndgameConfig, s: SessionConfig)
    requires
        !cfg.bank_sizing_enabled,
    ensures
        cfg.effective_max_usd_per_window(&s) == cfg.max_usd_per_window.max(Num::zero()),
        cfg.effective_max_rescue_usd(&s) == cfg.max_rescue_usd.max(Num::zero()),
        cfg.effective_tail_cap_ask70_usd(&s) == cfg.tail_cap_ask70_usd.max(Num::zero()),
        cfg.effective_tail_cap_ask88_usd(&s) == cfg.tail_cap_ask88_usd.max(Num::zero()),
        cfg.effective_tail_cap_ask94_usd(&s) == cfg.tail_cap_ask94_usd.max(Num::zero()),
        cfg.effective_tail_cap_ask97_usd(&s) == cfg.tail_cap_ask97_usd.max(Num::zero()),
        cfg.effective_first_clip_usd(&s) == cfg.first_clip_usd.max(Num::zero()),
        cfg.effective_max_clip_usd(&s) == cfg.max_clip_usd.max(Num::zero()),
        cfg.effective_min_increment_usd(&s) == cfg.min_increment_usd.max(Num::zero()),
        cfg.effective_flip_tier_usd(&s) == cfg.flip_tier_usd.max(Num::zero()),
        cfg.effective_flip_tier_max_usd(&s) == cfg.flip_tier_max_usd.max(Num::zero()),
        cfg.effective_flip_hedge_clip_usd(&s) == cfg.flip_hedge_clip_usd.max(Num::zero()),
        cfg.effective_discount_reload_clip_usd(&s) == cfg.discount_reload_clip_usd.max(
            Num::zero(),
        ),
        cfg.effective_discount_reload_max_usd(&s) == cfg.discount_reload_max_usd.max(Num::zero()),
        cfg.probe_clip_usd.ge(Num::ratio(1, 1_000_000_000)) ==> cfg.effective_probe_clip_usd(&s)
            == cfg.probe_clip_usd,
{
    lemma_billionth();
}

/// A size that goes by the bank does not fall where the bank or the percentage rises, is
/// that percentage of the bank as far as its limits allow, and never less than a dollar.
pub proof fn law_bank_sizes_follow_the_bank(
    cfg: JEndgameConfig,
    poor: SessionConfig,
    rich: SessionConfig,
    fixed: Num,
    pct: Num,
    more: Num,
    min_fix: Num,
    max_fix: Num,
)
    requires
        cfg.bank_sizing_enabled,
        nonneg(poor.starting_bank),
        nonneg(rich.starting_bank),
        poor.starting_bank.le(rich.starting_bank),
        nonneg(pct),
        nonneg(more),
        pct.le(more),
        min_fix.is_finite(),
        max_fix.is_finite(),
        cfg.min_trade_usd.is_finite(),
        (rich.starting_bank * more).is_finite(),
    ensures
        cfg.spec_sized_usd(poor, fixed, pct, min_fix, max_fix).le(
            cfg.spec_sized_usd(rich, fixed, more, min_fix, max_fix),
        ),
        Num::one().le(cfg.spec_sized_usd(poor, fixed, pct, min_fix, max_fix)),
        min_fix.le(cfg.spec_sized_usd(poor, fixed, pct, min_fix, max_fix)),
        cfg.min_trade_usd.le(cfg.spec_sized_usd(poor, fixed, pct, min_fix, max_fix)),
        Num::one().le(max_fix) && min_fix.le(max_fix) && cfg.min_trade_usd.le(max_fix)
            ==> cfg.spec_sized_usd(poor, fixed, pct, min_fix, max_fix).le(max_fix),
        ({
            let part = poor.starting_bank * pct / Num::uint(100);
            Num::one().le(part) && min_fix.le(part) && cfg.min_trade_usd.le(part) && part.le(
                max_fix,
            ) ==> cfg.spec_sized_usd(poor, fixed, pct, min_fix, max_fix).key() == part.key()
        }),
{
    lemma_uint_finite(100);
    lemma_exact_one();
    lemma_ratio_one();
    lemma_uint_is_ratio(100);
    lemma_ratio_mono(1, 1, 100, 1);
    let (a, b) = (poor.starting_bank, rich.starting_bank);
    lemma_mul_order(a, pct, more);
    lemma_mul_order(more, a, b);
    assert(a.max(Num::zero()).key() == a.key());
    let (x, y) = (a.max(Num::zero()), b.max(Num::zero()));
    let (p, q) = (pct.max(Num::zero()), more.max(Num::zero()));
    lemma_nonneg_max(a);
    lemma_nonneg_max(b);
    lemma_nonneg_max(pct);
    lemma_nonneg_max(more);
    lemma_div_order(a * pct, b * more, Num::uint(100));
}

/// A number from zero on is the larger of itself and zero.
proof fn lemma_nonneg_max(x: Num)
    requires
        nonneg(x),
    ensures
        x.max(Num::zero()) == x,
{
}

/// A fill counts for its own tier: the hedge and the insurance for themselves, a reload for
/// itself and for the position, everything else for the position. The side of the position
/// is that of its first fill, and no later fill changes it.
pub proof fn law_fill_counts_for_its_tier(
    s: JWindowState,
    t: JWindowState,
    tier: Option<EndgameTier>,
    side: Seq<char>,
    usd: Num,
)
    requires
        s.filled_in(t, tier, side, usd),
    ensures
        t.hedge_spent_usd == if tier == Some(EndgameTier::FlipHedge) {
            s.hedge_spent_usd + usd
        } else {
            s.hedge_spent_usd
        },
        t.insurance_spent_usd == if tier == Some(EndgameTier::Insurance) {
            s.insurance_spent_usd + usd
        } else {
            s.insurance_spent_usd
        },
        t.discount_reload_spent_usd == if tier == Some(EndgameTier::DiscountReload) {
            s.discount_reload_spent_usd + usd
        } else {
            s.discount_reload_spent_usd
        },
        t.rescue_spent_usd == if tier == Some(EndgameTier::FlipHedge) || tier == Some(
            EndgameTier::Insurance,
        ) {
            s.rescue_spent_usd
        } else {
            s.rescue_spent_usd + usd
        },
        s.primary() is Some ==> t.primary() == s.primary(),
        tier == Some(EndgameTier::FlipHedge) || tier == Some(EndgameTier::Insurance) || tier
            == Some(EndgameTier::DiscountReload) ==> t.primary() == s.primary(),
        s.primary() is None && tier == Some(EndgameTier::FinalSeal) ==> t.primary() == Some(side),
        t.cheap_spent_usd == s.cheap_spent_usd && t.late_spent_usd == s.late_spent_usd,
{
}

/// Of a side's trades the first buy is its entry: a later one changes nothing of it. A later
/// salvage is the exit. Trades of the other side change nothing.
pub proof fn law_first_buy_and_last_salvage_count(
    trades: Seq<TradeRecord>,
    t: TradeRecord,
    side: Seq<char>,
    winner: Seq<char>,
)
    requires
        side.len() > 0,
    ensures
        ({
            let was = close_stats(trades, side, winner);
            let now = close_stats(trades.push(t), side, winner);
            &&& t.side@ != side ==> now == was
            &&& was.entry_price is Some ==> now.entry_price == was.entry_price
            &&& was.entry_price is None && is_entry(t, side) ==> now.entry_price == Some(t.price)
            &&& is_salvage(t, side) ==> now.salvaged && now.exit_price == Some(t.price)
            &&& is_salvage(t, side) && was.entry_price is Some ==> now.salvage_win == t.price.gt(
                was.entry_price->0,
            )
            &&& was.salvaged ==> now.salvaged
            &&& was.market_win == now.market_win
            &&& winner.len() > 0 ==> was.market_win == Some(side == winner)
        }),
{
    let entry = |x: TradeRecord| is_entry(x, side);
    let salvage = |x: TradeRecord| is_salvage(x, side);
    let redeem = |x: TradeRecord| is_redeem(x, side);
    lemma_first_of_more(trades, t, entry);
    lemma_first_of_more(trades, t, redeem);
    assert(trades.push(t).drop_last() == trades);
    reveal_strlit("BUY");
    reveal_strlit("SELL");
    assert("BUY"@.len() != "SELL"@.len());
}

proof fn lemma_first_of_more(
    trades: Seq<TradeRecord>,
    t: TradeRecord,
    test: spec_fn(TradeRecord) -> bool,
)
    ensures
        first_price_of(trades.push(t), test) == match first_price_of(trades, test) {
            Some(p) => Some(p),
            None => if test(t) {
                Some(t.price)
            } else {
                None
            },
        },
    decreases trades.len(),
{
    if trades.len() == 0 {
        assert(trades.push(t).drop_first() =~= Seq::<TradeRecord>::empty());
        assert(first_price_of(trades.push(t).drop_first(), test) is None);
    } else {
        assert(trades.push(t)[0] == trades[0]);
        assert(trades.push(t).drop_first() =~= trades.drop_first().push(t));
        lemma_first_of_more(trades.drop_first(), t, test);
    }
}

/// A close adds one to the wins or one to the losses of the market where it has a winner, and
/// to neither where it has none; salvages are counted by themselves.
pub proof fn law_closes_are_counted_once(a: HoldTotals, h: HCloseStats)
    requires
        a.market_wins < u32::MAX,
        a.market_losses < u32::MAX,
        a.salvage_escapes < u32::MAX,
        a.salvage_wins < u32::MAX,
    ensures
        ({
            let b = a.with(h);
            &&& b.market_wins + b.market_losses == a.market_wins + a.market_losses + (
            if h.market_win is Some {
                1int
            } else {
                0
            })
            &&& h.market_win == Some(true) ==> b.market_wins == a.market_wins + 1
            &&& h.market_win == Some(false) ==> b.market_losses == a.market_losses + 1
            &&& b.salvage_escapes == a.salvage_escapes + (if h.salvaged {
                1int
            } else {
                0
            })
            &&& b.salvage_wins == a.salvage_wins + (if h.salvage_win {
                1int
            } else {
                0
            })
        }),
{
    match h.market_win {
        Some(won) => {
            assert(won == true || won == false);
            if won {
                assert(h.market_win == Some(true));
            } else {
                assert(h.market_win == Some(false));
            }
        },
        None => {},
    }
}

/// A rate is nothing of nothing, a hundred percent of all, and never falls with more wins.
pub proof fn law_rate_is_a_share(few: u32, many: u32, whole: u32)
    requires
        few <= many <= whole,
        whole > 0,
    ensures
        win_rate(few, whole as int).le(win_rate(many, whole as int)),
        win_rate(whole, whole as int).key() == Num::uint(100).key(),
        win_rate(0, whole as int).mag() == 0,
        win_rate(few, 0) == Num::zero(),
{
    let (a, b, w) = (Num::uint(few as u64), Num::uint(many as u64), Num::uint(whole as u64));
    lemma_uint_finite(few as u64);
    lemma_uint_finite(many as u64);
    lemma_uint_finite(whole as u64);
    lemma_uint_finite(100);
    lemma_uint_is_ratio(few as u64);
    lemma_uint_is_ratio(many as u64);
    lemma_uint_is_ratio(whole as u64);
    lemma_ratio_one();
    lemma_exact_one();
    lemma_ratio_mono(1, 1, whole as u64, 1);
    lemma_ratio_mono(few as u64, 1, many as u64, 1);
    lemma_ratio_mono(many as u64, 1, whole as u64, 1);
    lemma_div_order(a, b, w);
    lemma_div_share(a, w);
    lemma_div_share(b, w);
    lemma_mul_order(Num::uint(100), a / w, b / w);
    lemma_mul_comm(Num::uint(100), a / w);
    lemma_mul_comm(Num::uint(100), b / w);
    lemma_self_quotient(w);
    lemma_one_times(Num::uint(100));
    lemma_nothing();
    lemma_div_mag(Num::uint(0), w);
    lemma_zero_product(Num::uint(0) / w, Num::uint(100));
}

/// A side's shown chance is its ask in percent, or its bid where it has no ask, and between
/// nothing and a hundred.
pub proof fn law_chance_goes_by_the_ask(bid: Num, low: Num, high: Num)
    requires
        nonneg(bid),
        nonneg(low),
        nonneg(high),
        Num::zero().lt(low),
        low.le(high),
    ensures
        chance_pct(bid, low).le(chance_pct(bid, high)),
        chance_pct(bid, low) == chance_pct(high, low),
        chance_pct(bid, Num::zero()).le(Num::uint(100)) && chance_pct(bid, low).le(Num::uint(100)),
        Num::one().le(high) ==> chance_pct(bid, high).key() == Num::uint(100).key(),
        chance_pct(low, Num::zero()) == chance_pct(bid, low),
{
    lemma_uint_finite(100);
    lemma_exact_one();
    lemma_mul_order(Num::uint(100), low, high);
    lemma_mul_order(Num::uint(100), bid, bid);
    lemma_mul_comm(Num::uint(100), bid);
    lemma_mul_comm(Num::uint(100), low);
    lemma_mul_comm(Num::uint(100), high);
    if Num::one().le(high) {
        lemma_mul_order(Num::uint(100), Num::one(), high);
        lemma_one_times(Num::uint(100));
        lemma_mul_comm(Num::uint(100), Num::one());
    }
}

/// The time left falls to nothing at the end and never below; a second is a thousand
/// milliseconds.
pub proof fn law_time_left(end_ms: int, now_ms: int)
    requires
        end_ms > 0,
    ensures
        secs_left(end_ms, now_ms) >= 0,
        now_ms >= end_ms ==> secs_left(end_ms, now_ms) == 0,
        now_ms <= end_ms ==> secs_left(end_ms, now_ms) * 1000 <= end_ms - now_ms < secs_left(
            end_ms,
            now_ms,
        ) * 1000 + 1000,
{
}

/// The side that the spot implies is the one that it is on, and neither at the price to beat.
pub proof fn law_spot_implies_its_side(spot: Num, ptb: Num)
    requires
        !spot.is_nan(),
        !ptb.is_nan(),
    ensures
        implied(Some(spot), Some(ptb)) == Some("UP"@) <==> ptb.lt(spot),
        implied(Some(spot), Some(ptb)) == Some("DOWN"@) <==> spot.lt(ptb),
        implied(None, Some(ptb)) is None && implied(Some(spot), None) is None,
{
    reveal_strlit("UP");
    reveal_strlit("DOWN");
    reveal_strlit("TIE");
    assert("UP"@.len() == 2 && "DOWN"@.len() == 4 && "TIE"@.len() == 3);
}

/// The strike of a title is the first of its dollar amounts that lies in the asset's range.
pub proof fn law_first_strike_in_range(found: Seq<(Num, bool)>, lo: Num, hi: Num) -> (k: int)
    ensures
        0 <= k <= found.len(),
        k == found.len() <==> first_strike(found, lo, hi) is None,
        k < found.len() ==> first_strike(found, lo, hi) == Some(found[k].0) && found[k].1
            && lo.le(found[k].0) && found[k].0.le(hi),
        forall|i: int|
            0 <= i < k ==> !(#[trigger] found[i]).1 || !lo.le(found[i].0) || !found[i].0.le(hi),
    decreases found.len(),
{
    if found.len() == 0 || (found[0].1 && found[0].0.ge(lo) && found[0].0.le(hi)) {
        0
    } else {
        let d = found.drop_first();
        let k = law_first_strike_in_range(d, lo, hi);
        assert forall|i: int| 0 <= i < k + 1 implies !(#[trigger] found[i]).1 || !lo.le(found[i].0)
            || !found[i].0.le(hi) by {
            if i > 0 {
                assert(d[i - 1] == found[i]);
            }
        }
        k + 1
    }
}

/// A window is shown at what it returned and what its shares would sell for, each side at its
/// own bid; of its shares those are paired that both sides have.
pub proof fn law_window_is_shown_at_its_bids(
    r: SnapshotWindow,
    w: WindowState,
    start_ms: i64,
    end_ms: i64,
    spot: Option<Num>,
    now_ms: i64,
)
    requires
        is_window_snapshot(r, w, start_ms, end_ms, spot, now_ms),
        !w.up_shares.is_nan() && !w.down_shares.is_nan(),
    ensures
        r.est_value == w.cash_returned + (w.up_shares * w.prices.up.bid + w.down_shares
            * w.prices.down.bid),
        r.unrealized_pnl == r.est_value - w.spent,
        r.paired_shares.le(w.up_shares) && r.paired_shares.le(w.down_shares),
        r.paired_shares == w.up_shares || r.paired_shares == w.down_shares,
        r.paired_floor == w.cash_returned + r.paired_shares,
        r.breakeven_gap == r.paired_floor - w.spent,
        r.up_bid == w.prices.up.bid && r.down_bid == w.prices.down.bid,
        r.up_ask == w.prices.up.ask && r.down_ask == w.prices.down.ask,
        r.up_shares == w.up_shares && r.down_shares == w.down_shares,
{
}

/// Nothing of a window has passed at its start and before, all of it at its end and after.
pub proof fn law_shown_share_of_the_window(start_ms: int, end_ms: int, now_ms: int)
    requires
        start_ms < end_ms,
        end_ms - start_ms <= i64::MAX,
    ensures
        now_ms <= start_ms ==> elapsed_share(start_ms, end_ms, now_ms).mag() == 0,
        end_ms <= now_ms ==> elapsed_share(start_ms, end_ms, now_ms).key() == Num::uint(100).key(),
{
    let span = (end_ms - start_ms) as i64;
    lemma_whole_is_uint(span);
    lemma_whole_is_uint(0);
    lemma_uint_finite(span as u64);
    lemma_uint_finite(100);
    lemma_uint_is_ratio(span as u64);
    lemma_ratio_one();
    lemma_exact_one();
    lemma_ratio_mono(1, 1, span as u64, 1);
    let w = Num::uint(span as u64);
    lemma_self_quotient(w);
    lemma_one_times(Num::uint(100));
    lemma_nothing();
    lemma_div_mag(Num::uint(0), w);
    lemma_zero_product(Num::uint(0) / w, Num::uint(100));
}

} // verus!
