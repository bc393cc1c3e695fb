//! Laws of fills against the order book: what a buy takes, what it pays and what it leaves.
use crate::client::{book_contract, items_or_none};
use crate::json::Json;
use crate::num::Num;
use crate::num_error::{
    dist, exact, lemma_add_error, lemma_billionth, lemma_div_error, lemma_exact_nonneg,
    lemma_exact_one, lemma_exact_order, lemma_mul_error, lemma_real_product, lemma_scaled,
    lemma_sub_error, lemma_sub_finite, lemma_trace_small, parts,
};
use crate::num_laws::{
    lemma_add_comm, lemma_add_grows, lemma_add_key, lemma_div_mag, lemma_mul_mag, lemma_negated,
    lemma_sub_nonneg, lemma_sub_shrinks, lemma_units_nonneg, lemma_zero_sum, nonneg,
};
use crate::num_ops::lemma_ratio_nonneg;
use crate::orderbook::{
    depth_sum, level_of, levels_of, limit_fill, live_levels, ordered, put, rank, sorted_levels, taken,
    taker_fill, walk, BookLevel, Walk,
};
use crate::rounding::{encode, lemma_encode_exact, lemma_encode_mono, units};
use vstd::arithmetic::power2::{lemma_pow2_pos, pow2};
use vstd::prelude::*;

verus! {

/// The size of all levels together.
pub open spec fn total_size(levels: Seq<BookLevel>) -> real
    decreases levels.len(),
{
    if levels.len() == 0 {
        0int as real
    } else {
        total_size(levels.drop_last()) + exact(levels.last().size)
    }
}

/// Sizes that are finite and not negative.
pub open spec fn sound_sizes(levels: Seq<BookLevel>) -> bool {
    forall|i: int| 0 <= i < levels.len() ==> nonneg((#[trigger] levels[i]).size)
}

/// The size of the levels in front of the first one above the limit.
pub open spec fn offered(asks: Seq<BookLevel>, limit: Num) -> real
    decreases asks.len(),
{
    if asks.len() == 0 || asks[0].price.gt(limit) {
        0int as real
    } else {
        exact(asks[0].size) + offered(asks.drop_first(), limit)
    }
}

proof fn lemma_total_add(a: Seq<BookLevel>, b: Seq<BookLevel>)
    ensures
        total_size(a + b) == total_size(a) + total_size(b),
    decreases b.len(),
{
    if b.len() == 0 {
        assert(a + b == a);
    } else {
        assert((a + b).drop_last() == a + b.drop_last());
        lemma_total_add(a, b.drop_last());
    }
}

proof fn lemma_total_first(levels: Seq<BookLevel>)
    requires
        levels.len() > 0,
    ensures
        total_size(levels) == exact(levels[0].size) + total_size(levels.drop_first()),
{
    let one = seq![levels[0]];
    assert(one + levels.drop_first() == levels);
    lemma_total_add(one, levels.drop_first());
    assert(one.drop_last() == Seq::<BookLevel>::empty());
    assert(total_size(one.drop_last()) == 0int as real);
}

proof fn lemma_total_nonneg(levels: Seq<BookLevel>)
    requires
        sound_sizes(levels),
    ensures
        total_size(levels) >= 0int as real,
    decreases levels.len(),
{
    if levels.len() > 0 {
        lemma_exact_nonneg(levels.last().size);
        assert(sound_sizes(levels.drop_last())) by {
            assert forall|i: int| 0 <= i < levels.len() - 1 implies nonneg(
                (#[trigger] levels.drop_last()[i]).size,
            ) by {
                assert(levels.drop_last()[i] == levels[i]);
            }
        }
        lemma_total_nonneg(levels.drop_last());
    }
}

/// What a walk takes from one level: not more than its size.
proof fn lemma_fill_bounded(size: Num, most: Num)
    requires
        nonneg(size),
        !size.min(most).le(Num::zero()),
    ensures
        nonneg(size.min(most)),
        size.min(most).key() > 0,
        exact(size.min(most)) <= exact(size),
{
    lemma_exact_order(size.min(most), size);
}

/// The shares of a walk only grow.
proof fn lemma_walk_grows(asks: Seq<BookLevel>, i: int, limit: Num, w: Walk)
    requires
        sound_sizes(asks),
        0 <= i,
        !w.shares.is_nan(),
    ensures
        !walk(asks, i, limit, w).shares.is_nan(),
        w.shares.le(walk(asks, i, limit, w).shares),
    decreases asks.len() - i,
{
    if i < asks.len() && !asks[i].price.gt(limit) {
        let fill = asks[i].size.min(w.remaining / asks[i].price);
        if fill.le(Num::zero()) {
            lemma_walk_grows(asks, i + 1, limit, w);
        } else {
            lemma_fill_bounded(asks[i].size, w.remaining / asks[i].price);
            lemma_add_grows(w.shares, fill);
            let cost = fill * asks[i].price;
            let next = Walk {
                remaining: w.remaining - cost,
                shares: w.shares + fill,
                spent: w.spent + cost,
            };
            lemma_walk_grows(asks, i + 1, limit, next);
        }
    }
}

/// A walk takes no more shares than are offered up to its limit, up to rounding.
proof fn lemma_walk_shares(asks: Seq<BookLevel>, i: int, limit: Num, w: Walk)
    requires
        sound_sizes(asks),
        0 <= i <= asks.len(),
        nonneg(w.shares),
        walk(asks, i, limit, w).shares.is_finite(),
    ensures
        ({
            let r = exact(walk(asks, i, limit, w).shares);
            let k = (asks.len() - i) as real;
            &&& r >= exact(w.shares)
            &&& parts() * (r - exact(w.shares) - offered(asks.skip(i), limit)) <= 2int as real * r * k
        }),
    decreases asks.len() - i,
{
    let end = walk(asks, i, limit, w);
    let r = exact(end.shares);
    let k = (asks.len() - i) as real;
    let rest = asks.skip(i);
    lemma_walk_grows(asks, i, limit, w);
    lemma_exact_nonneg(w.shares);
    lemma_exact_order(w.shares, end.shares);
    lemma_offered_nonneg(rest, limit);
    assert(2int as real * r * k >= 0int as real) by (nonlinear_arith)
        requires
            r >= 0int as real,
            k >= 0int as real,
    ;
    if i < asks.len() && !asks[i].price.gt(limit) {
        assert(rest[0] == asks[i]);
        assert(rest.drop_first() == asks.skip(i + 1));
        assert(2int as real * r * k == 2int as real * r * (k - 1int as real) + 2int as real * r)
            by (nonlinear_arith);
        lemma_exact_nonneg(asks[i].size);
        let fill = asks[i].size.min(w.remaining / asks[i].price);
        if fill.le(Num::zero()) {
            lemma_walk_shares(asks, i + 1, limit, w);
        } else {
            lemma_fill_bounded(asks[i].size, w.remaining / asks[i].price);
            lemma_exact_nonneg(fill);
            let cost = fill * asks[i].price;
            let next = Walk {
                remaining: w.remaining - cost,
                shares: w.shares + fill,
                spent: w.spent + cost,
            };
            lemma_add_grows(w.shares, fill);
            lemma_walk_grows(asks, i + 1, limit, next);
            assert(next.shares.le(end.shares));
            assert(nonneg(next.shares));
            lemma_add_error(w.shares, fill);
            lemma_exact_order(next.shares, end.shares);
            if !next.remaining.lt(Num::ratio(1, 100)) {
                lemma_walk_shares(asks, i + 1, limit, next);
            } else {
                lemma_offered_nonneg(asks.skip(i + 1), limit);
                assert(2int as real * r * (k - 1int as real) >= 0int as real) by (nonlinear_arith)
                    requires
                        r >= 0int as real,
                        k >= 1int as real,
                ;
            }
        }
    }
}

proof fn lemma_offered_nonneg(asks: Seq<BookLevel>, limit: Num)
    ensures
        sound_sizes(asks) ==> offered(asks, limit) >= 0int as real,
    decreases asks.len(),
{
    if sound_sizes(asks) && asks.len() > 0 {
        lemma_exact_nonneg(asks[0].size);
        assert(sound_sizes(asks.drop_first())) by {
            assert forall|i: int| 0 <= i < asks.len() - 1 implies nonneg(
                (#[trigger] asks.drop_first()[i]).size,
            ) by {
                assert(asks.drop_first()[i] == asks[i + 1]);
            }
        }
        lemma_offered_nonneg(asks.drop_first(), limit);
    }
}

/// What is left of a number after it was taken away from itself is nothing.
proof fn lemma_sub_self(x: Num)
    requires
        x.is_finite(),
    ensures
        (x - x).key() == 0,
        nonneg(x - x),
        exact(x - x) == 0int as real,
{
    lemma_negated(x);
    assert(x - x == x.spec_add(x.negated()));
    lemma_add_key(x, x.negated());
    assert(encode(0, 1) == 0);
    lemma_exact_nonneg(x - x);
}

/// Taking shares from the asks lowers their size by as much, up to rounding, or empties
/// all levels up to the limit.
proof fn lemma_taken(asks: Seq<BookLevel>, max_pay: Num, shares: Num, most: Num)
    requires
        sound_sizes(asks),
        nonneg(shares),
        nonneg(most),
        shares.le(most),
    ensures
        ({
            let left = taken(asks, max_pay, shares);
            let gone = total_size(asks) - total_size(left);
            let slack = exact(most) * asks.len() as real + total_size(asks);
            &&& left.len() == asks.len()
            &&& sound_sizes(left)
            &&& parts() * (gone - exact(shares)) <= slack
            &&& gone == offered(asks, max_pay) || parts() * (exact(shares) - gone) <= slack
        }),
    decreases asks.len(),
{
    lemma_total_nonneg(asks);
    lemma_exact_nonneg(shares);
    lemma_exact_nonneg(most);
    lemma_exact_order(shares, most);
    lemma_exact_one();
    lemma_exact_order(shares, Num::zero());
    let z = exact(most);
    let k = asks.len() as real;
    assert(z * k >= 0int as real) by (nonlinear_arith)
        requires
            z >= 0int as real,
            k >= 0int as real,
    ;
    if asks.len() > 0 && !asks[0].price.gt(max_pay) && !shares.le(Num::zero()) {
        let size = asks[0].size;
        let take = size.min(shares);
        let rest = asks.drop_first();
        assert(sound_sizes(rest)) by {
            assert forall|i: int| 0 <= i < rest.len() implies nonneg((#[trigger] rest[i]).size) by {
                assert(rest[i] == asks[i + 1]);
            }
        }
        let first = BookLevel { price: asks[0].price, size: size - take };
        let tail = taken(rest, max_pay, shares - take);
        let left = taken(asks, max_pay, shares);
        assert(left == seq![first] + tail);
        lemma_total_first(asks);
        lemma_exact_nonneg(size);
        lemma_exact_order(shares, size);
        lemma_total_nonneg(rest);
        assert(z * k == z * (k - 1int as real) + z) by (nonlinear_arith);
        if shares.lt(size) {
            lemma_sub_self(shares);
            lemma_sub_finite(size, shares);
            lemma_sub_nonneg(size, shares);
            lemma_sub_error(size, shares);
            assert(tail == rest);
        } else {
            lemma_sub_self(size);
            lemma_sub_finite(shares, size);
            lemma_sub_nonneg(shares, size);
            lemma_sub_error(shares, size);
            lemma_sub_shrinks(shares, size);
            lemma_taken(rest, max_pay, shares - take, most);
        }
        assert(left.drop_first() == tail);
        lemma_total_first(left);
        assert(sound_sizes(left)) by {
            assert forall|i: int| 0 <= i < left.len() implies nonneg((#[trigger] left[i]).size) by {
                if i > 0 {
                    assert(left[i] == tail[i - 1]);
                }
            }
        }
    }
}

/// Dropping the levels that hold only a trace loses less than a trace for each.
proof fn lemma_live_total(levels: Seq<BookLevel>)
    requires
        sound_sizes(levels),
    ensures
        total_size(live_levels(levels)) <= total_size(levels),
        total_size(levels) <= total_size(live_levels(levels)) + exact(Num::ratio(1, 1_000_000_000))
            * levels.len() as real,
    decreases levels.len(),
{
    let e = exact(Num::ratio(1, 1_000_000_000));
    lemma_billionth();
    if levels.len() > 0 {
        let front = levels.drop_last();
        let x = levels.last();
        let k = levels.len() as real;
        assert(sound_sizes(front)) by {
            assert forall|i: int| 0 <= i < front.len() implies nonneg((#[trigger] front[i]).size) by {
                assert(front[i] == levels[i]);
            }
        }
        lemma_live_total(front);
        lemma_exact_nonneg(x.size);
        lemma_exact_order(x.size, Num::ratio(1, 1_000_000_000));
        assert(e * k == e * (k - 1int as real) + e) by (nonlinear_arith);
        if x.size.gt(Num::ratio(1, 1_000_000_000)) {
            assert(live_levels(levels).drop_last() == live_levels(front));
        }
    }
}

/// How far the size that leaves the book may lie from the shares of a fill: a trace for
/// each level, and rounding.
pub open spec fn fill_slack(asks: Seq<BookLevel>, shares: Num) -> real {
    exact(Num::ratio(1, 1_000_000_000)) * asks.len() as real + (2int as real * exact(shares)
        * asks.len() as real + total_size(asks)) / parts()
}

/// A fill takes its shares out of the book: the size of all asks falls by the shares that
/// were bought, up to rounding and the traces that are dropped. That is within a millionth
/// in a book of up to a hundred levels with up to ten million shares.
pub proof fn law_fill_takes_its_shares(asks: Seq<BookLevel>, max_pay: Num, clip_usd: Num)
    requires
        sound_sizes(asks),
        limit_fill(asks, max_pay, clip_usd) matches Some(fill) && fill.0.is_finite(),
    ensures
        ({
            let n = (limit_fill(asks, max_pay, clip_usd)->0).0;
            let left = live_levels(taken(asks, max_pay, n));
            let off = dist(total_size(asks) - total_size(left), exact(n));
            &&& off <= fill_slack(asks, n)
            &&& asks.len() <= 100 && total_size(asks) <= 10_000_000int as real && exact(n)
                <= 10_000_000int as real ==> off <= 1int as real / 1_000_000int as real
        }),
{
    let start = Walk { remaining: clip_usd, shares: Num::zero(), spent: Num::zero() };
    let n = (limit_fill(asks, max_pay, clip_usd)->0).0;
    let left = taken(asks, max_pay, n);
    let live = live_levels(left);
    let k = asks.len() as real;
    let x = exact(n);
    lemma_exact_one();
    assert(asks.skip(0) == asks);
    lemma_walk_grows(asks, 0, max_pay, start);
    lemma_walk_shares(asks, 0, max_pay, start);
    lemma_exact_nonneg(n);
    lemma_taken(asks, max_pay, n, n);
    lemma_live_total(left);
    lemma_total_nonneg(asks);
    lemma_billionth();
    let y = x * k;
    assert(y >= 0int as real && 2int as real * x * k == 2int as real * y) by (nonlinear_arith)
        requires
            y == x * k,
            x >= 0int as real,
            k >= 0int as real,
    ;
    let e = exact(Num::ratio(1, 1_000_000_000));
    let ek = e * k;
    assert(ek >= 0int as real) by (nonlinear_arith)
        requires
            ek == e * k,
            e >= 0int as real,
            k >= 0int as real,
    ;
    if asks.len() <= 100 && x <= 10_000_000int as real {
        assert(y <= 1_000_000_000int as real && ek <= 100int as real * e) by (nonlinear_arith)
            requires
                y == x * k,
                ek == e * k,
                0int as real <= x,
                x <= 10_000_000int as real,
                0int as real <= k,
                k <= 100int as real,
                e >= 0int as real,
        ;
    }
}

proof fn lemma_taken_dear(asks: Seq<BookLevel>, k: int, max_pay: Num, shares: Num)
    requires
        0 <= k < asks.len(),
        asks[k].price.gt(max_pay),
    ensures
        taken(asks, max_pay, shares) == taken(asks.take(k), max_pay, shares) + asks.skip(k),
    decreases k,
{
    if k == 0 {
        assert(asks.take(0) + asks.skip(0) == asks);
    } else if asks[0].price.gt(max_pay) || shares.le(Num::zero()) {
        assert(asks.take(k)[0] == asks[0]);
        assert(asks.take(k) + asks.skip(k) == asks);
    } else {
        let take = asks[0].size.min(shares);
        let rest = asks.drop_first();
        lemma_taken_dear(rest, k - 1, max_pay, shares - take);
        assert(asks.take(k)[0] == asks[0]);
        assert(asks.take(k).drop_first() == rest.take(k - 1));
        assert(rest.skip(k - 1) == asks.skip(k));
        let first = seq![BookLevel { price: asks[0].price, size: asks[0].size - take }];
        let tail = taken(rest.take(k - 1), max_pay, shares - take);
        assert(first + (tail + asks.skip(k)) == (first + tail) + asks.skip(k));
    }
}

proof fn lemma_live_add(a: Seq<BookLevel>, b: Seq<BookLevel>)
    requires
        forall|i: int|
            0 <= i < b.len() ==> (#[trigger] b[i]).size.gt(Num::ratio(1, 1_000_000_000)),
    ensures
        live_levels(a + b) == live_levels(a) + b,
    decreases b.len(),
{
    if b.len() == 0 {
        assert(a + b == a);
        assert(live_levels(a) + b == live_levels(a));
    } else {
        let front = b.drop_last();
        assert((a + b).drop_last() == a + front);
        assert forall|i: int| 0 <= i < front.len() implies (#[trigger] front[i]).size.gt(
            Num::ratio(1, 1_000_000_000),
        ) by {
            assert(front[i] == b[i]);
        }
        lemma_live_add(a, front);
        assert(b[b.len() - 1] == b.last());
        assert((live_levels(a) + front).push(b.last()) == live_levels(a) + b);
    }
}

/// A level above the price that a fill may pay stays as it was, and so does all that is
/// behind it.
pub proof fn law_dear_levels_stay(asks: Seq<BookLevel>, k: int, max_pay: Num, shares: Num)
    requires
        0 <= k < asks.len(),
        asks[k].price.gt(max_pay),
        forall|i: int|
            k <= i < asks.len() ==> (#[trigger] asks[i]).size.gt(Num::ratio(1, 1_000_000_000)),
    ensures
        live_levels(taken(asks, max_pay, shares)) == live_levels(
            taken(asks.take(k), max_pay, shares),
        ) + asks.skip(k),
{
    lemma_taken_dear(asks, k, max_pay, shares);
    let b = asks.skip(k);
    assert forall|i: int| 0 <= i < b.len() implies (#[trigger] b[i]).size.gt(
        Num::ratio(1, 1_000_000_000),
    ) by {
        assert(b[i] == asks[i + k]);
    }
    lemma_live_add(taken(asks.take(k), max_pay, shares), b);
}

/// The levels that stay after a fill stay in their order: each is a level that was there,
/// and none moves in front of another.
pub proof fn law_kept_levels_in_order(levels: Seq<BookLevel>) -> (places: Seq<int>)
    ensures
        places.len() == live_levels(levels).len(),
        forall|i: int|
            0 <= i < places.len() ==> 0 <= #[trigger] places[i] < levels.len()
                && live_levels(levels)[i] == levels[places[i]],
        forall|i: int, j: int| 0 <= i < j < places.len() ==> places[i] < places[j],
    decreases levels.len(),
{
    if levels.len() == 0 {
        Seq::<int>::empty()
    } else {
        let front = levels.drop_last();
        let places = law_kept_levels_in_order(front);
        assert forall|i: int| 0 <= i < places.len() implies levels[#[trigger] places[i]]
            == front[places[i]] by {}
        if levels.last().size.gt(Num::ratio(1, 1_000_000_000)) {
            let all = places.push(levels.len() - 1);
            assert forall|i: int| 0 <= i < all.len() implies 0 <= #[trigger] all[i] < levels.len()
                && live_levels(levels)[i] == levels[all[i]] by {
                if i < places.len() {
                    assert(all[i] == places[i]);
                }
            }
            assert forall|i: int, j: int| 0 <= i < j < all.len() implies all[i] < all[j] by {
                if j < places.len() {
                    assert(all[i] == places[i] && all[j] == places[j]);
                } else {
                    assert(all[i] == places[i]);
                }
            }
            all
        } else {
            places
        }
    }
}

/// Prices that are finite and positive.
pub open spec fn sound_prices(levels: Seq<BookLevel>) -> bool {
    forall|i: int|
        0 <= i < levels.len() ==> nonneg((#[trigger] levels[i]).price) && levels[i].price.key() > 0
}

proof fn lemma_gains(x: Num, c: Num)
    requires
        nonneg(x) || x.is_inf() && !x.is_neg(),
        !c.is_nan(),
        c.key() >= 0,
    ensures
        x.le(x + c),
        (x + c).is_finite() ==> nonneg(x) && nonneg(c),
        nonneg(x + c) || (x + c).is_inf() && !(x + c).is_neg(),
{
    if c.is_finite() {
        lemma_add_grows(x, c);
    }
    reveal(Num::spec_add);
}

/// The money that a walk spends only grows.
proof fn lemma_walk_spends(asks: Seq<BookLevel>, i: int, limit: Num, w: Walk)
    requires
        sound_sizes(asks),
        sound_prices(asks),
        0 <= i,
        nonneg(w.spent) || w.spent.is_inf() && !w.spent.is_neg(),
    ensures
        w.spent.le(walk(asks, i, limit, w).spent),
    decreases asks.len() - i,
{
    if i < asks.len() && !asks[i].price.gt(limit) {
        let fill = asks[i].size.min(w.remaining / asks[i].price);
        if fill.le(Num::zero()) {
            lemma_walk_spends(asks, i + 1, limit, w);
        } else {
            lemma_fill_bounded(asks[i].size, w.remaining / asks[i].price);
            let cost = fill * asks[i].price;
            lemma_mul_mag(fill, asks[i].price);
            lemma_gains(w.spent, cost);
            let next = Walk {
                remaining: w.remaining - cost,
                shares: w.shares + fill,
                spent: w.spent + cost,
            };
            lemma_walk_spends(asks, i + 1, limit, next);
        }
    }
}

/// What a level of `size` at `price` costs stays within the money that is left, up to
/// rounding.
proof fn lemma_fill_cost(size: Num, price: Num, left: Num)
    requires
        nonneg(size),
        nonneg(price),
        price.key() > 0,
        nonneg(left),
        !size.min(left / price).le(Num::zero()),
        (size.min(left / price) * price).is_finite(),
    ensures
        ({
            let fill = size.min(left / price);
            let cost = fill * price;
            &&& nonneg(cost)
            &&& parts() * dist(exact(cost), exact(fill) * exact(price)) <= exact(fill) * exact(price)
                + 1int as real
            &&& parts() * (exact(cost) - exact(left)) <= 3int as real * exact(left) + 16int as real
        }),
{
    let q = left / price;
    let fill = size.min(q);
    let cost = fill * price;
    lemma_fill_bounded(size, q);
    lemma_exact_nonneg(fill);
    lemma_exact_nonneg(price);
    lemma_exact_nonneg(left);
    lemma_mul_error(fill, price);
    lemma_trace_small(price);
    lemma_div_mag(left, price);
    let (x, y, z) = (exact(fill), exact(price), exact(left));
    if q.is_finite() {
        lemma_div_error(left, price);
        lemma_exact_order(fill, q);
        assert(x * y <= exact(q) * y) by (nonlinear_arith)
            requires
                x <= exact(q),
                y >= 0int as real,
        ;
    } else {
        lemma_over(size, price, left);
    }
}

/// Where a quotient is beyond all numbers, each number times the divisor is below the
/// dividend.
proof fn lemma_over(size: Num, price: Num, left: Num)
    requires
        nonneg(size),
        nonneg(price),
        price.key() > 0,
        nonneg(left),
        !(left / price).is_finite(),
    ensures
        exact(size) * exact(price) <= exact(left),
{
    lemma_div_mag(left, price);
    lemma_exact_nonneg(size);
    lemma_exact_nonneg(price);
    lemma_exact_nonneg(left);
    lemma_units_nonneg(price.mag());
    lemma_pow2_pos(1074);
    let d = pow2(1074) as int;
    let us = units(size.mag());
    let up = units(price.mag());
    let ul = units(left.mag());
    if us * up >= ul * d {
        assert(ul * d >= 0 && (ul * d) * up <= (us * up) * up) by (nonlinear_arith)
            requires
                ul >= 0,
                d > 0,
                up >= 0,
                us * up >= ul * d,
        ;
        lemma_encode_mono(ul * d, up, us * up, up);
        lemma_encode_exact(size.mag(), up);
    }
    lemma_real_product(us, up);
    lemma_real_product(ul, d);
    let k = d as real;
    let (x, y, z) = (us as real, up as real, ul as real);
    assert((x / k) * (y / k) <= z / k) by (nonlinear_arith)
        requires
            x * y <= z * k,
            k > 0int as real,
    ;
}

/// A walk spends no more than the money that is left, up to rounding.
proof fn lemma_walk_money(asks: Seq<BookLevel>, i: int, limit: Num, w: Walk, most: Num)
    requires
        sound_sizes(asks),
        sound_prices(asks),
        0 <= i <= asks.len(),
        nonneg(w.spent),
        nonneg(w.remaining),
        nonneg(most),
        w.remaining.le(most),
        walk(asks, i, limit, w).spent.is_finite(),
    ensures
        ({
            let r = exact(walk(asks, i, limit, w).spent);
            let k = (asks.len() - i) as real;
            let m = exact(most);
            parts() * (r - exact(w.spent) - exact(w.remaining)) <= (2int as real * r + m
                + 1int as real) * k + 3int as real * m + 16int as real
        }),
    decreases asks.len() - i,
{
    let end = walk(asks, i, limit, w);
    let r = exact(end.spent);
    let k = (asks.len() - i) as real;
    let m = exact(most);
    lemma_walk_spends(asks, i, limit, w);
    lemma_exact_nonneg(w.spent);
    lemma_exact_nonneg(w.remaining);
    lemma_exact_nonneg(most);
    lemma_exact_order(w.spent, end.spent);
    lemma_exact_order(w.remaining, most);
    let z = 2int as real * r + m + 1int as real;
    assert(z * k >= 0int as real) by (nonlinear_arith)
        requires
            z >= 0int as real,
            k >= 0int as real,
    ;
    if i < asks.len() && !asks[i].price.gt(limit) {
        assert(z * k == z * (k - 1int as real) + z) by (nonlinear_arith);
        assert(z * (k - 1int as real) >= 0int as real) by (nonlinear_arith)
            requires
                z >= 0int as real,
                k >= 1int as real,
        ;
        let price = asks[i].price;
        let fill = asks[i].size.min(w.remaining / price);
        if fill.le(Num::zero()) {
            lemma_walk_money(asks, i + 1, limit, w, most);
        } else {
            let cost = fill * price;
            let next = Walk {
                remaining: w.remaining - cost,
                shares: w.shares + fill,
                spent: w.spent + cost,
            };
            lemma_fill_bounded(asks[i].size, w.remaining / price);
            lemma_mul_mag(fill, price);
            lemma_gains(w.spent, cost);
            lemma_walk_spends(asks, i + 1, limit, next);
            assert(next.spent.le(end.spent));
            assert(next.spent.is_finite());
            lemma_fill_cost(asks[i].size, price, w.remaining);
            lemma_exact_nonneg(cost);
            lemma_add_error(w.spent, cost);
            lemma_exact_order(next.spent, end.spent);
            lemma_sub_finite(w.remaining, cost);
            lemma_sub_error(w.remaining, cost);
            lemma_sub_shrinks(w.remaining, cost);
            if !next.remaining.lt(Num::ratio(1, 100)) {
                lemma_ratio_nonneg(1, 100);
                lemma_exact_nonneg(next.remaining);
                lemma_walk_money(asks, i + 1, limit, next, most);
            }
        }
    }
}

/// One step of a walk, in values: `f` shares at `p` for the rounded cost `c`, with the
/// money and the shares before and after.
proof fn lemma_average_step(
    f: real,
    p: real,
    c: real,
    s: real,
    s1: real,
    n: real,
    n1: real,
    lo: real,
    hi: real,
    r: real,
    all: real,
)
    requires
        0int as real <= f,
        0int as real <= lo <= p <= hi,
        0int as real <= c,
        0int as real <= s,
        0int as real <= n,
        n1 <= all,
        s1 <= r,
        parts() * dist(c, f * p) <= f * p + 1int as real,
        parts() * dist(s1, s + c) <= s + c,
        parts() * dist(n1, n + f) <= n + f,
    ensures
        parts() * ((s1 - s) - hi * (n1 - n)) <= 2int as real * r + 4int as real * (hi * all)
            + 1int as real,
        parts() * (lo * (n1 - n) - (s1 - s)) <= 2int as real * r + 4int as real * (hi * all)
            + 1int as real,
{
    assert(n + f <= 2int as real * n1);
    assert(s + c <= 2int as real * s1);
    assert(f * lo <= f * p && f * p <= f * hi) by (nonlinear_arith)
        requires
            0int as real <= f,
            lo <= p,
            p <= hi,
    ;
    assert(f * hi <= (2int as real * all) * hi && hi * (n + f) <= (2int as real * all) * hi)
        by (nonlinear_arith)
        requires
            f <= 2int as real * all,
            n + f <= 2int as real * all,
            0int as real <= hi,
    ;
    assert((2int as real * all) * hi == 2int as real * (hi * all)) by (nonlinear_arith);
    lemma_scaled(hi, n1, n + f, n + f);
    lemma_scaled(lo, n1, n + f, n + f);
    assert(lo * (n + f) <= hi * (n + f)) by (nonlinear_arith)
        requires
            lo <= hi,
            n + f >= 0int as real,
    ;
    assert(hi * (n + f) == hi * n + f * hi && lo * (n + f) == lo * n + f * lo)
        by (nonlinear_arith);
    assert(hi * (n1 - n) == hi * n1 - hi * n && lo * (n1 - n) == lo * n1 - lo * n)
        by (nonlinear_arith);
}

/// What a walk pays lies between the best price and the limit for each share, up to
/// rounding.
proof fn lemma_walk_average(asks: Seq<BookLevel>, i: int, best: Num, limit: Num, w: Walk)
    requires
        sound_sizes(asks),
        sound_prices(asks),
        0 <= i <= asks.len(),
        nonneg(best),
        limit.is_finite(),
        best.le(limit),
        forall|j: int| i <= j < asks.len() ==> best.le((#[trigger] asks[j]).price),
        nonneg(w.spent),
        nonneg(w.shares),
        walk(asks, i, limit, w).spent.is_finite(),
        walk(asks, i, limit, w).shares.is_finite(),
    ensures
        ({
            let end = walk(asks, i, limit, w);
            let (r, n) = (exact(end.spent), exact(end.shares));
            let (s0, n0) = (exact(w.spent), exact(w.shares));
            let (lo, hi) = (exact(best), exact(limit));
            let z = 2int as real * r + 4int as real * (hi * n) + 1int as real;
            let k = (asks.len() - i) as real;
            &&& parts() * ((r - s0) - hi * (n - n0)) <= z * k
            &&& parts() * (lo * (n - n0) - (r - s0)) <= z * k
        }),
    decreases asks.len() - i,
{
    let end = walk(asks, i, limit, w);
    let (r, n) = (exact(end.spent), exact(end.shares));
    let (s0, n0) = (exact(w.spent), exact(w.shares));
    let (lo, hi) = (exact(best), exact(limit));
    let z = 2int as real * r + 4int as real * (hi * n) + 1int as real;
    let k = (asks.len() - i) as real;
    lemma_walk_spends(asks, i, limit, w);
    lemma_walk_grows(asks, i, limit, w);
    lemma_exact_nonneg(w.spent);
    lemma_exact_nonneg(w.shares);
    lemma_exact_nonneg(best);
    lemma_exact_order(w.spent, end.spent);
    lemma_exact_order(w.shares, end.shares);
    lemma_exact_order(best, limit);
    assert(hi * n >= 0int as real) by (nonlinear_arith)
        requires
            hi >= 0int as real,
            n >= 0int as real,
    ;
    assert(z * k >= 0int as real) by (nonlinear_arith)
        requires
            z >= 0int as real,
            k >= 0int as real,
    ;
    if i < asks.len() && !asks[i].price.gt(limit) {
        assert(z * k == z * (k - 1int as real) + z) by (nonlinear_arith);
        assert(z * (k - 1int as real) >= 0int as real) by (nonlinear_arith)
            requires
                z >= 0int as real,
                k >= 1int as real,
        ;
        let price = asks[i].price;
        let fill = asks[i].size.min(w.remaining / price);
        if fill.le(Num::zero()) {
            lemma_walk_average(asks, i + 1, best, limit, w);
        } else {
            let cost = fill * price;
            let next = Walk {
                remaining: w.remaining - cost,
                shares: w.shares + fill,
                spent: w.spent + cost,
            };
            lemma_fill_bounded(asks[i].size, w.remaining / price);
            lemma_mul_mag(fill, price);
            lemma_gains(w.spent, cost);
            lemma_gains(w.shares, fill);
            lemma_walk_spends(asks, i + 1, limit, next);
            lemma_walk_grows(asks, i + 1, limit, next);
            assert(next.spent.le(end.spent) && next.shares.le(end.shares));
            assert(next.spent.is_finite() && next.shares.is_finite());
            lemma_exact_nonneg(fill);
            lemma_exact_nonneg(price);
            lemma_mul_error(fill, price);
            lemma_trace_small(price);
            lemma_exact_nonneg(cost);
            lemma_add_error(w.spent, cost);
            lemma_add_error(w.shares, fill);
            lemma_exact_order(next.spent, end.spent);
            lemma_exact_order(next.shares, end.shares);
            lemma_exact_order(best, price);
            lemma_exact_order(price, limit);
            lemma_average_step(
                exact(fill),
                exact(price),
                exact(cost),
                s0,
                exact(next.spent),
                n0,
                exact(next.shares),
                lo,
                hi,
                r,
                n,
            );
            let n1 = exact(next.shares);
            assert(hi * (n - n0) == hi * (n - n1) + hi * (n1 - n0) && lo * (n - n0) == lo * (n - n1)
                + lo * (n1 - n0)) by (nonlinear_arith);
            if !next.remaining.lt(Num::ratio(1, 100)) {
                lemma_walk_average(asks, i + 1, best, limit, next);
            } else {
                assert(hi * (n - n1) == 0int as real && lo * (n - n1) == 0int as real)
                    by (nonlinear_arith)
                    requires
                        n == n1,
                ;
            }
        }
    } else {
        assert(hi * (n - n0) == 0int as real && lo * (n - n0) == 0int as real) by (nonlinear_arith)
            requires
                n == n0,
        ;
    }
}

/// How far rounding may move the money of a fill in a book of `levels` levels.
pub open spec fn pay_slack(levels: nat, paid: real, bound: real) -> real {
    (4int as real * paid + 6int as real * bound + 40int as real) * (levels + 1) as real / parts()
}

/// A limit buy pays on average no less than the best ask and no more than its limit, and
/// for all its shares no more than the money it was given, up to rounding.
pub proof fn law_fill_pays_within_limits(asks: Seq<BookLevel>, limit: Num, max_usd: Num)
    requires
        ordered(asks, false),
        sound_sizes(asks),
        sound_prices(asks),
        limit.is_finite(),
        max_usd.is_finite(),
        limit_fill(asks, limit, max_usd) matches Some(fill) && fill.0.is_finite()
            && fill.1.is_finite(),
    ensures
        ({
            let (shares, average) = limit_fill(asks, limit, max_usd)->0;
            let n = exact(shares);
            let paid = exact(average) * n;
            let dear = exact(limit) * n;
            let money = exact(max_usd);
            &&& n > 0int as real
            &&& paid >= exact(asks[0].price) * n - pay_slack(asks.len(), paid, dear)
            &&& paid <= dear + pay_slack(asks.len(), paid, dear)
            &&& paid <= money + pay_slack(asks.len(), paid, money)
        }),
{
    let start = Walk { remaining: max_usd, shares: Num::zero(), spent: Num::zero() };
    let end = walk(asks, 0, limit, start);
    let (shares, average) = limit_fill(asks, limit, max_usd)->0;
    let best = asks[0].price;
    lemma_exact_one();
    lemma_walk_grows(asks, 0, limit, start);
    lemma_walk_spends(asks, 0, limit, start);
    lemma_exact_nonneg(shares);
    if !end.spent.is_finite() {
        reveal(Num::spec_div);
        assert(average.is_inf());
    }
    assert(asks.len() > 0 && !best.gt(limit));
    assert forall|j: int| 0 <= j < asks.len() implies best.le((#[trigger] asks[j]).price) by {
        assert(rank(asks[0], false) <= rank(asks[j], false));
    }
    lemma_walk_average(asks, 0, best, limit, start);
    lemma_walk_money(asks, 0, limit, start, max_usd);
    lemma_div_error(end.spent, shares);
    lemma_exact_nonneg(end.spent);
    lemma_exact_nonneg(average);
    lemma_exact_nonneg(max_usd);
    lemma_exact_nonneg(best);
    lemma_exact_order(best, limit);
    lemma_trace_small(shares);
    let n = exact(shares);
    let r = exact(end.spent);
    let paid = exact(average) * n;
    let dear = exact(limit) * n;
    let money = exact(max_usd);
    let k = asks.len() as real;
    assert(paid >= 0int as real && dear >= 0int as real) by (nonlinear_arith)
        requires
            paid == exact(average) * n,
            dear == exact(limit) * n,
            exact(average) >= 0int as real,
            exact(limit) >= 0int as real,
            n >= 0int as real,
    ;
    assert(exact(limit) * (n - 0int as real) == dear);
    assert(r <= 2int as real * paid + 1int as real);
    lemma_slack_sum(r, paid, dear, k, 4int as real);
    lemma_slack_sum(r, paid, money, k, 1int as real);
    assert((asks.len() + 1) as real == k + 1int as real);
}

/// The slack of a walk and of its average, in one figure.
proof fn lemma_slack_sum(r: real, paid: real, bound: real, k: real, c: real)
    requires
        0int as real <= k,
        0int as real <= paid,
        0int as real <= bound,
        r <= 2int as real * paid + 1int as real,
        c <= 4int as real,
    ensures
        (2int as real * r + c * bound + 1int as real) * k + r + 4int as real + 3int as real * bound
            + 16int as real <= (4int as real * paid + 6int as real * bound + 40int as real) * (k
            + 1int as real),
{
    let a = 2int as real * r + c * bound + 1int as real;
    let b = 4int as real * paid + 6int as real * bound + 40int as real;
    assert(c * bound <= 4int as real * bound) by (nonlinear_arith)
        requires
            c <= 4int as real,
            0int as real <= bound,
    ;
    assert(a <= b);
    assert(a * k <= b * k && b * (k + 1int as real) == b * k + b) by (nonlinear_arith)
        requires
            a <= b,
            0int as real <= k,
    ;
}

/// A book of one level within the limit gives its whole size, or what the money buys at its
/// price where that is less.
pub proof fn law_one_level_is_bought(level: BookLevel, limit: Num, max_usd: Num)
    requires
        nonneg(level.size),
        Num::zero().lt(level.price) && level.price.le(limit),
        Num::zero().lt(max_usd),
        Num::zero().lt(level.size.min(max_usd / level.price)),
    ensures
        limit_fill(seq![level], limit, max_usd) matches Some(fill) && fill.0 == level.size.min(
            max_usd / level.price,
        ),
{
    let asks = seq![level];
    let n = level.size.min(max_usd / level.price);
    lemma_fill_bounded(level.size, max_usd / level.price);
    lemma_add_comm(Num::zero(), n);
    lemma_zero_sum(n, Num::zero());
    reveal_with_fuel(walk, 2);
}

/// A fill takes at least what the best level alone gives.
pub proof fn law_best_level_is_taken(asks: Seq<BookLevel>, limit: Num, max_usd: Num)
    requires
        sound_sizes(asks),
        asks.len() > 0,
        Num::zero().lt(asks[0].price) && asks[0].price.le(limit),
        Num::zero().lt(max_usd),
        Num::zero().lt(asks[0].size.min(max_usd / asks[0].price)),
    ensures
        limit_fill(asks, limit, max_usd) matches Some(fill) && asks[0].size.min(
            max_usd / asks[0].price,
        ).le(fill.0),
{
    let n = asks[0].size.min(max_usd / asks[0].price);
    lemma_fill_bounded(asks[0].size, max_usd / asks[0].price);
    lemma_add_comm(Num::zero(), n);
    lemma_zero_sum(n, Num::zero());
    let cost = n * asks[0].price;
    let next = Walk {
        remaining: max_usd - cost,
        shares: Num::zero() + n,
        spent: Num::zero() + cost,
    };
    lemma_walk_grows(asks, 1, limit, next);
}

/// The depth up to a price counts each level at or below it with its price times its size,
/// and no level above it.
pub proof fn law_depth_counts_the_payable_levels(
    asks: Seq<BookLevel>,
    level: BookLevel,
    max_pay: Num,
)
    ensures
        level.price.le(max_pay) ==> depth_sum(asks.push(level), max_pay) == depth_sum(asks, max_pay)
            + level.price * level.size,
        !level.price.le(max_pay) ==> depth_sum(asks.push(level), max_pay) == depth_sum(
            asks,
            max_pay,
        ),
{
    assert(asks.push(level).drop_last() == asks);
}

/// A listed level is kept exactly where its price and its size are positive, behind those
/// that came before it.
pub proof fn law_empty_levels_are_dropped(items: Seq<Json>, v: Json)
    ensures
        ({
            let l = level_of(v);
            let kept = Num::zero().lt(l.price) && Num::zero().lt(l.size);
            levels_of(items.push(v)) == if kept {
                levels_of(items).push(l)
            } else {
                levels_of(items)
            }
        }),
{
    assert(items.push(v).drop_last() == items);
}

/// A taker buys nothing where the best ask is above what may be paid, the book's fill within
/// that where there is a book, and else the clip at the best ask.
pub proof fn law_taker_pays_no_more_than_allowed(
    asks: Seq<BookLevel>,
    best_ask: Num,
    max_pay: Num,
    clip_usd: Num,
)
    ensures
        max_pay.lt(best_ask) || best_ask.le(Num::zero()) ==> taker_fill(
            asks,
            best_ask,
            max_pay,
            clip_usd,
        ) is None,
        Num::zero().lt(best_ask) && best_ask.le(max_pay) && asks.len() == 0 ==> taker_fill(
            asks,
            best_ask,
            max_pay,
            clip_usd,
        ) == Some((clip_usd / best_ask, best_ask)),
        Num::zero().lt(best_ask) && best_ask.le(max_pay) && asks.len() > 0 ==> taker_fill(
            asks,
            best_ask,
            max_pay,
            clip_usd,
        ) == limit_fill(asks, max_pay, clip_usd),
{
}

proof fn lemma_put_in_order(levels: Seq<BookLevel>, x: BookLevel, falling: bool)
    requires
        ordered(levels, falling),
    ensures
        ordered(put(levels, x, falling), falling),
        put(levels, x, falling).contains(x),
        forall|l: BookLevel| levels.contains(l) ==> #[trigger] put(levels, x, falling).contains(l),
        forall|l: BookLevel| #[trigger]
            put(levels, x, falling).contains(l) ==> l == x || levels.contains(l),
    decreases levels.len(),
{
    let r = put(levels, x, falling);
    if levels.len() == 0 || rank(levels.last(), falling) <= rank(x, falling) {
        assert(r[levels.len() as int] == x);
        assert forall|i: int, j: int| 0 <= i <= j < r.len() implies rank(r[i], falling) <= rank(
            r[j],
            falling,
        ) by {
            if j == levels.len() && i < levels.len() {
                assert(rank(levels[i], falling) <= rank(levels[levels.len() - 1], falling));
            }
        }
        assert forall|l: BookLevel| levels.contains(l) implies #[trigger] r.contains(l) by {
            let k = choose|k: int| 0 <= k < levels.len() && levels[k] == l;
            assert(r[k] == l);
        }
        assert forall|l: BookLevel| #[trigger] r.contains(l) implies l == x || levels.contains(
            l,
        ) by {
            let k = choose|k: int| 0 <= k < r.len() && r[k] == l;
            if k < levels.len() {
                assert(levels[k] == l);
            }
        }
    } else {
        let front = levels.drop_last();
        let last = levels.last();
        let a = put(front, x, falling);
        assert(ordered(front, falling)) by {
            assert forall|i: int, j: int| 0 <= i <= j < front.len() implies rank(
                front[i],
                falling,
            ) <= rank(front[j], falling) by {
                assert(rank(levels[i], falling) <= rank(levels[j], falling));
            }
        }
        lemma_put_in_order(front, x, falling);
        assert(r == a.push(last));
        assert forall|i: int, j: int| 0 <= i <= j < r.len() implies rank(r[i], falling) <= rank(
            r[j],
            falling,
        ) by {
            if j == a.len() && i < a.len() {
                assert(a.contains(a[i]));
                if a[i] != x {
                    let k = choose|k: int| 0 <= k < front.len() && front[k] == a[i];
                    assert(rank(levels[k], falling) <= rank(levels[levels.len() - 1], falling));
                }
            }
        }
        let p = choose|p: int| 0 <= p < a.len() && a[p] == x;
        assert(r[p] == x);
        assert forall|l: BookLevel| levels.contains(l) implies #[trigger] r.contains(l) by {
            let k = choose|k: int| 0 <= k < levels.len() && levels[k] == l;
            if k < front.len() {
                assert(front[k] == l);
                assert(front.contains(l));
                assert(a.contains(l));
                let q = choose|q: int| 0 <= q < a.len() && a[q] == l;
                assert(r[q] == l);
            } else {
                assert(r[a.len() as int] == l);
            }
        }
        assert forall|l: BookLevel| #[trigger] r.contains(l) implies l == x || levels.contains(
            l,
        ) by {
            let k = choose|k: int| 0 <= k < r.len() && r[k] == l;
            if k < a.len() {
                assert(a[k] == l);
                assert(a.contains(l));
                if l != x {
                    let q = choose|q: int| 0 <= q < front.len() && front[q] == l;
                    assert(levels[q] == l);
                }
            } else {
                assert(levels[levels.len() - 1] == l);
            }
        }
    }
}

proof fn lemma_sorted_in_order(levels: Seq<BookLevel>, falling: bool)
    ensures
        ordered(sorted_levels(levels, falling), falling),
        forall|l: BookLevel|
            levels.contains(l) <==> #[trigger] sorted_levels(levels, falling).contains(l),
    decreases levels.len(),
{
    if levels.len() > 0 {
        let front = levels.drop_last();
        lemma_sorted_in_order(front, falling);
        let s = sorted_levels(front, falling);
        let r = put(s, levels.last(), falling);
        lemma_put_in_order(s, levels.last(), falling);
        assert forall|l: BookLevel| levels.contains(l) implies #[trigger] r.contains(l) by {
            let k = choose|k: int| 0 <= k < levels.len() && levels[k] == l;
            if k < front.len() {
                assert(front[k] == l);
                assert(front.contains(l));
                assert(s.contains(l));
            }
        }
        assert forall|l: BookLevel| #[trigger] r.contains(l) implies levels.contains(l) by {
            if l == levels.last() {
                assert(levels[levels.len() - 1] == l);
            } else {
                assert(s.contains(l));
                assert(front.contains(l));
                let k = choose|k: int| 0 <= k < front.len() && front[k] == l;
                assert(levels[k] == l);
            }
        }
    }
}

/// The quotes that a book shows are its best: no bid is above the shown bid and no ask below
/// the shown ask, both are prices of the book, and an empty side shows none.
pub proof fn law_book_shows_its_best_quotes(bids: Option<Seq<Json>>, asks: Option<Seq<Json>>)
    ensures
        ({
            let c = book_contract(bids, asks);
            let (b, a) = (items_or_none(bids), items_or_none(asks));
            &&& forall|i: int| 0 <= i < b.len() ==> (#[trigger] b[i]).price.key() <= c.bid.key()
            &&& forall|i: int| 0 <= i < a.len() ==> c.ask.key() <= (#[trigger] a[i]).price.key()
            &&& b.len() > 0 ==> c.bids.len() > 0 && c.bid == c.bids[0].price && b.contains(c.bids[0])
            &&& a.len() > 0 ==> c.asks.len() > 0 && c.ask == c.asks[0].price && a.contains(c.asks[0])
            &&& b.len() == 0 ==> c.bid == Num::zero()
            &&& a.len() == 0 ==> c.ask == Num::zero()
        }),
{
    let c = book_contract(bids, asks);
    let (b, a) = (items_or_none(bids), items_or_none(asks));
    lemma_sorted_in_order(b, true);
    lemma_sorted_in_order(a, false);
    assert forall|i: int| 0 <= i < b.len() implies (#[trigger] b[i]).price.key() <= c.bid.key() by {
        assert(b.contains(b[i]));
        assert(c.bids.contains(b[i]));
        let k = choose|k: int| 0 <= k < c.bids.len() && c.bids[k] == b[i];
        assert(rank(c.bids[0], true) <= rank(c.bids[k], true));
    }
    assert forall|i: int| 0 <= i < a.len() implies c.ask.key() <= (#[trigger] a[i]).price.key() by {
        assert(a.contains(a[i]));
        assert(c.asks.contains(a[i]));
        let k = choose|k: int| 0 <= k < c.asks.len() && c.asks[k] == a[i];
        assert(rank(c.asks[0], false) <= rank(c.asks[k], false));
    }
    if b.len() > 0 {
        assert(b.contains(b[0]));
        assert(c.bids.contains(b[0]));
        assert(c.bids.contains(c.bids[0]));
    }
    if a.len() > 0 {
        assert(a.contains(a[0]));
        assert(c.asks.contains(a[0]));
        assert(c.asks.contains(c.asks[0]));
    }
}

} // verus!
