//! Order books: sorted price levels and fills against them.
use crate::json::Json;
use crate::num::Num;
use vstd::prelude::*;

verus! {

#[derive(Debug, Clone, Copy)]
pub struct BookLevel {
    pub price: Num,
    pub size: Num,
}

impl Default for BookLevel {
    fn default() -> (r: Self)
        ensures
            r == (BookLevel { price: Num::zero(), size: Num::zero() }),
    {
        BookLevel { price: Num::zero(), size: Num::zero() }
    }
}

#[derive(Debug, Clone)]
pub struct SideBook {
    pub bids: Vec<BookLevel>,
    pub asks: Vec<BookLevel>,
}

impl Default for SideBook {
    fn default() -> (r: Self)
        ensures
            r.bids@ == Seq::<BookLevel>::empty(),
            r.asks@ == Seq::<BookLevel>::empty(),
    {
        SideBook { bids: Vec::new(), asks: Vec::new() }
    }
}

/// The price of the first level; zero in an empty book side.
pub open spec fn first_price(levels: Seq<BookLevel>) -> Num {
    if levels.len() > 0 {
        levels[0].price
    } else {
        Num::zero()
    }
}

/// The price of the first level; zero in an empty book side.
pub fn top_price(levels: &Vec<BookLevel>) -> (r: Num)
    ensures
        r == first_price(levels@),
{
    if levels.len() > 0 {
        levels[0].price
    } else {
        Num::zero()
    }
}

impl SideBook {
    pub fn best_bid(&self) -> (r: Num)
        ensures
            r == first_price(self.bids@),
    {
        top_price(&self.bids)
    }

    pub fn best_ask(&self) -> (r: Num)
        ensures
            r == first_price(self.asks@),
    {
        top_price(&self.asks)
    }
}

#[derive(Debug, Clone)]
pub struct MarketBooks {
    pub up: SideBook,
    pub down: SideBook,
}

impl Default for MarketBooks {
    fn default() -> (r: Self)
        ensures
            r.up.bids@.len() == 0 && r.up.asks@.len() == 0,
            r.down.bids@.len() == 0 && r.down.asks@.len() == 0,
    {
        MarketBooks { up: SideBook::default(), down: SideBook::default() }
    }
}

/// Sort position of a level: by price, falling where `falling`.
pub open spec fn rank(level: BookLevel, falling: bool) -> int {
    if falling {
        -level.price.key()
    } else {
        level.price.key()
    }
}

pub open spec fn no_nan(levels: Seq<BookLevel>) -> bool {
    forall|i: int| 0 <= i < levels.len() ==> !(#[trigger] levels[i]).price.is_nan()
}

pub open spec fn ordered(levels: Seq<BookLevel>, falling: bool) -> bool {
    forall|i: int, j: int|
        0 <= i <= j < levels.len() ==> rank(levels[i], falling) <= rank(levels[j], falling)
}

/// The levels of one rank, in their order.
pub open spec fn of_rank(levels: Seq<BookLevel>, falling: bool, k: int) -> Seq<BookLevel>
    decreases levels.len(),
{
    if levels.len() == 0 {
        levels
    } else if rank(levels.last(), falling) == k {
        of_rank(levels.drop_last(), falling, k).push(levels.last())
    } else {
        of_rank(levels.drop_last(), falling, k)
    }
}

/// Whether `r` is `s` sorted by price, levels of one price keeping their order.
pub open spec fn stably_sorted(s: Seq<BookLevel>, r: Seq<BookLevel>, falling: bool) -> bool {
    &&& ordered(r, falling)
    &&& r.to_multiset() == s.to_multiset()
    &&& forall|k: int| #[trigger] of_rank(r, falling, k) == of_rank(s, falling, k)
}

/// `levels` with `x` behind all that do not come after it.
pub open spec fn put(levels: Seq<BookLevel>, x: BookLevel, falling: bool) -> Seq<BookLevel>
    decreases levels.len(),
{
    if levels.len() == 0 || rank(levels.last(), falling) <= rank(x, falling) {
        levels.push(x)
    } else {
        put(levels.drop_last(), x, falling).push(levels.last())
    }
}

/// The levels sorted by price, each behind the earlier ones of its price.
pub open spec fn sorted_levels(levels: Seq<BookLevel>, falling: bool) -> Seq<BookLevel>
    decreases levels.len(),
{
    if levels.len() == 0 {
        levels
    } else {
        put(sorted_levels(levels.drop_last(), falling), levels.last(), falling)
    }
}

proof fn lemma_put_at(levels: Seq<BookLevel>, x: BookLevel, falling: bool, i: int)
    requires
        0 <= i <= levels.len(),
        i > 0 ==> rank(levels[i - 1], falling) <= rank(x, falling),
        forall|j: int| i <= j < levels.len() ==> rank(#[trigger] levels[j], falling) > rank(x, falling),
    ensures
        put(levels, x, falling) == levels.insert(i, x),
    decreases levels.len(),
{
    if i == levels.len() {
        assert(levels.insert(i, x) == levels.push(x));
    } else {
        let d = levels.drop_last();
        assert(rank(levels[levels.len() - 1], falling) > rank(x, falling));
        assert forall|j: int| i <= j < d.len() implies rank(#[trigger] d[j], falling) > rank(x, falling) by {
            assert(d[j] == levels[j]);
        }
        lemma_put_at(d, x, falling, i);
        assert(d.insert(i, x).push(levels.last()) == levels.insert(i, x));
    }
}

proof fn lemma_of_rank_add(a: Seq<BookLevel>, b: Seq<BookLevel>, falling: bool, k: int)
    ensures
        of_rank(a + b, falling, k) == of_rank(a, falling, k) + of_rank(b, falling, k),
    decreases b.len(),
{
    if b.len() == 0 {
        assert(a + b == a);
    } else {
        assert((a + b).drop_last() == a + b.drop_last());
        lemma_of_rank_add(a, b.drop_last(), falling, k);
    }
}

proof fn lemma_of_rank_none(a: Seq<BookLevel>, falling: bool, k: int)
    requires
        forall|i: int| 0 <= i < a.len() ==> rank(#[trigger] a[i], falling) != k,
    ensures
        of_rank(a, falling, k) == Seq::<BookLevel>::empty(),
    decreases a.len(),
{
    if a.len() > 0 {
        assert(rank(a[a.len() - 1], falling) != k);
        lemma_of_rank_none(a.drop_last(), falling, k);
    }
}

fn rank_of(level: &BookLevel, falling: bool) -> (r: i64)
    ensures
        r == rank(*level, falling),
{
    if falling {
        -level.price.key_of()
    } else {
        level.price.key_of()
    }
}

proof fn lemma_insert_multiset(s: Seq<BookLevel>, r: Seq<BookLevel>, i: int, x: BookLevel)
    requires
        0 <= i <= s.len(),
        r == s.insert(i, x),
    ensures
        r.to_multiset() == s.to_multiset().insert(x),
{
    let a = s.subrange(0, i);
    let b = s.subrange(i, s.len() as int);
    assert(s == a + b);
    assert(r == a.push(x) + b);
    vstd::seq_lib::lemma_multiset_commutative(a.push(x), b);
    vstd::seq_lib::lemma_multiset_commutative(a, b);
    a.to_multiset_ensures();
    assert(a.push(x).to_multiset() == a.to_multiset().insert(x));
    assert(r.to_multiset() =~= s.to_multiset().insert(x));
}

proof fn lemma_insert_ranks(s: Seq<BookLevel>, r: Seq<BookLevel>, i: int, x: BookLevel, falling: bool)
    requires
        0 <= i <= s.len(),
        r == s.insert(i, x),
        ordered(s, falling),
        i > 0 ==> rank(s[i - 1], falling) <= rank(x, falling),
        forall|j: int| i <= j < s.len() ==> rank(#[trigger] s[j], falling) > rank(x, falling),
    ensures
        ordered(r, falling),
        forall|k: int| #[trigger] of_rank(r, falling, k) == of_rank(s.push(x), falling, k),
{
    let a = s.subrange(0, i);
    let b = s.subrange(i, s.len() as int);
    assert(s == a + b);
    assert(r == a.push(x) + b);
    assert(a.push(x).drop_last() == a);
    assert(s.push(x).drop_last() == s);
    assert forall|k: int| #[trigger] of_rank(r, falling, k) == of_rank(s.push(x), falling, k) by {
        lemma_of_rank_add(a.push(x), b, falling, k);
        lemma_of_rank_add(a, b, falling, k);
        if rank(x, falling) == k {
            lemma_of_rank_none(b, falling, k);
        }
        assert(of_rank(r, falling, k) =~= of_rank(s.push(x), falling, k));
    }
    assert forall|p: int, q: int| 0 <= p <= q < r.len() implies rank(
        r[p],
        falling,
    ) <= rank(r[q], falling) by {
        let p0 = if p < i { p } else { p - 1 };
        let q0 = if q < i { q } else { q - 1 };
        if p != i && q != i {
            assert(r[p] == s[p0] && r[q] == s[q0]);
        } else if q == i && p < i {
            assert(r[p] == s[p]);
            assert(rank(s[p], falling) <= rank(s[i - 1], falling));
        } else if p == i && q > i {
            assert(r[q] == s[q0]);
        }
    }
}

/// The levels with `x` inserted behind all that do not come after it.
fn insert_level(v: Vec<BookLevel>, x: BookLevel, falling: bool) -> (r: Vec<BookLevel>)
    requires
        ordered(v@, falling),
    ensures
        ordered(r@, falling),
        r@ == put(v@, x, falling),
        r@.to_multiset() == v@.to_multiset().insert(x),
        forall|k: int| #[trigger] of_rank(r@, falling, k) == of_rank(v@.push(x), falling, k),
{
    let mut v = v;
    let ghost s = v@;
    let mut i: usize = v.len();
    while i > 0 && rank_of(&v[i - 1], falling) > rank_of(&x, falling)
        invariant
            i <= v.len(),
            v@ == s,
            forall|j: int| i <= j < v.len() ==> rank(#[trigger] s[j], falling) > rank(x, falling),
        decreases i,
    {
        i = i - 1;
    }
    v.insert(i, x);
    proof {
        lemma_insert_ranks(s, v@, i as int, x, falling);
        lemma_insert_multiset(s, v@, i as int, x);
        lemma_put_at(s, x, falling, i as int);
    }
    v
}

fn sort_levels(levels: &Vec<BookLevel>, falling: bool) -> (r: Vec<BookLevel>)
    requires
        no_nan(levels@),
    ensures
        r@ == sorted_levels(levels@, falling),
        stably_sorted(levels@, r@, falling),
{
    let mut out: Vec<BookLevel> = Vec::new();
    let mut i: usize = 0;
    proof {
        assert(levels@.subrange(0, 0) == Seq::<BookLevel>::empty());
        assert(out@ == Seq::<BookLevel>::empty());
    }
    while i < levels.len()
        invariant
            i <= levels.len(),
            out@ == sorted_levels(levels@.subrange(0, i as int), falling),
            stably_sorted(levels@.subrange(0, i as int), out@, falling),
        decreases levels.len() - i,
    {
        let x: BookLevel = levels[i];
        let ghost before = out@;
        let ghost done = levels@.subrange(0, i as int);
        out = insert_level(out, x, falling);
        proof {
            let next = levels@.subrange(0, i + 1);
            assert(next == done.push(x));
            assert(next.drop_last() == done);
            done.to_multiset_ensures();
            assert forall|k: int| #[trigger] of_rank(out@, falling, k) == of_rank(next, falling, k) by {
                assert(next.drop_last() == done);
                assert(before.push(x).drop_last() == before);
                assert(of_rank(before, falling, k) == of_rank(done, falling, k));
            }
        }
        i = i + 1;
    }
    assert(levels@.subrange(0, levels.len() as int) == levels@);
    out
}

/// Bids sorted by falling price.
pub fn sort_bids(levels: Vec<BookLevel>) -> (r: Vec<BookLevel>)
    requires
        no_nan(levels@),
    ensures
        r@ == sorted_levels(levels@, true),
        stably_sorted(levels@, r@, true),
{
    sort_levels(&levels, true)
}

/// Asks sorted by rising price.
pub fn sort_asks(levels: Vec<BookLevel>) -> (r: Vec<BookLevel>)
    requires
        no_nan(levels@),
    ensures
        r@ == sorted_levels(levels@, false),
        stably_sorted(levels@, r@, false),
{
    sort_levels(&levels, false)
}

/// The number under `key`, written as text; zero where there is none.
pub open spec fn level_num(v: Json, key: Seq<char>) -> Num {
    match v.num_text_at(key) {
        Some(x) => x,
        None => Num::zero(),
    }
}

pub open spec fn level_of(v: Json) -> BookLevel {
    BookLevel { price: level_num(v, "price"@), size: level_num(v, "size"@) }
}

/// The levels with a positive price and size among the items, in their order.
pub open spec fn levels_of(items: Seq<Json>) -> Seq<BookLevel>
    decreases items.len(),
{
    if items.len() == 0 {
        Seq::<BookLevel>::empty()
    } else {
        let rest = levels_of(items.drop_last());
        let level = level_of(items.last());
        if level.price.gt(Num::zero()) && level.size.gt(Num::zero()) {
            rest.push(level)
        } else {
            rest
        }
    }
}

fn num_or_zero(x: Option<Num>) -> (r: Num)
    ensures
        r == match x {
            Some(v) => v,
            None => Num::zero(),
        },
{
    match x {
        Some(v) => v,
        None => Num::zero(),
    }
}

/// Price levels of a book message: entries without a positive price and size are
/// dropped.
pub fn parse_levels(arr: Option<&Vec<Json>>) -> (r: Vec<BookLevel>)
    ensures
        r@ == match arr {
            Some(items) => levels_of(items@),
            None => Seq::<BookLevel>::empty(),
        },
        no_nan(r@),
{
    let mut levels: Vec<BookLevel> = Vec::new();
    if let Some(items) = arr {
        let mut i: usize = 0;
        assert(items@.take(0) == Seq::<Json>::empty());
        while i < items.len()
            invariant
                i <= items.len(),
                levels@ == levels_of(items@.take(i as int)),
                no_nan(levels@),
            decreases items.len() - i,
        {
            let price: Num = num_or_zero(items[i].get_num_text("price"));
            let size: Num = num_or_zero(items[i].get_num_text("size"));
            proof {
                assert(items@.take(i + 1).drop_last() == items@.take(i as int));
                assert(items@.take(i + 1).last() == items@[i as int]);
            }
            if price.gt(Num::zero()) && size.gt(Num::zero()) {
                levels.push(BookLevel { price, size });
            }
            i = i + 1;
        }
        assert(items@.take(items.len() as int) == items@);
    }
    levels
}

/// What a limit buy has taken so far.
pub struct Walk {
    pub remaining: Num,
    pub shares: Num,
    pub spent: Num,
}

/// The walk over the asks from level `i` on: levels up to the limit are taken in turn,
/// each as far as its size and the remaining money go, until the money is used up.
pub open spec fn walk(asks: Seq<BookLevel>, i: int, limit: Num, w: Walk) -> Walk
    decreases asks.len() - i,
{
    if i < 0 || i >= asks.len() || asks[i].price.gt(limit) {
        w
    } else {
        let fill = asks[i].size.min(w.remaining / asks[i].price);
        if fill.le(Num::zero()) {
            walk(asks, i + 1, limit, w)
        } else {
            let cost = fill * asks[i].price;
            let next = Walk {
                remaining: w.remaining - cost,
                shares: w.shares + fill,
                spent: w.spent + cost,
            };
            if next.remaining.lt(Num::ratio(1, 100)) {
                next
            } else {
                walk(asks, i + 1, limit, next)
            }
        }
    }
}

/// Shares and average price of a limit buy for up to `max_usd`.
pub open spec fn limit_fill(asks: Seq<BookLevel>, limit: Num, max_usd: Num) -> Option<(Num, Num)> {
    if limit.le(Num::zero()) || max_usd.le(Num::zero()) {
        None
    } else {
        let w = walk(
            asks,
            0,
            limit,
            Walk { remaining: max_usd, shares: Num::zero(), spent: Num::zero() },
        );
        if w.shares.le(Num::zero()) {
            None
        } else {
            Some((w.shares, w.spent / w.shares))
        }
    }
}

fn walk_asks(asks: &[BookLevel], limit: Num, max_usd: Num) -> (r: Walk)
    ensures
        r == walk(
            asks@,
            0,
            limit,
            Walk { remaining: max_usd, shares: Num::zero(), spent: Num::zero() },
        ),
{
    let mut w: Walk = Walk { remaining: max_usd, shares: Num::zero(), spent: Num::zero() };
    let ghost start = w;
    let mut i: usize = 0;
    while i < asks.len()
        invariant
            i <= asks.len(),
            start == (Walk { remaining: max_usd, shares: Num::zero(), spent: Num::zero() }),
            walk(asks@, i as int, limit, w) == walk(asks@, 0, limit, start),
        decreases asks.len() - i,
    {
        let level: BookLevel = asks[i];
        if level.price.gt(limit) {
            return w;
        }
        let fill: Num = level.size.min(w.remaining / level.price);
        if !fill.le(Num::zero()) {
            let cost: Num = fill * level.price;
            w = Walk {
                remaining: w.remaining - cost,
                shares: w.shares + fill,
                spent: w.spent + cost,
            };
            if w.remaining.lt(Num::ratio(1, 100)) {
                return w;
            }
        }
        i = i + 1;
    }
    w
}

/// Paper fill: limit buy up to `max_usd` when asks are at or below `limit_price`.
pub fn simulate_limit_buy_fill(asks: &[BookLevel], limit_price: Num, max_usd: Num) -> (r: Option<
    (Num, Num),
>)
    ensures
        r == limit_fill(asks@, limit_price, max_usd),
{
    if limit_price.le(Num::zero()) || max_usd.le(Num::zero()) {
        return None;
    }
    let w: Walk = walk_asks(asks, limit_price, max_usd);
    if w.shares.le(Num::zero()) {
        return None;
    }
    Some((w.shares, w.spent / w.shares))
}

/// Shares and average price of a taker buy of one clip.
pub open spec fn taker_fill(asks: Seq<BookLevel>, best_ask: Num, max_pay: Num, clip_usd: Num) -> Option<
    (Num, Num),
> {
    if best_ask.le(Num::zero()) || best_ask.gt(max_pay) {
        None
    } else if asks.len() > 0 {
        limit_fill(asks, max_pay, clip_usd)
    } else {
        Some((clip_usd / best_ask, best_ask))
    }
}

/// Taker buy at best ask up to `max_pay` (join the green pluses).
pub fn simulate_taker_buy_fill(
    asks: &[BookLevel],
    best_ask: Num,
    max_pay: Num,
    clip_usd: Num,
) -> (r: Option<(Num, Num)>)
    ensures
        r == taker_fill(asks@, best_ask, max_pay, clip_usd),
{
    if best_ask.le(Num::zero()) || best_ask.gt(max_pay) {
        return None;
    }
    if asks.len() > 0 {
        return simulate_limit_buy_fill(asks, max_pay, clip_usd);
    }
    Some((clip_usd / best_ask, best_ask))
}

/// Running sum of price times size over the first levels at or below `max_pay`.
pub open spec fn depth_sum(asks: Seq<BookLevel>, max_pay: Num) -> Num
    decreases asks.len(),
{
    if asks.len() == 0 {
        Num::zero().negated()
    } else {
        let rest = depth_sum(asks.drop_last(), max_pay);
        if asks.last().price.le(max_pay) {
            rest + asks.last().price * asks.last().size
        } else {
            rest
        }
    }
}

/// USD offered at or below `max_pay`.
pub fn ask_depth_usd(asks: &[BookLevel], max_pay: Num) -> (r: Num)
    ensures
        r == depth_sum(asks@, max_pay),
{
    let mut sum: Num = Num::zero().negated();
    let mut i: usize = 0;
    assert(asks@.take(0) == Seq::<BookLevel>::empty());
    while i < asks.len()
        invariant
            i <= asks.len(),
            sum == depth_sum(asks@.take(i as int), max_pay),
        decreases asks.len() - i,
    {
        proof {
            assert(asks@.take(i + 1).drop_last() == asks@.take(i as int));
            assert(asks@.take(i + 1).last() == asks@[i as int]);
        }
        if asks[i].price.le(max_pay) {
            sum = sum + asks[i].price * asks[i].size;
        }
        i = i + 1;
    }
    assert(asks@.take(asks.len() as int) == asks@);
    sum
}

/// The asks from level `i` on after `shares` were taken from them.
pub open spec fn taken(asks: Seq<BookLevel>, max_pay: Num, shares: Num) -> Seq<BookLevel>
    decreases asks.len(),
{
    if asks.len() == 0 || asks[0].price.gt(max_pay) || shares.le(Num::zero()) {
        asks
    } else {
        let take = asks[0].size.min(shares);
        seq![BookLevel { price: asks[0].price, size: asks[0].size - take }] + taken(
            asks.drop_first(),
            max_pay,
            shares - take,
        )
    }
}

/// The levels that still hold more than a trace.
pub open spec fn live_levels(asks: Seq<BookLevel>) -> Seq<BookLevel>
    decreases asks.len(),
{
    if asks.len() == 0 {
        asks
    } else if asks.last().size.gt(Num::ratio(1, 1_000_000_000)) {
        live_levels(asks.drop_last()).push(asks.last())
    } else {
        live_levels(asks.drop_last())
    }
}

/// Paper: remove filled size from ask levels after a simulated buy.
pub fn apply_fill_to_asks(asks: &mut Vec<BookLevel>, max_pay: Num, clip_usd: Num) -> (r: Option<
    (Num, Num),
>)
    ensures
        r == limit_fill(old(asks)@, max_pay, clip_usd),
        final(asks)@ == match r {
            Some(fill) => live_levels(taken(old(asks)@, max_pay, fill.0)),
            None => old(asks)@,
        },
{
    let fill: (Num, Num) = match simulate_limit_buy_fill(asks.as_slice(), max_pay, clip_usd) {
        Some(f) => f,
        None => {
            return None;
        },
    };
    let ghost start = asks@;
    let mut remaining: Num = fill.0;
    let mut i: usize = 0;
    let n: usize = asks.len();
    proof {
        assert(start.skip(0) == start);
        assert(start.take(0) + taken(start, max_pay, fill.0) == taken(start, max_pay, fill.0));
    }
    while i < n && !asks[i].price.gt(max_pay) && !remaining.le(Num::zero())
        invariant
            i <= n,
            n == asks.len(),
            n == start.len(),
            asks@.skip(i as int) == start.skip(i as int),
            asks@.take(i as int) + taken(start.skip(i as int), max_pay, remaining) == taken(
                start,
                max_pay,
                fill.0,
            ),
        decreases n - i,
    {
        let level: BookLevel = asks[i];
        let take: Num = level.size.min(remaining);
        let ghost before = asks@;
        let ghost rest = remaining;
        proof {
            assert(before.skip(i as int)[0] == level);
            assert(start.skip(i as int)[0] == level);
            assert(start.skip(i as int).drop_first() == start.skip(i + 1));
        }
        asks.set(i, BookLevel { price: level.price, size: level.size - take });
        remaining = remaining - take;
        proof {
            let x = asks@[i as int];
            assert(asks@.skip(i + 1) == start.skip(i + 1)) by {
                assert(before.skip(i + 1) == before.skip(i as int).drop_first());
                assert(asks@.skip(i + 1) == before.skip(i + 1));
            }
            let tail = taken(start.skip(i + 1), max_pay, remaining);
            assert(taken(start.skip(i as int), max_pay, rest) == seq![x] + tail);
            assert(asks@.take(i + 1) == before.take(i as int).push(x));
            assert(asks@.take(i + 1) + tail == before.take(i as int) + (seq![x] + tail));
        }
        i = i + 1;
    }
    proof {
        assert(i < n ==> start.skip(i as int)[0] == asks@.skip(i as int)[0]);
        assert(taken(start.skip(i as int), max_pay, remaining) == start.skip(i as int));
        assert(asks@ == asks@.take(i as int) + asks@.skip(i as int));
    }
    keep_live(asks);
    Some(fill)
}

fn keep_live(asks: &mut Vec<BookLevel>)
    ensures
        final(asks)@ == live_levels(old(asks)@),
{
    let mut out: Vec<BookLevel> = Vec::new();
    let mut i: usize = 0;
    assert(asks@.take(0) == Seq::<BookLevel>::empty());
    while i < asks.len()
        invariant
            i <= asks.len(),
            asks@ == old(asks)@,
            out@ == live_levels(asks@.take(i as int)),
        decreases asks.len() - i,
    {
        let level: BookLevel = asks[i];
        proof {
            assert(asks@.take(i + 1).drop_last() == asks@.take(i as int));
            assert(asks@.take(i + 1).last() == level);
        }
        if level.size.gt(Num::ratio(1, 1_000_000_000)) {
            out.push(level);
        }
        i = i + 1;
    }
    assert(asks@.take(asks.len() as int) == asks@);
    *asks = out;
}

proof fn lemma_walk_stops(asks: Seq<BookLevel>, i: int, k: int, limit: Num, w: Walk)
    requires
        0 <= i <= k < asks.len(),
        asks[k].price.gt(limit),
    ensures
        walk(asks, i, limit, w) == walk(asks.take(k), i, limit, w),
    decreases k - i,
{
    if i < k && !asks[i].price.gt(limit) {
        assert(asks.take(k)[i] == asks[i]);
        let fill = asks[i].size.min(w.remaining / asks[i].price);
        let cost = fill * asks[i].price;
        let next = Walk {
            remaining: w.remaining - cost,
            shares: w.shares + fill,
            spent: w.spent + cost,
        };
        lemma_walk_stops(asks, i + 1, k, limit, w);
        lemma_walk_stops(asks, i + 1, k, limit, next);
    }
}

/// A limit buy takes nothing from a level above its limit, nor from any behind it: the fill
/// is that of the levels in front.
pub proof fn law_dear_levels_do_not_matter(
    asks: Seq<BookLevel>,
    k: int,
    limit: Num,
    max_usd: Num,
)
    requires
        0 <= k < asks.len(),
        asks[k].price.gt(limit),
    ensures
        limit_fill(asks, limit, max_usd) == limit_fill(asks.take(k), limit, max_usd),
        k == 0 ==> limit_fill(asks, limit, max_usd) is None,
{
    lemma_walk_stops(
        asks,
        0,
        k,
        limit,
        Walk { remaining: max_usd, shares: Num::zero(), spent: Num::zero() },
    );
}

/// Taking shares from the asks moves no price and no level.
pub proof fn law_fill_keeps_prices(asks: Seq<BookLevel>, max_pay: Num, shares: Num)
    ensures
        taken(asks, max_pay, shares).len() == asks.len(),
        forall|i: int|
            0 <= i < asks.len() ==> (#[trigger] taken(asks, max_pay, shares)[i]).price
                == asks[i].price,
    decreases asks.len(),
{
    if asks.len() > 0 && !asks[0].price.gt(max_pay) && !shares.le(Num::zero()) {
        let take = asks[0].size.min(shares);
        law_fill_keeps_prices(asks.drop_first(), max_pay, shares - take);
        let rest = taken(asks.drop_first(), max_pay, shares - take);
        assert forall|i: int| 0 <= i < asks.len() implies (#[trigger] taken(
            asks,
            max_pay,
            shares,
        )[i]).price == asks[i].price by {
            if i > 0 {
                assert(rest[i - 1].price == asks.drop_first()[i - 1].price);
            }
        }
    }
}

/// After a fill no level holds only a trace.
pub proof fn law_no_traces_stay(asks: Seq<BookLevel>)
    ensures
        forall|i: int|
            0 <= i < live_levels(asks).len() ==> (#[trigger] live_levels(asks)[i]).size.gt(
                Num::ratio(1, 1_000_000_000),
            ),
    decreases asks.len(),
{
    if asks.len() > 0 {
        let front = live_levels(asks.drop_last());
        law_no_traces_stay(asks.drop_last());
        assert forall|i: int| 0 <= i < live_levels(asks).len() implies (#[trigger] live_levels(
            asks,
        )[i]).size.gt(Num::ratio(1, 1_000_000_000)) by {
            if i < front.len() {
                assert(live_levels(asks)[i] == front[i]);
            }
        }
    }
}

} // verus!
