//! Prints of the outcome tokens' trades.
use crate::num::Num;
use crate::strategy::TradeTapeSnapshot;
use crate::text::same_text;
use crate::trader::{add_one, one_more};
use vstd::prelude::*;

verus! {

pub open spec fn spec_is_aggressive_buy(price: Num, bid: Num, ask: Num) -> bool {
    ask.gt(Num::zero()) && price.ge(ask)
}

/// Whether a print without a side lifted the ask.
#[verifier::when_used_as_spec(spec_is_aggressive_buy)]
pub fn is_aggressive_buy(price: Num, bid: Num, ask: Num) -> (r: bool)
    ensures
        r == spec_is_aggressive_buy(price, bid, ask),
{
    ask.gt(Num::zero()) && price.ge(ask)
}

pub open spec fn spec_infer_trade_usd(price: Num, size: Option<Num>, fallback_usd: Num) -> Num {
    match size {
        Some(s) => if s.gt(Num::zero()) {
            price * s
        } else {
            fallback_usd
        },
        None => fallback_usd,
    }
}

/// Notional of a print; the fallback where its size is unknown.
#[verifier::when_used_as_spec(spec_infer_trade_usd)]
pub fn infer_trade_usd(price: Num, size: Option<Num>, fallback_usd: Num) -> (r: Num)
    ensures
        r == spec_infer_trade_usd(price, size, fallback_usd),
{
    match size {
        Some(s) => if s.gt(Num::zero()) {
            price * s
        } else {
            fallback_usd
        },
        None => fallback_usd,
    }
}

/// One aggressive buy.
#[derive(Debug, Clone, Copy)]
pub struct TapePrint {
    pub window_number: usize,
    pub up: bool,
    pub usd: Num,
    pub timestamp: i64,
}

/// The recent aggressive buys.
#[derive(Debug, Clone)]
pub struct TradeTapeTracker {
    pub prints: Vec<TapePrint>,
}

/// The prints from a moment on.
pub open spec fn from_moment(prints: Seq<TapePrint>, cutoff: int) -> Seq<TapePrint>
    decreases prints.len(),
{
    if prints.len() == 0 {
        prints
    } else if prints.last().timestamp >= cutoff {
        from_moment(prints.drop_last(), cutoff).push(prints.last())
    } else {
        from_moment(prints.drop_last(), cutoff)
    }
}

/// The flow of a window's prints from a moment on.
pub open spec fn flow(prints: Seq<TapePrint>, window_number: usize, cutoff: int) -> TradeTapeSnapshot
    decreases prints.len(),
{
    if prints.len() == 0 {
        TradeTapeSnapshot {
            up_buy_usd: Num::zero(),
            down_buy_usd: Num::zero(),
            up_buy_count: 0,
            down_buy_count: 0,
        }
    } else {
        let rest = flow(prints.drop_last(), window_number, cutoff);
        let p = prints.last();
        if p.window_number != window_number || p.timestamp < cutoff {
            rest
        } else if p.up {
            TradeTapeSnapshot {
                up_buy_usd: rest.up_buy_usd + p.usd,
                up_buy_count: one_more(rest.up_buy_count),
                ..rest
            }
        } else {
            TradeTapeSnapshot {
                down_buy_usd: rest.down_buy_usd + p.usd,
                down_buy_count: one_more(rest.down_buy_count),
                ..rest
            }
        }
    }
}

impl TradeTapeTracker {
    pub fn new() -> (r: Self)
        ensures
            r.prints@ == Seq::<TapePrint>::empty(),
    {
        TradeTapeTracker { prints: Vec::new() }
    }

    /// Takes in a buy and forgets the prints that are older than the tape window.
    pub fn record_buy(
        &mut self,
        window_number: usize,
        side: &str,
        usd: Num,
        timestamp: i64,
        tape_window_ms: i64,
    )
        ensures
            final(self).prints@ == from_moment(
                old(self).prints@.push(
                    TapePrint { window_number, up: side@ == "UP"@, usd, timestamp },
                ),
                timestamp - tape_window_ms,
            ),
    {
        let p: TapePrint = TapePrint { window_number, up: same_text(side, "UP"), usd, timestamp };
        self.prints.push(p);
        let ghost all = self.prints@;
        let cutoff: i128 = timestamp as i128 - tape_window_ms as i128;
        let mut kept: Vec<TapePrint> = Vec::new();
        let mut i: usize = 0;
        assert(all.take(0) == Seq::<TapePrint>::empty());
        while i < self.prints.len()
            invariant
                i <= self.prints.len(),
                self.prints@ == all,
                kept@ == from_moment(all.take(i as int), cutoff as int),
            decreases self.prints.len() - i,
        {
            assert(all.take(i + 1).drop_last() == all.take(i as int));
            assert(all.take(i + 1).last() == all[i as int]);
            let q: TapePrint = self.prints[i];
            if q.timestamp as i128 >= cutoff {
                kept.push(q);
            }
            i = i + 1;
        }
        assert(all.take(i as int) == all);
        self.prints = kept;
    }

    /// The flow of a window within the tape window before a moment.
    pub fn snapshot(&self, window_number: usize, now_ms: i64, tape_window_ms: i64) -> (r:
        TradeTapeSnapshot)
        ensures
            r == flow(self.prints@, window_number, now_ms - tape_window_ms),
    {
        let cutoff: i128 = now_ms as i128 - tape_window_ms as i128;
        let mut out: TradeTapeSnapshot = TradeTapeSnapshot::default();
        let mut i: usize = 0;
        assert(self.prints@.take(0) == Seq::<TapePrint>::empty());
        while i < self.prints.len()
            invariant
                i <= self.prints.len(),
                out == flow(self.prints@.take(i as int), window_number, cutoff as int),
            decreases self.prints.len() - i,
        {
            assert(self.prints@.take(i + 1).drop_last() == self.prints@.take(i as int));
            assert(self.prints@.take(i + 1).last() == self.prints@[i as int]);
            let p: TapePrint = self.prints[i];
            if p.window_number == window_number && p.timestamp as i128 >= cutoff {
                if p.up {
                    out.up_buy_usd = out.up_buy_usd + p.usd;
                    out.up_buy_count = add_one(out.up_buy_count);
                } else {
                    out.down_buy_usd = out.down_buy_usd + p.usd;
                    out.down_buy_count = add_one(out.down_buy_count);
                }
            }
            i = i + 1;
        }
        assert(self.prints@.take(i as int) == self.prints@);
        out
    }
}

pub open spec fn side_flow(tape: TradeTapeSnapshot, winner: Seq<char>) -> (Num, u32) {
    if winner == "UP"@ {
        (tape.up_buy_usd, tape.up_buy_count)
    } else {
        (tape.down_buy_usd, tape.down_buy_count)
    }
}

/// USD and number of buys on the winner's token.
pub fn winner_stats(tape: &TradeTapeSnapshot, winner: &str) -> (r: (Num, u32))
    ensures
        r == side_flow(*tape, winner@),
{
    if same_text(winner, "UP") {
        (tape.up_buy_usd, tape.up_buy_count)
    } else {
        (tape.down_buy_usd, tape.down_buy_count)
    }
}

/// A print of another window, and one from before the cutoff, change nothing in the flow; any
/// other adds its dollars and one buy to its own side, and nothing to the other.
pub proof fn law_print_counts_for_its_side(
    prints: Seq<TapePrint>,
    p: TapePrint,
    window_number: usize,
    cutoff: int,
)
    ensures
        ({
            let was = flow(prints, window_number, cutoff);
            let now = flow(prints.push(p), window_number, cutoff);
            let counts = p.window_number == window_number && p.timestamp >= cutoff;
            &&& !counts ==> now == was
            &&& counts && p.up ==> now.up_buy_usd == was.up_buy_usd + p.usd && now.up_buy_count
                == one_more(was.up_buy_count)
            &&& counts && !p.up ==> now.down_buy_usd == was.down_buy_usd + p.usd
                && now.down_buy_count == one_more(was.down_buy_count)
            &&& !p.up ==> now.up_buy_usd == was.up_buy_usd && now.up_buy_count == was.up_buy_count
            &&& p.up ==> now.down_buy_usd == was.down_buy_usd && now.down_buy_count
                == was.down_buy_count
        }),
{
    assert(prints.push(p).drop_last() == prints);
}

/// The prints that are forgotten are not missed: they are older than any later flow counts.
pub proof fn law_forgotten_prints_are_not_missed(
    prints: Seq<TapePrint>,
    window_number: usize,
    forgotten: int,
    cutoff: int,
)
    requires
        forgotten <= cutoff,
    ensures
        flow(from_moment(prints, forgotten), window_number, cutoff) == flow(
            prints,
            window_number,
            cutoff,
        ),
    decreases prints.len(),
{
    if prints.len() > 0 {
        let kept = from_moment(prints.drop_last(), forgotten);
        law_forgotten_prints_are_not_missed(
            prints.drop_last(),
            window_number,
            forgotten,
            cutoff,
        );
        assert(kept.push(prints.last()).drop_last() == kept);
    }
}

/// The prints with their sides exchanged.
pub open spec fn turned(prints: Seq<TapePrint>) -> Seq<TapePrint> {
    prints.map_values(|p: TapePrint| TapePrint { up: !p.up, ..p })
}

/// Where all prints change their side, the flow of the two sides changes places.
pub proof fn law_flow_is_mirrored(prints: Seq<TapePrint>, window_number: usize, cutoff: int)
    ensures
        ({
            let a = flow(prints, window_number, cutoff);
            let b = flow(turned(prints), window_number, cutoff);
            &&& b.up_buy_usd == a.down_buy_usd && b.up_buy_count == a.down_buy_count
            &&& b.down_buy_usd == a.up_buy_usd && b.down_buy_count == a.up_buy_count
        }),
    decreases prints.len(),
{
    if prints.len() > 0 {
        law_flow_is_mirrored(prints.drop_last(), window_number, cutoff);
        assert(turned(prints).drop_last() == turned(prints.drop_last()));
        assert(turned(prints).last().up == !prints.last().up);
    }
}

/// The dollars of one side are the sum of its own counted prints, oldest first.
pub open spec fn dollars(prints: Seq<TapePrint>, up: bool, window_number: usize, cutoff: int) -> Num
    decreases prints.len(),
{
    if prints.len() == 0 {
        Num::zero()
    } else {
        let rest = dollars(prints.drop_last(), up, window_number, cutoff);
        let p = prints.last();
        if p.up == up && p.window_number == window_number && p.timestamp >= cutoff {
            rest + p.usd
        } else {
            rest
        }
    }
}

/// A side's dollars and buys are those of its own prints: what the other side's prints are
/// does not matter.
pub proof fn law_side_flow_is_its_own(
    prints: Seq<TapePrint>,
    others: Seq<TapePrint>,
    up: bool,
    window_number: usize,
    cutoff: int,
)
    requires
        prints.len() == others.len(),
        forall|i: int|
            0 <= i < prints.len() ==> (#[trigger] prints[i] == others[i] || (prints[i].up != up
                && others[i].up != up)),
    ensures
        ({
            let a = flow(prints, window_number, cutoff);
            let b = flow(others, window_number, cutoff);
            &&& up ==> a.up_buy_usd == b.up_buy_usd && a.up_buy_count == b.up_buy_count
            &&& !up ==> a.down_buy_usd == b.down_buy_usd && a.down_buy_count == b.down_buy_count
            &&& dollars(prints, up, window_number, cutoff) == if up {
                a.up_buy_usd
            } else {
                a.down_buy_usd
            }
        }),
    decreases prints.len(),
{
    if prints.len() > 0 {
        let (p, q) = (prints.drop_last(), others.drop_last());
        assert forall|i: int| 0 <= i < p.len() implies (#[trigger] p[i] == q[i] || (p[i].up != up
            && q[i].up != up)) by {
            assert(p[i] == prints[i] && q[i] == others[i]);
        }
        law_side_flow_is_its_own(p, q, up, window_number, cutoff);
        assert(prints.last() == prints[prints.len() - 1]);
        assert(others.last() == others[prints.len() - 1]);
    }
}

/// A buy is counted at once, for its own side and window, and the prints of other windows
/// and sides count as they did.
pub proof fn law_recorded_buy_is_counted(
    old_prints: Seq<TapePrint>,
    p: TapePrint,
    tape_window_ms: int,
    window_number: usize,
)
    requires
        tape_window_ms >= 0,
    ensures
        ({
            let cutoff = p.timestamp - tape_window_ms;
            let was = flow(old_prints, window_number, cutoff);
            let now = flow(from_moment(old_prints.push(p), cutoff), window_number, cutoff);
            &&& p.window_number != window_number ==> now == was
            &&& p.window_number == window_number ==> side_flow(
                now,
                if p.up {
                    "UP"@
                } else {
                    "DOWN"@
                },
            ) == (
                side_flow(
                    was,
                    if p.up {
                        "UP"@
                    } else {
                        "DOWN"@
                    },
                ).0 + p.usd,
                one_more(
                    side_flow(
                        was,
                        if p.up {
                            "UP"@
                        } else {
                            "DOWN"@
                        },
                    ).1,
                ),
            )
        }),
{
    reveal_strlit("UP");
    reveal_strlit("DOWN");
    assert("UP"@.len() != "DOWN"@.len());
    let cutoff = p.timestamp - tape_window_ms;
    law_forgotten_prints_are_not_missed(old_prints.push(p), window_number, cutoff, cutoff);
    law_print_counts_for_its_side(old_prints, p, window_number, cutoff);
}

/// A print that lifts the ask still does at a higher price; none does where there is no ask,
/// and none below it.
pub proof fn law_lifting_the_ask(low: Num, high: Num, bid: Num, ask: Num)
    requires
        low.le(high),
    ensures
        is_aggressive_buy(low, bid, ask) ==> is_aggressive_buy(high, bid, ask),
        is_aggressive_buy(low, bid, ask) ==> Num::zero().lt(ask) && ask.le(low),
        Num::zero().lt(ask) && low.le(ask) && ask.le(low) ==> is_aggressive_buy(low, bid, ask),
{
}

} // verus!
