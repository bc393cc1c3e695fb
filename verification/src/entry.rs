//! Pre-start entries: when to ask for one, what to spend, how to split it.
use crate::config::{PreStartConfig, SessionConfig};
use crate::num::Num;
use crate::num_laws::{lemma_add_key, lemma_skey_exact, lemma_units_nonneg};
use crate::num_ops::{lemma_ratio_mono, lemma_ratio_nonneg};
use crate::number_format::{dec_text, fixed, fixed_of, uint_text};
use crate::strategy::{EntryMode, EntrySignal};
use crate::text::{fill, fill3, filled, same_text, views};
use crate::time::{div_toward_zero, trunc_div};
use vstd::prelude::*;

verus! {

/// USD for UP and for DOWN. Both sides get the same number of shares out of the core
/// budget; what is left goes to the cheaper side. Asks that are level split in half.
pub open spec fn allocation(budget: Num, up_ask: Num, down_ask: Num, cheaper_side_ratio: Num) -> (
    Num,
    Num,
) {
    if budget.le(Num::zero()) || up_ask.le(Num::zero()) || down_ask.le(Num::zero()) {
        (Num::zero(), Num::zero())
    } else if (up_ask - down_ask).abs().lt(Num::ratio(1, 10_000)) {
        (budget / Num::uint(2), budget / Num::uint(2))
    } else {
        let half = Num::ratio(5, 10);
        let surplus = ((cheaper_side_ratio.clamp(half, Num::ratio(7, 10)) - half) * Num::uint(
            2,
        )).clamp(Num::zero(), Num::ratio(2, 10));
        let shares = (budget * (Num::one() - surplus)) / (up_ask + down_ask);
        let up = shares * up_ask;
        let down = shares * down_ask;
        let rest = budget - up - down;
        if up_ask.lt(down_ask) {
            (up + rest, down)
        } else {
            (up, down + rest)
        }
    }
}

pub fn allocate_entry_usd(budget: Num, up_ask: Num, down_ask: Num, cheaper_side_ratio: Num) -> (r: (
    Num,
    Num,
))
    ensures
        r == allocation(budget, up_ask, down_ask, cheaper_side_ratio),
{
    if budget.le(Num::zero()) || up_ask.le(Num::zero()) || down_ask.le(Num::zero()) {
        return (Num::zero(), Num::zero());
    }
    if (up_ask - down_ask).abs().lt(Num::ratio(1, 10_000)) {
        return (budget / Num::uint(2), budget / Num::uint(2));
    }
    proof {
        lemma_ratio_mono(5, 10, 7, 10);
        lemma_ratio_nonneg(2, 10);
    }
    let half: Num = Num::ratio(5, 10);
    let surplus_fraction: Num = ((cheaper_side_ratio.clamp(half, Num::ratio(7, 10)) - half)
        * Num::uint(2)).clamp(Num::zero(), Num::ratio(2, 10));
    let core_budget: Num = budget * (Num::one() - surplus_fraction);
    let core_shares: Num = core_budget / (up_ask + down_ask);
    let buy_up_usd: Num = core_shares * up_ask;
    let buy_down_usd: Num = core_shares * down_ask;
    let surplus_usd: Num = budget - buy_up_usd - buy_down_usd;
    if up_ask.lt(down_ask) {
        (buy_up_usd + surplus_usd, buy_down_usd)
    } else {
        (buy_up_usd, buy_down_usd + surplus_usd)
    }
}

/// The budget that a signal asks for: a share of the equity within the limits, times the
/// signal's multiplier.
pub open spec fn wanted_budget(equity: Num, s: SessionConfig, multiplier: Num) -> Num {
    let share = equity * (s.window_budget_pct / Num::uint(100));
    let floored = if share.lt(s.min_window_budget) {
        s.min_window_budget
    } else {
        share
    };
    let capped = if floored.gt(s.max_window_budget) {
        s.max_window_budget
    } else {
        floored
    };
    capped * multiplier.clamp(Num::ratio(1, 10), Num::ratio(15, 10))
}

/// The budget of a window. Short of cash it is the cash, or nothing below the smallest
/// budget.
pub open spec fn window_budget(equity: Num, cash: Num, s: SessionConfig, multiplier: Num) -> Num {
    let wanted = wanted_budget(equity, s, multiplier);
    if cash.lt(wanted) {
        if cash.ge(s.min_window_budget) {
            cash
        } else {
            Num::zero()
        }
    } else {
        wanted
    }
}

pub fn entry_budget(equity: Num, cash: Num, session: &SessionConfig, multiplier: Num) -> (r: Num)
    ensures
        r == window_budget(equity, cash, *session, multiplier),
{
    let min_b: Num = session.min_window_budget;
    let max_b: Num = session.max_window_budget;
    let mut budget: Num = equity * (session.window_budget_pct / Num::uint(100));
    if budget.lt(min_b) {
        budget = min_b;
    }
    if budget.gt(max_b) {
        budget = max_b;
    }
    proof {
        lemma_ratio_mono(1, 10, 15, 10);
    }
    budget = budget * multiplier.clamp(Num::ratio(1, 10), Num::ratio(15, 10));
    if cash.lt(budget) {
        if cash.ge(min_b) {
            budget = cash;
        } else {
            budget = Num::zero();
        }
    }
    budget
}

/// The side of an entry that buys one contract only.
pub open spec fn one_side(m: EntryMode) -> Option<Seq<char>> {
    match m {
        EntryMode::Both => None,
        EntryMode::OneSide(s) => Some(s@),
    }
}

/// USD for UP and for DOWN of an entry: nothing without a budget, and nothing for a side
/// that is neither.
pub open spec fn entry_split(budget: Num, entry: EntrySignal) -> (Num, Num) {
    if budget.gt(Num::zero()) {
        match one_side(entry.mode) {
            None => allocation(budget, entry.up_ask, entry.down_ask, entry.cheaper_side_ratio),
            Some(side) => if side == "UP"@ {
                (budget, Num::zero())
            } else if side == "DOWN"@ {
                (Num::zero(), budget)
            } else {
                (Num::zero(), Num::zero())
            },
        }
    } else {
        (Num::zero(), Num::zero())
    }
}

/// Shares that USD buy; none at a price that is not positive.
pub open spec fn shares_for(usd: Num, ask: Num) -> Num {
    if ask.gt(Num::zero()) {
        usd / ask
    } else {
        Num::zero()
    }
}

pub fn shares_at(usd: Num, ask: Num) -> (r: Num)
    ensures
        r == shares_for(usd, ask),
{
    if ask.gt(Num::zero()) {
        usd / ask
    } else {
        Num::zero()
    }
}

/// What an entry signal leads to.
pub struct EntryPlan {
    pub accepted: bool,
    pub total_cost: Num,
    pub buy_up_usd: Num,
    pub buy_down_usd: Num,
    pub log: String,
}

pub open spec fn entry_log(
    window_number: int,
    total: Num,
    up_usd: Num,
    up_ask: Num,
    down_usd: Num,
    down_ask: Num,
) -> Seq<char> {
    filled(
        "[STRATEGY] Pre-start entry Window #{}: total ${} | UP ${} -> {} sh @ ${} | DOWN ${} -> {} sh @ ${}"@,
        seq![
            dec_text(window_number),
            fixed_of(total, 2),
            fixed_of(up_usd, 2),
            fixed_of(shares_for(up_usd, up_ask), 4),
            fixed_of(up_ask, 2),
            fixed_of(down_usd, 2),
            fixed_of(shares_for(down_usd, down_ask), 4),
            fixed_of(down_ask, 2),
        ],
    )
}

pub open spec fn reject_log(window_number: int, total: Num, cash: Num) -> Seq<char> {
    filled(
        "[STRATEGY] REJECTED entry for Window #{}: Insufficient cash (${} needed, ${} available)"@,
        seq![dec_text(window_number), fixed_of(total, 2), fixed_of(cash, 2)],
    )
}

/// Whether `p` is the plan that an entry signal leads to: it is accepted where it costs
/// something and the cash covers it.
pub open spec fn is_entry_plan(
    p: EntryPlan,
    window_number: int,
    equity: Num,
    cash: Num,
    s: SessionConfig,
    entry: EntrySignal,
) -> bool {
    let (up, down) = entry_split(window_budget(equity, cash, s, entry.budget_multiplier), entry);
    let total = up + down;
    &&& p.buy_up_usd == up
    &&& p.buy_down_usd == down
    &&& p.total_cost == total
    &&& p.accepted == (total.gt(Num::zero()) && cash.ge(total))
    &&& p.log@ == if p.accepted {
        entry_log(window_number, total, up, entry.up_ask, down, entry.down_ask)
    } else {
        reject_log(window_number, total, cash)
    }
}

pub fn plan_entry(
    window_number: usize,
    equity: Num,
    cash: Num,
    session: &SessionConfig,
    entry: &EntrySignal,
) -> (r: EntryPlan)
    ensures
        is_entry_plan(r, window_number as int, equity, cash, *session, *entry),
{
    let budget: Num = entry_budget(equity, cash, session, entry.budget_multiplier);
    let (up, down): (Num, Num) = if budget.gt(Num::zero()) {
        match &entry.mode {
            EntryMode::Both => allocate_entry_usd(
                budget,
                entry.up_ask,
                entry.down_ask,
                entry.cheaper_side_ratio,
            ),
            EntryMode::OneSide(side) => {
                if same_text(side.as_str(), "UP") {
                    (budget, Num::zero())
                } else if same_text(side.as_str(), "DOWN") {
                    (Num::zero(), budget)
                } else {
                    (Num::zero(), Num::zero())
                }
            },
        }
    } else {
        (Num::zero(), Num::zero())
    };
    let total: Num = up + down;
    let accepted: bool = total.gt(Num::zero()) && cash.ge(total);
    let number: String = uint_text(window_number as u64);
    let total_text: String = fixed(total, 2);
    let log: String = if accepted {
        let up_text: String = fixed(up, 2);
        let up_shares: String = fixed(shares_at(up, entry.up_ask), 4);
        let up_ask: String = fixed(entry.up_ask, 2);
        let down_text: String = fixed(down, 2);
        let down_shares: String = fixed(shares_at(down, entry.down_ask), 4);
        let down_ask: String = fixed(entry.down_ask, 2);
        let values: [&str; 8] = [
            number.as_str(),
            total_text.as_str(),
            up_text.as_str(),
            up_shares.as_str(),
            up_ask.as_str(),
            down_text.as_str(),
            down_shares.as_str(),
            down_ask.as_str(),
        ];
        assert(views(values@) =~= seq![
            number@,
            total_text@,
            up_text@,
            up_shares@,
            up_ask@,
            down_text@,
            down_shares@,
            down_ask@,
        ]);
        fill(
            "[STRATEGY] Pre-start entry Window #{}: total ${} | UP ${} -> {} sh @ ${} | DOWN ${} -> {} sh @ ${}",
            &values,
        )
    } else {
        let cash_text: String = fixed(cash, 2);
        fill3(
            "[STRATEGY] REJECTED entry for Window #{}: Insufficient cash (${} needed, ${} available)",
            number.as_str(),
            total_text.as_str(),
            cash_text.as_str(),
        )
    };
    EntryPlan { accepted, total_cost: total, buy_up_usd: up, buy_down_usd: down, log }
}

/// What the second's check of the upcoming window leads to.
#[derive(Debug, PartialEq, Eq, Structural, Clone, Copy)]
pub enum NextStep {
    /// Nothing to do.
    Wait,
    /// The window has started.
    Promote,
    /// Volatility is below the floor: no entry.
    TooQuiet,
    /// Ask the strategy for an entry, so many seconds before the start.
    Ask(i64),
}

/// The step for an upcoming window that starts at `start_ms`. A window that has started
/// is promoted. One that still waits for its entry is asked about within the corridor,
/// unless a shutdown is pending, and where the volatility allows it.
pub open spec fn next_step(
    waiting: bool,
    start_ms: Option<i64>,
    now_ms: int,
    pre: PreStartConfig,
    shutdown_pending: bool,
    atr: Num,
    min_atr: Num,
) -> NextStep {
    match start_ms {
        None => NextStep::Wait,
        Some(start) => {
            let secs = trunc_div(start - now_ms, 1000);
            if secs <= 0 {
                NextStep::Promote
            } else if waiting && pre.min_seconds_before_start <= secs
                <= pre.max_seconds_before_start && !shutdown_pending {
                if atr.lt(min_atr) {
                    NextStep::TooQuiet
                } else {
                    NextStep::Ask(secs as i64)
                }
            } else {
                NextStep::Wait
            }
        },
    }
}

pub fn check_next(
    waiting: bool,
    start_ms: Option<i64>,
    now_ms: i64,
    pre: &PreStartConfig,
    shutdown_pending: bool,
    atr: Num,
    min_atr: Num,
) -> (r: NextStep)
    requires
        start_ms matches Some(t) ==> i64::MIN <= t - now_ms <= i64::MAX,
    ensures
        r == next_step(waiting, start_ms, now_ms as int, *pre, shutdown_pending, atr, min_atr),
{
    match start_ms {
        None => NextStep::Wait,
        Some(start) => {
            let secs: i64 = div_toward_zero(start - now_ms, 1000);
            if secs <= 0 {
                return NextStep::Promote;
            }
            let within: bool = secs >= pre.min_seconds_before_start && secs
                <= pre.max_seconds_before_start;
            if waiting && within && !shutdown_pending {
                if atr.lt(min_atr) {
                    NextStep::TooQuiet
                } else {
                    NextStep::Ask(secs)
                }
            } else {
                NextStep::Wait
            }
        },
    }
}

/// No entry is asked for once a shutdown is pending.
pub proof fn law_no_entries_after_shutdown(
    waiting: bool,
    start_ms: Option<i64>,
    now_ms: int,
    pre: PreStartConfig,
    atr: Num,
    min_atr: Num,
)
    ensures
        !(next_step(waiting, start_ms, now_ms, pre, true, atr, min_atr) is Ask),
{
}

/// An accepted entry costs something and the cash covers it.
pub proof fn law_entry_within_cash(
    p: EntryPlan,
    window_number: int,
    equity: Num,
    cash: Num,
    s: SessionConfig,
    entry: EntrySignal,
)
    requires
        is_entry_plan(p, window_number, equity, cash, s, entry),
        p.accepted,
    ensures
        p.total_cost == p.buy_up_usd + p.buy_down_usd,
        p.total_cost.gt(Num::zero()),
        p.total_cost.le(cash),
{
}

/// Without the cash for the smallest budget and for the wanted one, nothing is bought.
pub proof fn law_short_of_cash_buys_nothing(
    p: EntryPlan,
    window_number: int,
    equity: Num,
    cash: Num,
    s: SessionConfig,
    entry: EntrySignal,
)
    requires
        is_entry_plan(p, window_number, equity, cash, s, entry),
        cash.lt(wanted_budget(equity, s, entry.budget_multiplier)),
        !cash.ge(s.min_window_budget),
    ensures
        !p.accepted,
        p.buy_up_usd == Num::zero(),
        p.buy_down_usd == Num::zero(),
{
    lemma_zero_sum();
}

/// Nothing and nothing is not something.
proof fn lemma_zero_sum()
    ensures
        !(Num::zero() + Num::zero()).gt(Num::zero()),
{
    let z = Num::zero();
    lemma_add_key(z, z);
    lemma_skey_exact(z);
    lemma_units_nonneg(z.mag());
    assert(z.val() == 0);
}

} // verus!
