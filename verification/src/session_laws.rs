//! What holds of a session over several events.
use crate::client::{MarketWindow, PricesState};
use crate::num::Num;
use crate::session::{
    carries_out, forecast_for, has_forecast, is_open_status, lemma_same_numbers, ForecastStep,
    MarketStep, Session,
};
use crate::strategy::{LlmForecast, OrderSignal};
use crate::text::has_prefix;
use crate::time::rfc3339_millis_of;
use crate::trader::{held, is_side, lemma_place, worth, Portfolio, WindowState};
use vstd::prelude::*;

verus! {

/// After a promotion the promoted window is the only one in the role of the running one,
/// and it is live exactly where it was entered.
pub proof fn law_one_running_window(s: Session, t: Session)
    requires
        s.wf(),
        s.next_window is Some,
        s.promoted(t),
    ensures
        ({
            let k = s.portfolio.place_of(s.next_window->0);
            &&& t.portfolio.windows@[k].role@ == "CURRENT"@
            &&& forall|i: int|
                0 <= i < t.portfolio.windows@.len() && (#[trigger] t.portfolio.windows@[i]).role@
                    == "CURRENT"@ ==> i == k
            &&& t.portfolio.windows@[k].status@ == if s.next_is_entered() {
                "LIVE"@
            } else {
                "SKIPPED"@
            }
            &&& is_open_status(t.portfolio.windows@[k].status@)
            &&& t.next_window is None
        }),
{
    lemma_place(s.portfolio.windows@, s.next_window->0);
    reveal_strlit("CURRENT");
    reveal_strlit("PAST");
    assert("CURRENT"@.len() != "PAST"@.len());
}

/// A price to beat that was taken from the feed is not taken again: the window is locked,
/// and a locked window takes none, whatever the spot.
pub proof fn law_price_to_beat_is_taken_once(
    s: Session,
    t: Session,
    spot: Num,
    timestamp_ms: i64,
    later_spot: Num,
    later_ms: i64,
)
    requires
        s.wf(),
        s.captured(t, spot, timestamp_ms),
        s.capture(spot, timestamp_ms) is Some,
    ensures
        t.ptb_locked_windows@.contains(s.current_window->0),
        t.capture(later_spot, later_ms) is None,
{
    let n = s.current_window->0;
    let was = s.ptb_locked_windows@;
    assert(t.ptb_locked_windows@[was.len() as int] == n);
}

/// Closing a window pays a dollar for each share of the winner and nothing for the other
/// side's.
pub proof fn law_only_the_winner_is_redeemed(
    p: Portfolio,
    t: Portfolio,
    number: usize,
    status: Seq<char>,
    winner: Seq<char>,
)
    requires
        p.has(number),
        is_side(winner),
        p.closed(t, number, status, winner),
    ensures
        ({
            let shares = held(p.windows@[p.place_of(number)], winner);
            t.available_cash == if shares.gt(Num::zero()) {
                p.available_cash + shares
            } else {
                p.available_cash
            }
        }),
        t.windows@[p.place_of(number)].up_shares == Num::zero(),
        t.windows@[p.place_of(number)].down_shares == Num::zero(),
{
    reveal_strlit("UP");
    reveal_strlit("DOWN");
    assert("UP"@.len() != "DOWN"@.len());
    lemma_place(p.windows@, number);
}

/// A window that was redeemed pays nothing when it is closed again.
pub proof fn law_shares_are_redeemed_once(
    p: Portfolio,
    t: Portfolio,
    u: Portfolio,
    number: usize,
    status: Seq<char>,
    winner: Seq<char>,
    later_status: Seq<char>,
    later_winner: Seq<char>,
)
    requires
        p.has(number),
        is_side(winner),
        p.closed(t, number, status, winner),
        t.closed(u, number, later_status, later_winner),
    ensures
        u.available_cash == t.available_cash,
{
    lemma_place(p.windows@, number);
    lemma_same_numbers(p.windows@, t.windows@);
    law_only_the_winner_is_redeemed(p, t, number, status, winner);
}

/// While the platform is in trouble the endgame strategy does not run.
pub proof fn law_trouble_pauses_trading(s: Session, window_number: usize)
    requires
        s.maintenance.blocks_trading(),
    ensures
        !s.j_runs(window_number),
{
}

/// No window is asked about twice: once it was tried, the answer is never to ask.
pub proof fn law_one_forecast_per_window(s: Session, n: usize, enabled: bool, available: bool)
    requires
        s.llm_forecast_attempted@.contains(n),
    ensures
        !(s.forecast_step(enabled, available, n) is Ask),
        !(s.forecast_step(enabled, available, n) is NobodyToAsk),
{
}

/// A forecast is scored once.
pub proof fn law_one_score_per_window(s: Session, n: usize, winner: Seq<char>)
    requires
        s.llm_forecast_scored@.contains(n),
    ensures
        !s.scores(n, winner),
{
}

/// A trade is stamped with the moment at which it was carried out.
pub proof fn law_trades_are_stamped(a: Portfolio, b: Portfolio, number: usize, sig: OrderSignal, now_ms: i64)
    requires
        carries_out(a.at(now_ms), b, number, sig, true),
    ensures
        ({
            let i = a.place_of(number);
            let (was, is) = (a.windows@[i].trades@, b.windows@[i].trades@);
            &&& is.len() == was.len() + 1
            &&& is.drop_last() == was
            &&& is.last().timestamp == now_ms
            &&& b.clock_ms == now_ms
        }),
{
}

/// Where all windows are closed, the equity is the cash.
pub proof fn law_closed_windows_have_no_equity(windows: Seq<WindowState>, cash: Num)
    requires
        forall|i: int|
            0 <= i < windows.len() ==> has_prefix((#[trigger] windows[i]).status@, "CLOSED"@),
    ensures
        worth(windows, cash) == cash,
    decreases windows.len(),
{
    if windows.len() > 0 {
        assert forall|i: int| 0 <= i < windows.drop_last().len() implies has_prefix(
            (#[trigger] windows.drop_last()[i]).status@,
            "CLOSED"@,
        ) by {
            assert(windows.drop_last()[i] == windows[i]);
        }
        assert(windows.last() == windows[windows.len() - 1]);
        law_closed_windows_have_no_equity(windows.drop_last(), cash);
    }
}

/// Only the window in the running role is run, with the whole seconds that it has left, and
/// a strategy that warms up executes nothing in the window before the first.
pub proof fn law_only_the_running_window_is_run(
    s: Session,
    t: Session,
    number: usize,
    role: Seq<char>,
    market: MarketWindow,
    prices: PricesState,
    timestamp: i64,
    atr: Num,
    r: MarketStep,
)
    requires
        s.market_ticked(t, number, role, market, prices, timestamp, atr, r),
    ensures
        role != "CURRENT"@ ==> r.run is None && !r.execute && t.current_window == s.current_window,
        rfc3339_millis_of(market.end_time@) is None ==> r.run is None && !r.execute,
        r.execute ==> r.run is Some,
        number == 0 && s.strategy@ == "j_endgame"@ ==> !r.execute,
        number != 0 && role == "CURRENT"@ && rfc3339_millis_of(market.end_time@) is Some
            ==> r.execute && t.current_window == Some(number),
        ({
            let left = rfc3339_millis_of(market.end_time@)->0 - timestamp;
            r.run is Some && 0 <= left <= i64::MAX ==> r.run->0 * 1000 <= left < r.run->0 * 1000
                + 1000
        }),
{
}

/// A window is overdue only once its end is more than ten seconds past, and only while it is
/// still open.
pub proof fn law_overdue_windows_have_ended(s: Session, now_ms: i64, end: i64)
    requires
        s.current_window is Some,
        rfc3339_millis_of(s.window(s.current_window->0).market.end_time@) == Some(end),
        i64::MIN <= end - now_ms <= i64::MAX,
    ensures
        s.overdue(now_ms) is Some ==> now_ms - end >= 11_000 && is_open_status(
            s.window(s.current_window->0).status@,
        ),
        now_ms - end >= 11_000 && is_open_status(s.window(s.current_window->0).status@)
            ==> s.overdue(now_ms) is Some && (s.overdue(now_ms)->0).0 == s.current_window->0,
{
}

/// An order is carried out on its own side, a buy for its dollars at its price, a sale of no
/// more shares than are held; where it cannot be, nothing changes.
pub proof fn law_orders_are_carried_out_on_their_side(
    a: Portfolio,
    b: Portfolio,
    number: usize,
    sig: OrderSignal,
    done: bool,
)
    requires
        carries_out(a, b, number, sig, done),
        a.has(number),
        is_side(sig.side@),
    ensures
        done <==> sig.price.gt(Num::zero()) && (sig.is_buy || held(
            a.windows@[a.place_of(number)],
            sig.side@,
        ).gt(Num::zero())),
        !done ==> b == a,
        ({
            let i = a.place_of(number);
            let (w, v) = (a.windows@[i], b.windows@[i]);
            &&& done && sig.is_buy ==> b.available_cash == a.available_cash - sig.amount && held(
                v,
                sig.side@,
            ) == held(w, sig.side@) + sig.amount / sig.price
            &&& done && !sig.is_buy && sig.amount.le(held(w, sig.side@)) ==> b.available_cash
                == a.available_cash + sig.amount * sig.price && held(v, sig.side@) == held(
                w,
                sig.side@,
            ) - sig.amount
            &&& done && !sig.is_buy && held(w, sig.side@).lt(sig.amount) ==> held(v, sig.side@)
                == held(w, sig.side@) - held(w, sig.side@)
        }),
{
    reveal_strlit("UP");
    reveal_strlit("DOWN");
    assert("UP"@.len() != "DOWN"@.len());
    lemma_place(a.windows@, number);
}

/// A promotion counts the window once: as entered where it was, else as skipped.
pub proof fn law_promotions_are_counted_once(s: Session, t: Session)
    requires
        s.next_window is Some,
        s.promoted(t),
        s.portfolio.entered_windows < u32::MAX,
        s.portfolio.skipped_windows < u32::MAX,
    ensures
        t.portfolio.entered_windows + t.portfolio.skipped_windows == s.portfolio.entered_windows
            + s.portfolio.skipped_windows + 1,
        s.window(s.next_window->0).status@ == "ENTERED_PRE_START"@ ==> t.portfolio.entered_windows
            == s.portfolio.entered_windows + 1,
        t.current_window == s.next_window,
        t.portfolio.available_cash == s.portfolio.available_cash,
{
}

/// The first forecast for a window is the one that counts for it.
pub proof fn law_forecast_of_a_window(
    forecasts: Seq<(usize, LlmForecast)>,
    n: usize,
    f: (usize, LlmForecast),
)
    ensures
        f.0 != n ==> forecast_for(forecasts.push(f), n) == forecast_for(forecasts, n),
        f.0 == n && forecast_for(forecasts, n) is None ==> forecast_for(forecasts.push(f), n)
            == Some(f.1),
        forecast_for(forecasts, n) is Some ==> forecast_for(forecasts.push(f), n) == forecast_for(
            forecasts,
            n,
        ),
    decreases forecasts.len(),
{
    if forecasts.len() == 0 {
        assert(forecasts.push(f).skip(1) =~= Seq::<(usize, LlmForecast)>::empty());
        assert(forecast_for(forecasts.push(f).skip(1), n) is None);
    } else {
        assert(forecasts.push(f).skip(1) =~= forecasts.skip(1).push(f));
        assert(forecasts.push(f)[0] == forecasts[0]);
        law_forecast_of_a_window(forecasts.skip(1), n, f);
    }
}

/// A window without a forecast is asked about exactly where forecasts are on, somebody can be
/// asked and nobody was.
pub proof fn law_forecast_is_asked_for(s: Session, enabled: bool, available: bool, n: usize)
    ensures
        s.forecast_step(enabled, available, n) == ForecastStep::Ask <==> enabled && available
            && forecast_for(s.llm_forecasts@, n) is None && !s.llm_forecast_attempted@.contains(n),
        !enabled ==> s.forecast_step(enabled, available, n) == ForecastStep::No,
{
    lemma_forecast_known(s.llm_forecasts@, n);
}

proof fn lemma_forecast_known(forecasts: Seq<(usize, LlmForecast)>, n: usize)
    ensures
        has_forecast(forecasts, n) <==> forecast_for(forecasts, n) is Some,
    decreases forecasts.len(),
{
    if forecasts.len() > 0 {
        let rest = forecasts.skip(1);
        lemma_forecast_known(rest, n);
        if forecasts[0].0 != n {
            if has_forecast(forecasts, n) {
                let i = choose|i: int|
                    0 <= i < forecasts.len() && (#[trigger] forecasts[i]).0 == n;
                assert(rest[i - 1].0 == n);
            }
            if has_forecast(rest, n) {
                let i = choose|i: int| 0 <= i < rest.len() && (#[trigger] rest[i]).0 == n;
                assert(forecasts[i + 1].0 == n);
            }
        }
    }
}

} // verus!
