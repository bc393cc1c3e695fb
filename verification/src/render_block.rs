//! The terminal dashboard, line by line.
use crate::cex_micro::CexMicroSnapshot;
use crate::config::Config;
use crate::display::{paint, painted};
use crate::event_log::owned_forecast;
use crate::j_controller::enter_bar_valid;
use crate::maintenance::MaintenanceStatus;
use crate::mid_cross_tracker::MidCrossSnapshot;
use crate::num::Num;
use crate::render::{
    cex_line, cex_text, clock, clock_at, head_lines, hold_line, hold_text, lead_lines, llm_line,
    llm_text, or_now, owned_cex, position_lines, push_head, push_lead, push_position, push_quotes,
    push_strike, push_trade_log, push_waiting, quote_lines, status_line, strike_lines,
    trade_log_lines, waiting_lines, window_status, RULE,
};
use crate::render_strategy::{
    e_lines, h_lines, j_bar_consulted, j_lines, owned_mid, owned_tape, pre_entry_lines, push_e,
    push_h, push_j, push_pre_entry, seconds_left_or, secs_left_or, StrategyPanel,
};
use crate::strategy::{LlmForecast, TradeTapeSnapshot};
use crate::text::{no_lines, push_line, same_text, texts};
use crate::time::{rfc3339_millis, rfc3339_millis_of, spans_fit};
use crate::trader::WindowState;
use vstd::prelude::*;

verus! {

/// What only the running window shows: its lead, what is held, and the exchange.
pub open spec fn running_lines(
    w: WindowState,
    spot_price: Option<Num>,
    atr: Num,
    panel: StrategyPanel,
    mc: Option<MidCrossSnapshot>,
    cex: Option<CexMicroSnapshot>,
    at: (i64, Num),
) -> Seq<Seq<char>> {
    let crossed = panel.state is Some && panel.state->0.ptb_crossed;
    let lead = match mc {
        Some(m) => lead_lines(m),
        None => Seq::<Seq<char>>::empty(),
    };
    let hold = match (spot_price, w.market.price_to_beat) {
        (Some(spot), Some(ptb)) => seq![hold_line(w, spot, ptb, at, atr, crossed, cex)],
        _ => Seq::<Seq<char>>::empty(),
    };
    let exchange = match cex {
        Some(c) => seq![cex_line(c)],
        None => Seq::<Seq<char>>::empty(),
    };
    lead + hold + exchange
}

fn push_running(
    lines: &mut Vec<String>,
    w: &WindowState,
    spot_price: Option<Num>,
    atr: Num,
    panel: &StrategyPanel,
    mc: Option<&MidCrossSnapshot>,
    cex: Option<&CexMicroSnapshot>,
    at: (i64, Num),
)
    ensures
        texts(final(lines)@) == texts(old(lines)@) + running_lines(
            *w,
            spot_price,
            atr,
            *panel,
            owned_mid(mc),
            owned_cex(cex),
            at,
        ),
{
    let ghost before = texts(lines@);
    let ghost none = Seq::<Seq<char>>::empty();
    let ghost mut lead = none;
    let ghost mut hold = none;
    assert(before + none =~= before);
    if let Some(m) = mc {
        push_lead(lines, m);
        proof {
            lead = lead_lines(*m);
        }
    }
    assert(texts(lines@) =~= before + lead);
    let crossed: bool = match &panel.state {
        Some(s) => s.ptb_crossed,
        None => false,
    };
    if let (Some(spot), Some(ptb)) = (spot_price, w.market.price_to_beat) {
        push_line(lines, hold_text(w, spot, ptb, at, atr, crossed, cex));
        proof {
            hold = seq![hold_line(*w, spot, ptb, at, atr, crossed, owned_cex(cex))];
        }
    }
    assert(texts(lines@) =~= before + lead + hold);
    if let Some(c) = cex {
        push_line(lines, cex_text(c));
        assert(texts(lines@) =~= before + (lead + hold + seq![cex_line(*c)]));
    } else {
        assert(texts(lines@) =~= before + (lead + hold + none));
    }
}

/// The lines of the configured strategy.
pub open spec fn strategy_lines(
    label: Seq<char>,
    config: Config,
    w: WindowState,
    spot_price: Option<Num>,
    atr: Num,
    panel: StrategyPanel,
    mc: Option<MidCrossSnapshot>,
    cex: Option<CexMicroSnapshot>,
    tape: Option<TradeTapeSnapshot>,
    cash: Num,
    end_ms: Option<i64>,
    now_ms: i64,
) -> Seq<Seq<char>> {
    let at = clock_at(w.market, end_ms, now_ms);
    if config.strategy@ == "dynamic_grid_e"@ {
        e_lines(label, w, panel.state, mc, at.1)
    } else if config.strategy@ == "j_endgame"@ {
        j_lines(
            label,
            config,
            w,
            spot_price,
            atr,
            mc,
            cex,
            tape,
            cash,
            panel,
            secs_left_or(end_ms, now_ms, 0),
        )
    } else if config.strategy@ == "cheap_hold_h"@ {
        h_lines(label, w, spot_price, atr, panel, secs_left_or(end_ms, now_ms, 1), at.1)
    } else {
        pre_entry_lines(panel.state, w, spot_price)
    }
}

/// Whether the block of a window gets as far as the endgame's entry bar.
pub open spec fn block_bar_consulted(
    label: Seq<char>,
    config: Config,
    w: WindowState,
    spot_price: Option<Num>,
    atr: Num,
    panel: StrategyPanel,
    mc: Option<MidCrossSnapshot>,
    cash: Num,
    now_ms: i64,
) -> bool {
    config.strategy@ == "j_endgame"@ && j_bar_consulted(
        label,
        config,
        w,
        spot_price,
        atr,
        mc,
        cash,
        panel,
        secs_left_or(rfc3339_millis_of(w.market.end_time@), now_ms, 0),
    )
}

fn push_strategy(
    lines: &mut Vec<String>,
    label: &str,
    config: &Config,
    w: &WindowState,
    spot_price: Option<Num>,
    atr: Num,
    panel: &StrategyPanel,
    mc: Option<&MidCrossSnapshot>,
    cex: Option<&CexMicroSnapshot>,
    tape: Option<&TradeTapeSnapshot>,
    cash: Num,
    now_ms: i64,
)
    requires
        block_bar_consulted(
            label@,
            *config,
            *w,
            spot_price,
            atr,
            *panel,
            owned_mid(mc),
            cash,
            now_ms,
        ) ==> enter_bar_valid(config.j_endgame),
        spans_fit(now_ms),
    ensures
        texts(final(lines)@) == texts(old(lines)@) + strategy_lines(
            label@,
            *config,
            *w,
            spot_price,
            atr,
            *panel,
            owned_mid(mc),
            owned_cex(cex),
            owned_tape(tape),
            cash,
            rfc3339_millis_of(w.market.end_time@),
            now_ms,
        ),
{
    let at: (i64, Num) = clock(&w.market, now_ms);
    let end_ms: Option<i64> = rfc3339_millis(w.market.end_time.as_str());
    let name: &str = config.strategy.as_str();
    if same_text(name, "dynamic_grid_e") {
        push_e(lines, label, w, &panel.state, mc, at.1);
    } else if same_text(name, "j_endgame") {
        let secs: i64 = seconds_left_or(end_ms, now_ms, 0);
        push_j(lines, label, config, w, spot_price, atr, mc, cex, tape, cash, panel, secs);
    } else if same_text(name, "cheap_hold_h") {
        let secs: i64 = seconds_left_or(end_ms, now_ms, 1);
        push_h(lines, label, w, spot_price, atr, panel, secs, at.1);
    } else {
        push_pre_entry(lines, &panel.state, w, spot_price);
    }
}

/// The block of a window, or what stands in its place.
pub open spec fn block_lines(
    win: Option<WindowState>,
    label: Seq<char>,
    spot_price: Option<Num>,
    atr: Num,
    panel: StrategyPanel,
    forecast: Option<LlmForecast>,
    mc: Option<MidCrossSnapshot>,
    cex: Option<CexMicroSnapshot>,
    config: Config,
    tape: Option<TradeTapeSnapshot>,
    cash: Num,
    maintenance: MaintenanceStatus,
    now_ms: i64,
) -> Seq<Seq<char>> {
    match win {
        None => waiting_lines(label),
        Some(w) => {
            let start_ms = rfc3339_millis_of(w.market.start_time@);
            let end_ms = rfc3339_millis_of(w.market.end_time@);
            let at = clock_at(w.market, end_ms, now_ms);
            let running = if label == "CURRENT"@ {
                running_lines(w, spot_price, atr, panel, mc, cex, at)
            } else {
                Seq::<Seq<char>>::empty()
            };
            head_lines(label, w) + seq![
                status_line(or_now(start_ms, now_ms), or_now(end_ms, now_ms), now_ms, maintenance),
            ] + strike_lines(w.market, spot_price) + quote_lines(w.prices) + running + seq![
                llm_line(forecast),
                painted(RULE@, "dim"@),
            ] + position_lines(w) + strategy_lines(
                label,
                config,
                w,
                spot_price,
                atr,
                panel,
                mc,
                cex,
                tape,
                cash,
                end_ms,
                now_ms,
            ) + trade_log_lines(w.trades@)
        },
    }
}

/// The window behind a reference.
pub open spec fn owned_window(w: Option<&WindowState>) -> Option<WindowState> {
    match w {
        Some(x) => Some(*x),
        None => None,
    }
}

pub fn render_window_block(
    win_opt: Option<&WindowState>,
    label: &str,
    spot_price: Option<Num>,
    current_atr: Num,
    panel: &StrategyPanel,
    llm_forecast: Option<&LlmForecast>,
    mid_cross: Option<&MidCrossSnapshot>,
    cex_micro: Option<&CexMicroSnapshot>,
    config: &Config,
    tape: Option<&TradeTapeSnapshot>,
    available_cash: Num,
    maintenance: &MaintenanceStatus,
    now_ms: i64,
) -> (r: Vec<String>)
    requires
        win_opt matches Some(w) ==> block_bar_consulted(
            label@,
            *config,
            *w,
            spot_price,
            current_atr,
            *panel,
            owned_mid(mid_cross),
            available_cash,
            now_ms,
        ) ==> enter_bar_valid(config.j_endgame),
        win_opt is Some ==> spans_fit(now_ms),
    ensures
        texts(r@) == block_lines(
            owned_window(win_opt),
            label@,
            spot_price,
            current_atr,
            *panel,
            owned_forecast(llm_forecast),
            owned_mid(mid_cross),
            owned_cex(cex_micro),
            *config,
            owned_tape(tape),
            available_cash,
            *maintenance,
            now_ms,
        ),
{
    let mut lines: Vec<String> = no_lines();
    let w: &WindowState = match win_opt {
        Some(w) => w,
        None => {
            push_waiting(&mut lines, label);
            assert(texts(lines@) =~= waiting_lines(label@));
            return lines;
        },
    };
    let start_ms: i64 = match rfc3339_millis(w.market.start_time.as_str()) {
        Some(t) => t,
        None => now_ms,
    };
    let end_ms: i64 = match rfc3339_millis(w.market.end_time.as_str()) {
        Some(t) => t,
        None => now_ms,
    };
    push_head(&mut lines, label, w);
    let ghost a = head_lines(label@, *w);
    assert(texts(lines@) =~= a);
    push_line(&mut lines, window_status(start_ms, end_ms, now_ms, maintenance));
    let ghost b = seq![status_line(start_ms, end_ms, now_ms, *maintenance)];
    assert(texts(lines@) =~= a + b);
    push_strike(&mut lines, &w.market, spot_price);
    let ghost c = strike_lines(w.market, spot_price);
    push_quotes(&mut lines, &w.prices);
    let ghost d = quote_lines(w.prices);
    assert(texts(lines@) == a + b + c + d);
    let ghost mut e: Seq<Seq<char>> = Seq::<Seq<char>>::empty();
    assert(a + b + c + d + e =~= a + b + c + d);
    if same_text(label, "CURRENT") {
        let at: (i64, Num) = clock(&w.market, now_ms);
        push_running(&mut lines, w, spot_price, current_atr, panel, mid_cross, cex_micro, at);
        proof {
            e = running_lines(
                *w,
                spot_price,
                current_atr,
                *panel,
                owned_mid(mid_cross),
                owned_cex(cex_micro),
                at,
            );
        }
    }
    assert(texts(lines@) == a + b + c + d + e);
    push_line(&mut lines, llm_text(llm_forecast));
    push_line(&mut lines, paint(RULE, "dim"));
    let ghost f = seq![llm_line(owned_forecast(llm_forecast)), painted(RULE@, "dim"@)];
    assert(texts(lines@) =~= a + b + c + d + e + f);
    push_position(&mut lines, w);
    push_strategy(
        &mut lines,
        label,
        config,
        w,
        spot_price,
        current_atr,
        panel,
        mid_cross,
        cex_micro,
        tape,
        available_cash,
        now_ms,
    );
    push_trade_log(&mut lines, &w.trades);
    lines
}

} // verus!
