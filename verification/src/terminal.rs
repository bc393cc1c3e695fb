//! The terminal dashboard around its two window blocks.
use crate::asset_price::{asset_price_text, format_asset_price, format_atr};
use crate::display::{format_runtime, format_utc, moment_text, paint, painted, runtime_text, utc_of};
use crate::h_stats::{format_h_session_line, session_line};
use crate::num::Num;
use crate::number_format::{dec_text, fixed, fixed_of, uint_text};
use crate::render::{profit, profit_text};
use crate::text::{
    fill1, fill3, fill4, fill5, fill6, filled, joined, no_lines, push_line, replace_char, replaced,
    same_text, texts, to_uppercase, uppercase,
};
use crate::trader::{copy_market, copy_prices, copy_trades, Portfolio, WindowState};
use vstd::prelude::*;

verus! {

pub const BANNER: &'static str =
    "=================================================================================";

pub const DIVIDER: &'static str =
    "─────────────────────────────────────────────────────────────────────────────────";

/// What the dashboard shows besides its windows.
#[derive(Debug)]
pub struct DashboardView {
    pub strategy: String,
    pub asset: String,
    pub interval: String,
    pub llm_enabled: bool,
    pub llm_model: String,
    pub llm_location: String,
    pub llm_correct: u32,
    pub llm_wrong: u32,
    pub shutdown_pending: bool,
    pub started_at_ms: i64,
    pub now_ms: i64,
    pub atr: Num,
    pub spot_price: Option<Num>,
    pub entered_windows: u32,
    pub skipped_windows: u32,
    pub closed_windows: u32,
    pub wins: u32,
    pub losses: u32,
    pub h_market_wins: u32,
    pub h_market_losses: u32,
    pub h_salvage_escapes: u32,
    pub h_salvage_wins: u32,
    pub starting_bank: Num,
    pub available_cash: Num,
    pub equity: Num,
    pub realized_pnl: Num,
    /// One line on the session so far.
    pub summary: String,
}

impl DashboardView {
    /// Counts whose sums fit, and a start that a span to now can be measured from.
    pub open spec fn wf(self) -> bool {
        &&& self.llm_correct + self.llm_wrong <= u32::MAX
        &&& self.entered_windows + self.skipped_windows <= u32::MAX
        &&& self.wins + self.losses <= u32::MAX
        &&& self.h_market_wins + self.h_market_losses <= u32::MAX
        &&& i64::MIN <= self.now_ms - self.started_at_ms <= i64::MAX
    }
}

/// The first window in a role.
pub open spec fn first_in_role(windows: Seq<WindowState>, role: Seq<char>) -> Option<WindowState>
    decreases windows.len(),
{
    if windows.len() == 0 {
        None
    } else if windows[0].role@ == role {
        Some(windows[0])
    } else {
        first_in_role(windows.skip(1), role)
    }
}

/// Whether `d` shows the position of `w`: quotes, market, status, money and shares.
pub open spec fn same_position(d: WindowState, w: WindowState) -> bool {
    &&& d.prices@ == w.prices@
    &&& d.market@ == w.market@
    &&& d.status@ == w.status@
    &&& d.spent == w.spent
    &&& d.up_shares == w.up_shares && d.down_shares == w.down_shares
}

/// Whether `d` shows the window `w`: its number, role, trades and returned cash, with the
/// position that the portfolio has under that number, or its own where there is none.
pub open spec fn shows_window(d: WindowState, w: WindowState, port: Portfolio) -> bool {
    &&& d.window_number == w.window_number
    &&& d.role@ == w.role@
    &&& d.trades@ == w.trades@
    &&& d.cash_returned == w.cash_returned
    &&& d.initial_up_shares == w.initial_up_shares
    &&& d.initial_down_shares == w.initial_down_shares
    &&& same_position(
        d,
        if port.has(w.window_number) {
            port.windows@[port.place_of(w.window_number)]
        } else {
            w
        },
    )
}

/// Copies a window, with the position that the portfolio has under its number.
fn with_portfolio_position(w: &WindowState, port: &Portfolio) -> (r: WindowState)
    ensures
        shows_window(r, *w, *port),
{
    let i: usize = port.find(w.window_number);
    let p: &WindowState = if i < port.windows.len() {
        &port.windows[i]
    } else {
        w
    };
    WindowState {
        window_number: w.window_number,
        role: w.role.clone(),
        status: p.status.clone(),
        market: copy_market(&p.market),
        spent: p.spent,
        cash_returned: w.cash_returned,
        up_shares: p.up_shares,
        down_shares: p.down_shares,
        initial_up_shares: w.initial_up_shares,
        initial_down_shares: w.initial_down_shares,
        trades: copy_trades(&w.trades),
        prices: copy_prices(&p.prices),
    }
}

/// The window that is shown: the live one, which stays on the screen after its close, or
/// else the one in the role. Prices, market, status, money spent and shares come from the
/// portfolio where it has the window; role, trades and returned cash stay the window's own.
pub fn resolve_display_window(port: &Portfolio, live: Option<&WindowState>, role: &str) -> (r:
    Option<WindowState>)
    ensures
        match (
            r,
            match live {
                Some(w) => Some(*w),
                None => first_in_role(port.windows@, role@),
            },
        ) {
            (Some(d), Some(w)) => shows_window(d, w, *port),
            (None, None) => true,
            _ => false,
        },
{
    if let Some(w) = live {
        return Some(with_portfolio_position(w, port));
    }
    let mut i: usize = 0;
    assert(port.windows@.skip(0) == port.windows@);
    while i < port.windows.len()
        invariant
            i <= port.windows.len(),
            live is None,
            first_in_role(port.windows@, role@) == first_in_role(
                port.windows@.skip(i as int),
                role@,
            ),
        decreases port.windows.len() - i,
    {
        assert(port.windows@.skip(i as int)[0] == port.windows@[i as int]);
        assert(port.windows@.skip(i as int).skip(1) == port.windows@.skip(i + 1));
        if same_text(port.windows[i].role.as_str(), role) {
            return Some(with_portfolio_position(&port.windows[i], port));
        }
        i = i + 1;
    }
    None
}

/// A part of a whole in percent; zero of nothing.
pub open spec fn percent_of(part: u32, whole: int) -> Num {
    if whole > 0 {
        Num::uint(part as u64) / Num::uint(whole as u64) * Num::uint(100)
    } else {
        Num::zero()
    }
}

fn percent(part: u32, whole: u32) -> (r: Num)
    ensures
        r == percent_of(part, whole as int),
{
    if whole > 0 {
        Num::uint(part as u64) / Num::uint(whole as u64) * Num::uint(100)
    } else {
        Num::zero()
    }
}

pub open spec fn count_text(n: int, tone: Seq<char>) -> Seq<char> {
    painted(dec_text(n), tone)
}

fn shown_count(n: u32, tone: &str) -> (r: String)
    ensures
        r@ == count_text(n as int, tone@),
{
    paint(uint_text(n as u64).as_str(), tone)
}

/// Strategy, asset and forecasts.
pub open spec fn title_lines(v: DashboardView) -> Seq<Seq<char>> {
    let on = v.llm_enabled;
    let two = seq![
        painted(BANNER@, "dim"@),
        filled(
            "  {}     {}     {}"@,
            seq![
                painted("STRATEGY: "@ + replaced(uppercase(v.strategy@), '_', ' '), "bold"@),
                painted("Asset: "@ + v.asset@, "cyan"@),
                painted("Interval: "@ + v.interval@, "cyan"@),
            ],
        ),
        filled(
            "  LLM-forecast: {} | Model: {} | Location: {} | Right {} | Wrong {} | Acc {}%"@,
            seq![
                painted(
                    if on {
                        "enabled"@
                    } else {
                        "disabled"@
                    },
                    if on {
                        "green"@
                    } else {
                        "dim"@
                    },
                ),
                painted(v.llm_model@, "cyan"@),
                painted(v.llm_location@, "cyan"@),
                count_text(v.llm_correct as int, "green"@),
                count_text(v.llm_wrong as int, "red"@),
                fixed_of(percent_of(v.llm_correct, v.llm_correct + v.llm_wrong), 1),
            ],
        ),
    ];
    let three = if v.shutdown_pending {
        two.push(
            filled(
                "  {}"@,
                seq![painted("SHUTDOWN PENDING | NEXT window buys are disabled."@, "red"@)],
            ),
        )
    } else {
        two
    };
    three.push(painted(BANNER@, "dim"@))
}

fn push_title(lines: &mut Vec<String>, v: &DashboardView)
    requires
        v.wf(),
    ensures
        texts(final(lines)@) == texts(old(lines)@) + title_lines(*v),
{
    let ghost before = texts(lines@);
    push_line(lines, paint(BANNER, "dim"));
    let name: String = replace_char(to_uppercase(v.strategy.as_str()).as_str(), '_', ' ');
    push_line(
        lines,
        fill3(
            "  {}     {}     {}",
            paint(joined("STRATEGY: ", name.as_str()).as_str(), "bold").as_str(),
            paint(joined("Asset: ", v.asset.as_str()).as_str(), "cyan").as_str(),
            paint(joined("Interval: ", v.interval.as_str()).as_str(), "cyan").as_str(),
        ),
    );
    let state: String = if v.llm_enabled {
        paint("enabled", "green")
    } else {
        paint("disabled", "dim")
    };
    push_line(
        lines,
        fill6(
            "  LLM-forecast: {} | Model: {} | Location: {} | Right {} | Wrong {} | Acc {}%",
            state.as_str(),
            paint(v.llm_model.as_str(), "cyan").as_str(),
            paint(v.llm_location.as_str(), "cyan").as_str(),
            shown_count(v.llm_correct, "green").as_str(),
            shown_count(v.llm_wrong, "red").as_str(),
            fixed(percent(v.llm_correct, v.llm_correct + v.llm_wrong), 1).as_str(),
        ),
    );
    if v.shutdown_pending {
        push_line(
            lines,
            fill1(
                "  {}",
                paint("SHUTDOWN PENDING | NEXT window buys are disabled.", "red").as_str(),
            ),
        );
    }
    push_line(lines, paint(BANNER, "dim"));
    assert(texts(lines@) =~= before + title_lines(*v));
}

pub open spec fn atr_text(asset: Seq<char>, atr: Num) -> Seq<char> {
    if atr.gt(Num::zero()) {
        asset_price_text(asset, atr)
    } else {
        "Warming up..."@
    }
}

fn shown_atr(asset: &str, atr: Num) -> (r: String)
    ensures
        r@ == atr_text(asset@, atr),
{
    if atr.gt(Num::zero()) {
        format_atr(asset, atr)
    } else {
        "Warming up...".to_owned()
    }
}

/// The spot, or that there is none.
pub open spec fn spot_header(asset: Seq<char>, spot: Option<Num>) -> Seq<char> {
    match spot {
        Some(px) => if px.gt(Num::zero()) {
            painted("Chainlink Spot: "@ + asset_price_text(asset, px), "cyan"@)
        } else {
            painted("Chainlink Spot: NO DATA (WS reconnecting...)"@, "red"@)
        },
        None => painted("Chainlink Spot: NO DATA (WS reconnecting...)"@, "red"@),
    }
}

fn shown_spot(asset: &str, spot: Option<Num>) -> (r: String)
    ensures
        r@ == spot_header(asset@, spot),
{
    match spot {
        Some(px) => if px.gt(Num::zero()) {
            paint(
                joined("Chainlink Spot: ", format_asset_price(asset, px).as_str()).as_str(),
                "cyan",
            )
        } else {
            paint("Chainlink Spot: NO DATA (WS reconnecting...)", "red")
        },
        None => paint("Chainlink Spot: NO DATA (WS reconnecting...)", "red"),
    }
}

/// Windows entered and not closed.
pub open spec fn open_count(v: DashboardView) -> int {
    if v.entered_windows >= v.closed_windows {
        v.entered_windows - v.closed_windows
    } else {
        0
    }
}

/// Clock, spot, windows and results.
pub open spec fn session_lines(v: DashboardView) -> Seq<Seq<char>> {
    let settled = v.wins + v.losses;
    let four = seq![
        filled(
            "  Started: {} | Runtime: {} | {} ATR(1m): {}"@,
            seq![
                painted(utc_of(moment_text(v.started_at_ms as int)), "cyan"@),
                painted(runtime_text(v.now_ms - v.started_at_ms), "bold"@),
                painted(v.asset@, "cyan"@),
                painted(atr_text(v.asset@, v.atr), "yellow"@),
            ],
        ),
        filled("  {}"@, seq![spot_header(v.asset@, v.spot_price)]),
        filled(
            "  Windows: Total {} | Entered {} | Closed {} | Open {} | Skipped {}"@,
            seq![
                count_text(v.entered_windows + v.skipped_windows, "bold"@),
                count_text(v.entered_windows as int, "cyan"@),
                count_text(v.closed_windows as int, "green"@),
                count_text(open_count(v), "yellow"@),
                count_text(v.skipped_windows as int, "yellow"@),
            ],
        ),
        filled(
            "  Results (closed only): Wins {} ({}%) | Losses {} ({}%)"@,
            seq![
                count_text(v.wins as int, "green"@),
                fixed_of(percent_of(v.wins, settled), 1),
                count_text(v.losses as int, "red"@),
                fixed_of(percent_of(v.losses, settled), 1),
            ],
        ),
    ];
    if v.strategy@ == "cheap_hold_h"@ {
        four.push(
            filled(
                "  {}"@,
                seq![
                    painted(
                        session_line(
                            v.h_market_wins,
                            v.h_market_losses,
                            v.h_salvage_escapes,
                            v.h_salvage_wins,
                        ),
                        "cyan"@,
                    ),
                ],
            ),
        )
    } else {
        four
    }
}

fn push_session(lines: &mut Vec<String>, v: &DashboardView)
    requires
        v.wf(),
    ensures
        texts(final(lines)@) == texts(old(lines)@) + session_lines(*v),
{
    let ghost before = texts(lines@);
    push_line(
        lines,
        fill4(
            "  Started: {} | Runtime: {} | {} ATR(1m): {}",
            paint(format_utc(v.started_at_ms).as_str(), "cyan").as_str(),
            paint(format_runtime(v.now_ms - v.started_at_ms).as_str(), "bold").as_str(),
            paint(v.asset.as_str(), "cyan").as_str(),
            paint(shown_atr(v.asset.as_str(), v.atr).as_str(), "yellow").as_str(),
        ),
    );
    push_line(lines, fill1("  {}", shown_spot(v.asset.as_str(), v.spot_price).as_str()));
    let open: u32 = if v.entered_windows >= v.closed_windows {
        v.entered_windows - v.closed_windows
    } else {
        0
    };
    push_line(
        lines,
        fill5(
            "  Windows: Total {} | Entered {} | Closed {} | Open {} | Skipped {}",
            shown_count(v.entered_windows + v.skipped_windows, "bold").as_str(),
            shown_count(v.entered_windows, "cyan").as_str(),
            shown_count(v.closed_windows, "green").as_str(),
            shown_count(open, "yellow").as_str(),
            shown_count(v.skipped_windows, "yellow").as_str(),
        ),
    );
    let settled: u32 = v.wins + v.losses;
    push_line(
        lines,
        fill4(
            "  Results (closed only): Wins {} ({}%) | Losses {} ({}%)",
            shown_count(v.wins, "green").as_str(),
            fixed(percent(v.wins, settled), 1).as_str(),
            shown_count(v.losses, "red").as_str(),
            fixed(percent(v.losses, settled), 1).as_str(),
        ),
    );
    if same_text(v.strategy.as_str(), "cheap_hold_h") {
        let extra: String = format_h_session_line(
            v.h_market_wins,
            v.h_market_losses,
            v.h_salvage_escapes,
            v.h_salvage_wins,
        );
        push_line(lines, fill1("  {}", paint(extra.as_str(), "cyan").as_str()));
    }
    assert(texts(lines@) =~= before + session_lines(*v));
}

/// Bank, cash, equity and profit.
pub open spec fn bank_lines(v: DashboardView) -> Seq<Seq<char>> {
    seq![
        filled(
            "  Starting bank: ${} | Cash: ${} | Equity: ${} | Realized PnL: {}"@,
            seq![
                fixed_of(v.starting_bank, 2),
                fixed_of(v.available_cash, 2),
                fixed_of(v.equity, 2),
                painted(
                    profit_text(v.realized_pnl),
                    if v.realized_pnl.ge(Num::zero()) {
                        "green"@
                    } else {
                        "red"@
                    },
                ),
            ],
        ),
        painted(BANNER@, "dim"@),
        "  "@ + v.summary@,
    ]
}

fn push_bank(lines: &mut Vec<String>, v: &DashboardView)
    ensures
        texts(final(lines)@) == texts(old(lines)@) + bank_lines(*v),
{
    let ghost before = texts(lines@);
    let tone: &'static str = if v.realized_pnl.ge(Num::zero()) {
        "green"
    } else {
        "red"
    };
    push_line(
        lines,
        fill4(
            "  Starting bank: ${} | Cash: ${} | Equity: ${} | Realized PnL: {}",
            fixed(v.starting_bank, 2).as_str(),
            fixed(v.available_cash, 2).as_str(),
            fixed(v.equity, 2).as_str(),
            paint(profit(v.realized_pnl).as_str(), tone).as_str(),
        ),
    );
    push_line(lines, paint(BANNER, "dim"));
    push_line(lines, joined("  ", v.summary.as_str()));
    assert(texts(lines@) =~= before + bank_lines(*v));
}

/// Lines behind a margin.
pub open spec fn indented(lines: Seq<Seq<char>>) -> Seq<Seq<char>> {
    lines.map_values(|l: Seq<char>| "  "@ + l)
}

fn push_indented(lines: &mut Vec<String>, block: &Vec<String>)
    ensures
        texts(final(lines)@) == texts(old(lines)@) + indented(texts(block@)),
{
    let ghost before = texts(lines@);
    let ghost want = indented(texts(block@));
    let mut i: usize = 0;
    assert(before + want.take(0) =~= before);
    while i < block.len()
        invariant
            i <= block.len(),
            want == indented(texts(block@)),
            texts(lines@) == before + want.take(i as int),
        decreases block.len() - i,
    {
        push_line(lines, joined("  ", block[i].as_str()));
        assert(texts(lines@) =~= before + want.take(i + 1));
        i = i + 1;
    }
    assert(want.take(i as int) =~= want);
}

/// The last six lines of the event log.
pub open spec fn log_lines(logs: Seq<Seq<char>>) -> Seq<Seq<char>> {
    let last = if logs.len() <= 6 {
        logs
    } else {
        logs.skip(logs.len() - 6)
    };
    last.map_values(|l: Seq<char>| filled("  • {}"@, seq![painted(l, "dim"@)]))
}

fn push_logs(lines: &mut Vec<String>, logs: &Vec<String>)
    ensures
        texts(final(lines)@) == texts(old(lines)@) + log_lines(texts(logs@)),
{
    let ghost before = texts(lines@);
    let ghost want = log_lines(texts(logs@));
    let start: usize = if logs.len() <= 6 {
        0
    } else {
        logs.len() - 6
    };
    let mut i: usize = start;
    assert(before + want.take(0) =~= before);
    while i < logs.len()
        invariant
            start <= i <= logs.len(),
            want == log_lines(texts(logs@)),
            start == (if logs@.len() <= 6 {
                0int
            } else {
                logs@.len() - 6
            }),
            texts(lines@) == before + want.take(i - start),
        decreases logs.len() - i,
    {
        push_line(lines, fill1("  • {}", paint(logs[i].as_str(), "dim").as_str()));
        assert(texts(lines@) =~= before + want.take(i - start + 1));
        i = i + 1;
    }
    assert(want.take(i - start) =~= want);
}

/// The whole dashboard.
pub open spec fn dashboard_lines(
    v: DashboardView,
    left: Seq<Seq<char>>,
    right: Seq<Seq<char>>,
    logs: Seq<Seq<char>>,
) -> Seq<Seq<char>> {
    title_lines(v) + session_lines(v) + bank_lines(v) + indented(left) + seq![
        painted(DIVIDER@, "dim"@),
    ] + indented(right) + seq![
        painted(BANNER@, "dim"@),
        filled("  {}"@, seq![painted("SYSTEM EVENT LOG:"@, "cyan"@)]),
    ] + log_lines(logs) + seq![painted(BANNER@, "dim"@)]
}

/// The dashboard with the running window's block above the upcoming one's.
pub fn render_dashboard(
    v: &DashboardView,
    left_lines: &Vec<String>,
    right_lines: &Vec<String>,
    system_logs: &Vec<String>,
) -> (r: Vec<String>)
    requires
        v.wf(),
    ensures
        texts(r@) == dashboard_lines(
            *v,
            texts(left_lines@),
            texts(right_lines@),
            texts(system_logs@),
        ),
{
    let mut lines: Vec<String> = no_lines();
    push_title(&mut lines, v);
    let ghost a = title_lines(*v);
    assert(texts(lines@) =~= a);
    push_session(&mut lines, v);
    push_bank(&mut lines, v);
    push_indented(&mut lines, left_lines);
    let ghost b = a + session_lines(*v) + bank_lines(*v) + indented(texts(left_lines@));
    assert(texts(lines@) == b);
    push_line(&mut lines, paint(DIVIDER, "dim"));
    assert(texts(lines@) =~= b + seq![painted(DIVIDER@, "dim"@)]);
    push_indented(&mut lines, right_lines);
    let ghost c = b + seq![painted(DIVIDER@, "dim"@)] + indented(texts(right_lines@));
    assert(texts(lines@) == c);
    push_line(&mut lines, paint(BANNER, "dim"));
    push_line(&mut lines, fill1("  {}", paint("SYSTEM EVENT LOG:", "cyan").as_str()));
    let ghost d = c + seq![
        painted(BANNER@, "dim"@),
        filled("  {}"@, seq![painted("SYSTEM EVENT LOG:"@, "cyan"@)]),
    ];
    assert(texts(lines@) =~= d);
    push_logs(&mut lines, system_logs);
    let ghost e = d + log_lines(texts(system_logs@));
    assert(texts(lines@) == e);
    push_line(&mut lines, paint(BANNER, "dim"));
    assert(texts(lines@) =~= e + seq![painted(BANNER@, "dim"@)]);
    lines
}

} // verus!
