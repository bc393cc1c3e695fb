//! The block of lines that the terminal dashboard shows of a window.
use crate::asset_price::{asset_price_text, format_asset_price};
use crate::cex_micro::{cex_velocity_against_side, velocity_against, CexMicroSnapshot};
use crate::client::{MarketWindow, PricesState};
use crate::dashboard::{chance, chance_pct};
use crate::display::{
    clock_of, countdown_text, date_and_time, date_time, format_countdown, format_timestamp,
    moment_text, paint, painted,
};
use crate::event_log::{lead_or, lead_text, marked_value, opt_lead};
use crate::maintenance::{badge, paint_maintenance, MaintenanceStatus};
use crate::mid_cross_tracker::{elapsed_pct, market_span, time_pct_for, MidCrossSnapshot};
use crate::num::Num;
use crate::number_format::{dec_text, fixed, fixed_of, signed_fixed, signed_fixed_of, uint_text};
use crate::redeem_hold::{
    evaluate_redeem_hold, hold_reason, holds, in_the_money, itm_gap, side_is_itm, RedeemHoldInput,
};
use crate::strategy::LlmForecast;
use crate::text::{
    fill1, fill2, fill3, fill4, fill5, filled, join_texts, no_lines, push_line, same_text, strung,
    texts,
};
use crate::time::{div_toward_zero, rfc3339_millis, rfc3339_millis_of, spans_fit, trunc_div};
use crate::trader::{TradeRecord, WindowState};
use crate::window_close::{ask_hold, hold_question};
use vstd::prelude::*;

verus! {

pub const RULE: &'static str = "--------------------------------------";

/// The tone of a side: green for UP, red for DOWN, another one for anything else.
pub open spec fn side_tone(side: Seq<char>, other: Seq<char>) -> Seq<char> {
    if side == "UP"@ {
        "green"@
    } else if side == "DOWN"@ {
        "red"@
    } else {
        other
    }
}

pub fn tone_of_side(side: &str, other: &'static str) -> (r: &'static str)
    ensures
        r@ == side_tone(side@, other@),
{
    if same_text(side, "UP") {
        "green"
    } else if same_text(side, "DOWN") {
        "red"
    } else {
        other
    }
}

/// The name of a block in its tone.
pub open spec fn block_label(label: Seq<char>) -> Seq<char> {
    painted(
        label,
        if label == "CURRENT"@ {
            "green"@
        } else {
            "yellow"@
        },
    )
}

fn label_text(label: &str) -> (r: String)
    ensures
        r@ == block_label(label@),
{
    if same_text(label, "CURRENT") {
        paint(label, "green")
    } else {
        paint(label, "yellow")
    }
}

/// What is shown without a window.
pub open spec fn waiting_lines(label: Seq<char>) -> Seq<Seq<char>> {
    seq![
        filled("--- {} WINDOW ---"@, seq![block_label(label)]),
        painted("Waiting for market stream..."@, "dim"@),
        painted("  (searching Polymarket — check SYSTEM EVENT LOG below)"@, "dim"@),
    ]
}

pub(crate) fn push_waiting(lines: &mut Vec<String>, label: &str)
    ensures
        texts(final(lines)@) == texts(old(lines)@) + waiting_lines(label@),
{
    let ghost before = texts(lines@);
    push_line(lines, fill1("--- {} WINDOW ---", label_text(label).as_str()));
    push_line(lines, paint("Waiting for market stream...", "dim"));
    push_line(lines, paint("  (searching Polymarket — check SYSTEM EVENT LOG below)", "dim"));
    assert(texts(lines@) =~= before + waiting_lines(label@));
}

/// Number, slug and times.
pub open spec fn head_lines(label: Seq<char>, w: WindowState) -> Seq<Seq<char>> {
    seq![
        filled(
            "--- {} WINDOW #{} ---"@,
            seq![block_label(label), painted(dec_text(w.window_number as int), "bold"@)],
        ),
        filled("Slug: {}"@, seq![painted(w.market.slug@, "dim"@)]),
        filled("Start: {}"@, seq![painted(date_and_time(w.market.start_time@), "dim"@)]),
        filled("End:   {}"@, seq![painted(date_and_time(w.market.end_time@), "dim"@)]),
    ]
}

pub(crate) fn push_head(lines: &mut Vec<String>, label: &str, w: &WindowState)
    ensures
        texts(final(lines)@) == texts(old(lines)@) + head_lines(label@, *w),
{
    let ghost before = texts(lines@);
    push_line(
        lines,
        fill2(
            "--- {} WINDOW #{} ---",
            label_text(label).as_str(),
            paint(uint_text(w.window_number as u64).as_str(), "bold").as_str(),
        ),
    );
    push_line(lines, fill1("Slug: {}", paint(w.market.slug.as_str(), "dim").as_str()));
    push_line(
        lines,
        fill1("Start: {}", paint(date_time(w.market.start_time.as_str()).as_str(), "dim").as_str()),
    );
    push_line(
        lines,
        fill1("End:   {}", paint(date_time(w.market.end_time.as_str()).as_str(), "dim").as_str()),
    );
    assert(texts(lines@) =~= before + head_lines(label@, *w));
}

/// A moment, or now where it is unknown.
pub open spec fn or_now(ms: Option<i64>, now_ms: i64) -> i64 {
    match ms {
        Some(t) => t,
        None => now_ms,
    }
}

/// Waiting, live with the time left, or expired.
pub open spec fn status_line(start_ms: i64, end_ms: i64, now_ms: i64, m: MaintenanceStatus) -> Seq<char> {
    if now_ms < start_ms {
        filled(
            "Status: {} | Starts In: {} | {}"@,
            seq![
                painted("WAITING"@, "yellow"@),
                painted(countdown_text((start_ms - now_ms) / 1000), "bold"@),
                badge(m),
            ],
        )
    } else if now_ms < end_ms {
        filled(
            "Status: {} | Time Left: {} | {}"@,
            seq![
                painted("LIVE"@, "green"@),
                painted(countdown_text((end_ms - now_ms) / 1000), "bold"@),
                badge(m),
            ],
        )
    } else {
        filled("Status: {}"@, seq![painted("EXPIRED"@, "red"@)])
    }
}

pub fn window_status(start_ms: i64, end_ms: i64, now_ms: i64, m: &MaintenanceStatus) -> (r: String)
    requires
        start_ms - now_ms <= i64::MAX,
        end_ms - now_ms <= i64::MAX,
    ensures
        r@ == status_line(start_ms, end_ms, now_ms, *m),
{
    if now_ms < start_ms {
        let secs: i64 = div_toward_zero(start_ms - now_ms, 1000);
        fill3(
            "Status: {} | Starts In: {} | {}",
            paint("WAITING", "yellow").as_str(),
            paint(format_countdown(secs).as_str(), "bold").as_str(),
            paint_maintenance(m).as_str(),
        )
    } else if now_ms < end_ms {
        let secs: i64 = div_toward_zero(end_ms - now_ms, 1000);
        fill3(
            "Status: {} | Time Left: {} | {}",
            paint("LIVE", "green").as_str(),
            paint(format_countdown(secs).as_str(), "bold").as_str(),
            paint_maintenance(m).as_str(),
        )
    } else {
        fill1("Status: {}", paint("EXPIRED", "red").as_str())
    }
}

/// Distance of the spot from the price to beat, in its tone.
pub open spec fn distance_text(m: MarketWindow, spot_price: Option<Num>) -> Seq<char> {
    match (spot_price, m.price_to_beat) {
        (Some(spot), Some(ptb)) => if ptb.gt(Num::zero()) {
            let delta = spot - ptb;
            let pct = delta / ptb * Num::uint(100);
            if delta.ge(Num::zero()) {
                painted(
                    filled(
                        "+{} (+{}%)"@,
                        seq![asset_price_text(m.asset@, delta), fixed_of(pct, 4)],
                    ),
                    "green"@,
                )
            } else {
                painted(
                    filled(
                        "-{} ({}%)"@,
                        seq![asset_price_text(m.asset@, delta.abs()), fixed_of(pct, 4)],
                    ),
                    "red"@,
                )
            }
        } else {
            painted("N/A"@, "dim"@)
        },
        _ => painted("N/A"@, "dim"@),
    }
}

fn distance(m: &MarketWindow, spot_price: Option<Num>) -> (r: String)
    ensures
        r@ == distance_text(*m, spot_price),
{
    match m.get_ptb_deviation(spot_price) {
        Some((delta, pct)) => {
            if delta.ge(Num::zero()) {
                paint(
                    fill2(
                        "+{} (+{}%)",
                        format_asset_price(m.asset.as_str(), delta).as_str(),
                        fixed(pct, 4).as_str(),
                    ).as_str(),
                    "green",
                )
            } else {
                paint(
                    fill2(
                        "-{} ({}%)",
                        format_asset_price(m.asset.as_str(), delta.abs()).as_str(),
                        fixed(pct, 4).as_str(),
                    ).as_str(),
                    "red",
                )
            }
        },
        None => paint("N/A", "dim"),
    }
}

/// A price of an asset, or another text without one.
pub open spec fn price_or(asset: Seq<char>, price: Option<Num>, other: Seq<char>) -> Seq<char> {
    match price {
        Some(p) => asset_price_text(asset, p),
        None => other,
    }
}

fn shown_price(asset: &str, price: Option<Num>, other: &str) -> (r: String)
    ensures
        r@ == price_or(asset@, price, other@),
{
    match price {
        Some(p) => format_asset_price(asset, p),
        None => other.to_owned(),
    }
}

/// The price to beat and the spot.
pub open spec fn strike_lines(m: MarketWindow, spot_price: Option<Num>) -> Seq<Seq<char>> {
    seq![
        filled(
            "Price to Beat (Strike): {}"@,
            seq![
                painted(
                    price_or(m.asset@, m.price_to_beat, "N/A (Chainlink @ open)"@),
                    "magenta"@,
                ),
            ],
        ),
        filled(
            "Live Spot Price: {} | Dist: {}"@,
            seq![
                painted(price_or(m.asset@, spot_price, "N/A"@), "cyan"@),
                distance_text(m, spot_price),
            ],
        ),
        painted(RULE@, "dim"@),
    ]
}

pub(crate) fn push_strike(lines: &mut Vec<String>, m: &MarketWindow, spot_price: Option<Num>)
    ensures
        texts(final(lines)@) == texts(old(lines)@) + strike_lines(*m, spot_price),
{
    let ghost before = texts(lines@);
    let strike: String = shown_price(m.asset.as_str(), m.price_to_beat, "N/A (Chainlink @ open)");
    push_line(
        lines,
        fill1("Price to Beat (Strike): {}", paint(strike.as_str(), "magenta").as_str()),
    );
    let spot: String = shown_price(m.asset.as_str(), spot_price, "N/A");
    push_line(
        lines,
        fill2(
            "Live Spot Price: {} | Dist: {}",
            paint(spot.as_str(), "cyan").as_str(),
            distance(m, spot_price).as_str(),
        ),
    );
    push_line(lines, paint(RULE, "dim"));
    assert(texts(lines@) =~= before + strike_lines(*m, spot_price));
}

/// Bid, ask and chance of a contract.
pub open spec fn quote_line(template: Seq<char>, bid: Num, ask: Num, tone: Seq<char>) -> Seq<char> {
    filled(
        template,
        seq![
            fixed_of(bid, 2),
            painted(fixed_of(ask, 2), tone),
            painted(fixed_of(chance_pct(bid, ask), 1) + "%"@, tone),
        ],
    )
}

fn quote(template: &str, bid: Num, ask: Num, tone: &str) -> (r: String)
    ensures
        r@ == quote_line(template@, bid, ask, tone@),
{
    let mut pct: String = fixed(chance(bid, ask), 1);
    pct.append("%");
    fill3(
        template,
        fixed(bid, 2).as_str(),
        paint(fixed(ask, 2).as_str(), tone).as_str(),
        paint(pct.as_str(), tone).as_str(),
    )
}

/// Whether a book has no quote at all.
pub open spec fn no_quotes(p: PricesState) -> bool {
    p.up.ask.le(Num::zero()) && p.down.ask.le(Num::zero()) && p.up.bid.le(Num::zero())
        && p.down.bid.le(Num::zero())
}

/// The quotes of both contracts.
pub open spec fn quote_lines(p: PricesState) -> Seq<Seq<char>> {
    let quotes = seq![
        quote_line("UP   YES Bid/Ask: {} / {}  [{}]"@, p.up.bid, p.up.ask, "green"@),
        quote_line("DOWN YES Bid/Ask: {} / {}  [{}]"@, p.down.bid, p.down.ask, "red"@),
        filled(
            "Combined Ask:    {}"@,
            seq![painted(fixed_of(p.up.ask + p.down.ask, 2), "bold"@)],
        ),
    ];
    if no_quotes(p) {
        quotes.push(
            painted(
                "⚠ CLOB prices: NO DATA — waiting for orderbook WS / REST snapshot"@,
                "yellow"@,
            ),
        )
    } else {
        quotes
    }
}

pub(crate) fn push_quotes(lines: &mut Vec<String>, p: &PricesState)
    ensures
        texts(final(lines)@) == texts(old(lines)@) + quote_lines(*p),
{
    let ghost before = texts(lines@);
    push_line(lines, quote("UP   YES Bid/Ask: {} / {}  [{}]", p.up.bid, p.up.ask, "green"));
    push_line(lines, quote("DOWN YES Bid/Ask: {} / {}  [{}]", p.down.bid, p.down.ask, "red"));
    push_line(
        lines,
        fill1(
            "Combined Ask:    {}",
            paint(fixed(p.up.ask + p.down.ask, 2).as_str(), "bold").as_str(),
        ),
    );
    if p.up.ask.le(Num::zero()) && p.down.ask.le(Num::zero()) && p.up.bid.le(Num::zero())
        && p.down.bid.le(Num::zero()) {
        push_line(
            lines,
            paint(
                "⚠ CLOB prices: NO DATA — waiting for orderbook WS / REST snapshot",
                "yellow",
            ),
        );
    }
    assert(texts(lines@) =~= before + quote_lines(*p));
}

/// Who leads by midpoint, and the last change of it.
pub open spec fn lead_lines(mc: MidCrossSnapshot) -> Seq<Seq<char>> {
    if !mc.armed {
        seq![filled("Mid Lead: {}"@, seq![painted("waiting for 8% window"@, "dim"@)])]
    } else {
        let leader = opt_lead(mc.current_side, "TIE"@);
        let tone = side_tone(leader, "yellow"@);
        let first = filled(
            "Mid Lead: {} | gap {} | crosses {} (sig {}) | armed @8%"@,
            seq![
                painted(leader, tone),
                fixed_of(mc.lead_gap, 2),
                dec_text(mc.cross_count as int),
                dec_text(mc.significant_cross_count as int),
            ],
        );
        match (mc.last_cross_from, mc.last_cross_to, mc.last_cross_time_pct) {
            (Some(from), Some(to), Some(pct)) => seq![
                first,
                filled(
                    "Last Mid Cross: {}→{} @ {}% | {} | ATR {}"@,
                    seq![
                        painted(lead_text(from), "yellow"@),
                        painted(lead_text(to), tone),
                        fixed_of(pct, 1),
                        if mc.last_cross_is_significant {
                            painted("sig"@, "green"@)
                        } else {
                            painted("noise"@, "dim"@)
                        },
                        fixed_of(mc.last_cross_atr, 1),
                    ],
                ),
            ],
            _ => seq![first],
        }
    }
}

pub(crate) fn push_lead(lines: &mut Vec<String>, mc: &MidCrossSnapshot)
    ensures
        texts(final(lines)@) == texts(old(lines)@) + lead_lines(*mc),
{
    let ghost before = texts(lines@);
    if !mc.armed {
        push_line(lines, fill1("Mid Lead: {}", paint("waiting for 8% window", "dim").as_str()));
    } else {
        let leader: String = lead_or(mc.current_side, "TIE");
        let tone: &'static str = tone_of_side(leader.as_str(), "yellow");
        push_line(
            lines,
            fill4(
                "Mid Lead: {} | gap {} | crosses {} (sig {}) | armed @8%",
                paint(leader.as_str(), tone).as_str(),
                fixed(mc.lead_gap, 2).as_str(),
                uint_text(mc.cross_count as u64).as_str(),
                uint_text(mc.significant_cross_count as u64).as_str(),
            ),
        );
        if let (Some(from), Some(to), Some(pct)) = (
            mc.last_cross_from,
            mc.last_cross_to,
            mc.last_cross_time_pct,
        ) {
            let sig: String = if mc.last_cross_is_significant {
                paint("sig", "green")
            } else {
                paint("noise", "dim")
            };
            push_line(
                lines,
                fill5(
                    "Last Mid Cross: {}→{} @ {}% | {} | ATR {}",
                    paint(from.as_str(), "yellow").as_str(),
                    paint(to.as_str(), tone).as_str(),
                    fixed(pct, 1).as_str(),
                    sig.as_str(),
                    fixed(mc.last_cross_atr, 1).as_str(),
                ),
            );
        }
    }
    assert(texts(lines@) =~= before + lead_lines(*mc));
}

/// Seconds to the end and the elapsed share; nothing of either where the end is unknown.
pub open spec fn clock_at(m: MarketWindow, end_ms: Option<i64>, now_ms: i64) -> (i64, Num) {
    match end_ms {
        Some(end) => {
            let secs = trunc_div(end - now_ms, 1000) as i64;
            (secs, elapsed_pct(market_span(m), secs))
        },
        None => (0, Num::zero()),
    }
}

pub(crate) fn clock(m: &MarketWindow, now_ms: i64) -> (r: (i64, Num))
    requires
        spans_fit(now_ms),
    ensures
        r == clock_at(*m, rfc3339_millis_of(m.end_time@), now_ms),
{
    match rfc3339_millis(m.end_time.as_str()) {
        Some(end) => {
            let secs: i64 = div_toward_zero(end - now_ms, 1000);
            (secs, time_pct_for(m, secs))
        },
        None => (0, Num::zero()),
    }
}

/// What is said of a side that is held to redemption; nothing of one that is not.
pub open spec fn hold_part(
    up: bool,
    w: WindowState,
    spot: Num,
    ptb: Num,
    secs_to_end: i64,
    time_pct: Num,
    atr: Num,
    ptb_crossed: bool,
    cex: Option<CexMicroSnapshot>,
) -> Seq<Seq<char>> {
    let shares = if up {
        w.up_shares
    } else {
        w.down_shares
    };
    let bid = if up {
        w.prices.up.bid
    } else {
        w.prices.down.bid
    };
    let against = match cex {
        Some(c) => velocity_against(up, c.trade_velocity_3s),
        None => false,
    };
    let q = hold_question(
        up,
        spot,
        ptb,
        secs_to_end,
        time_pct,
        atr,
        bid,
        ptb_crossed,
        against,
    );
    if !shares.le(Num::zero()) && in_the_money(up, spot, ptb) && holds(q) {
        seq![
            filled(
                "{} ITM z={} ({})"@,
                seq![
                    if up {
                        "UP"@
                    } else {
                        "DOWN"@
                    },
                    fixed_of(itm_gap(up, spot, ptb, atr, secs_to_end), 2),
                    hold_reason(q),
                ],
            ),
        ]
    } else {
        Seq::<Seq<char>>::empty()
    }
}

fn push_hold_part(
    parts: &mut Vec<String>,
    up: bool,
    w: &WindowState,
    spot: Num,
    ptb: Num,
    secs_to_end: i64,
    time_pct: Num,
    atr: Num,
    ptb_crossed: bool,
    cex: Option<&CexMicroSnapshot>,
)
    ensures
        texts(final(parts)@) == texts(old(parts)@) + hold_part(
            up,
            *w,
            spot,
            ptb,
            secs_to_end,
            time_pct,
            atr,
            ptb_crossed,
            owned_cex(cex),
        ),
{
    let ghost before = texts(parts@);
    proof {
        reveal_strlit("UP");
        reveal_strlit("DOWN");
        assert("UP"@.len() != "DOWN"@.len());
        assert(before + Seq::<Seq<char>>::empty() =~= before);
    }
    let side: &'static str = if up {
        "UP"
    } else {
        "DOWN"
    };
    let (shares, bid): (Num, Num) = if up {
        (w.up_shares, w.prices.up.bid)
    } else {
        (w.down_shares, w.prices.down.bid)
    };
    if shares.le(Num::zero()) || !side_is_itm(side, spot, ptb) {
        return;
    }
    let against: bool = match cex {
        Some(c) => cex_velocity_against_side(side, c),
        None => false,
    };
    let (q, gap_z): (RedeemHoldInput<'static>, Num) = ask_hold(
        up,
        spot,
        ptb,
        secs_to_end,
        time_pct,
        atr,
        bid,
        ptb_crossed,
        against,
    );
    let decision = evaluate_redeem_hold(&q);
    if decision.should_hold {
        push_line(
            parts,
            fill3("{} ITM z={} ({})", side, fixed(gap_z, 2).as_str(), decision.reason),
        );
        assert(texts(parts@) =~= before + hold_part(
            up,
            *w,
            spot,
            ptb,
            secs_to_end,
            time_pct,
            atr,
            ptb_crossed,
            owned_cex(cex),
        ));
    }
}

/// The snapshot behind a reference.
pub open spec fn owned_cex(c: Option<&CexMicroSnapshot>) -> Option<CexMicroSnapshot> {
    match c {
        Some(x) => Some(*x),
        None => None,
    }
}

/// Which sides are held to redemption.
pub open spec fn hold_line(
    w: WindowState,
    spot: Num,
    ptb: Num,
    at: (i64, Num),
    atr: Num,
    ptb_crossed: bool,
    cex: Option<CexMicroSnapshot>,
) -> Seq<char> {
    let parts = hold_part(true, w, spot, ptb, at.0, at.1, atr, ptb_crossed, cex) + hold_part(
        false,
        w,
        spot,
        ptb,
        at.0,
        at.1,
        atr,
        ptb_crossed,
        cex,
    );
    filled(
        "Redeem Hold: {}"@,
        seq![
            if parts.len() == 0 {
                painted("inactive"@, "dim"@)
            } else {
                painted(strung(parts, " | "@), "green"@)
            },
        ],
    )
}

pub(crate) fn hold_text(
    w: &WindowState,
    spot: Num,
    ptb: Num,
    at: (i64, Num),
    atr: Num,
    ptb_crossed: bool,
    cex: Option<&CexMicroSnapshot>,
) -> (r: String)
    ensures
        r@ == hold_line(*w, spot, ptb, at, atr, ptb_crossed, owned_cex(cex)),
{
    let mut parts: Vec<String> = no_lines();
    push_hold_part(&mut parts, true, w, spot, ptb, at.0, at.1, atr, ptb_crossed, cex);
    push_hold_part(&mut parts, false, w, spot, ptb, at.0, at.1, atr, ptb_crossed, cex);
    proof {
        let up = hold_part(true, *w, spot, ptb, at.0, at.1, atr, ptb_crossed, owned_cex(cex));
        let down = hold_part(false, *w, spot, ptb, at.0, at.1, atr, ptb_crossed, owned_cex(cex));
        assert(texts(parts@) =~= up + down);
        assert(texts(parts@).len() == parts@.len());
    }
    if parts.len() == 0 {
        fill1("Redeem Hold: {}", paint("inactive", "dim").as_str())
    } else {
        fill1(
            "Redeem Hold: {}",
            paint(join_texts(&parts, " | ").as_str(), "green").as_str(),
        )
    }
}

pub open spec fn speed_text(v: Option<Num>) -> Seq<char> {
    match v {
        Some(x) => fixed_of(x, 0),
        None => "n/a"@,
    }
}

pub open spec fn bps_text(v: Option<Num>) -> Seq<char> {
    match v {
        Some(x) => signed_fixed_of(x, 1) + "bps"@,
        None => "n/a"@,
    }
}

/// Speed, imbalance and lead of the exchange.
pub open spec fn cex_line(c: CexMicroSnapshot) -> Seq<char> {
    filled(
        "CEX Micro: v3s {} USD/s | imb {} | lead {}"@,
        seq![
            speed_text(c.trade_velocity_3s),
            fixed_of(c.buy_sell_imbalance_3s, 2),
            bps_text(c.lead_vs_chainlink_bps),
        ],
    )
}

pub(crate) fn cex_text(c: &CexMicroSnapshot) -> (r: String)
    ensures
        r@ == cex_line(*c),
{
    let speed: String = match c.trade_velocity_3s {
        Some(v) => fixed(v, 0),
        None => "n/a".to_owned(),
    };
    let lead: String = match c.lead_vs_chainlink_bps {
        Some(b) => {
            let mut t: String = signed_fixed(b, 1);
            t.append("bps");
            t
        },
        None => "n/a".to_owned(),
    };
    assert(speed@ == speed_text(c.trade_velocity_3s));
    assert(lead@ == bps_text(c.lead_vs_chainlink_bps));
    fill3(
        "CEX Micro: v3s {} USD/s | imb {} | lead {}",
        speed.as_str(),
        fixed(c.buy_sell_imbalance_3s, 2).as_str(),
        lead.as_str(),
    )
}

/// The forecast for a window.
pub open spec fn llm_line(f: Option<LlmForecast>) -> Seq<char> {
    match f {
        Some(x) => filled(
            "LLM Forecast: {} | conf {} | {}"@,
            seq![
                painted(
                    x.side@,
                    if x.side@ == "UP"@ {
                        "green"@
                    } else {
                        "red"@
                    },
                ),
                fixed_of(x.confidence, 2),
                painted(x.signal_strength@, "yellow"@),
            ],
        ),
        None => filled("LLM Forecast: {}"@, seq![painted("N/A"@, "dim"@)]),
    }
}

pub(crate) fn llm_text(f: Option<&LlmForecast>) -> (r: String)
    ensures
        r@ == llm_line(crate::event_log::owned_forecast(f)),
{
    match f {
        Some(x) => {
            let tone: &'static str = if same_text(x.side.as_str(), "UP") {
                "green"
            } else {
                "red"
            };
            fill3(
                "LLM Forecast: {} | conf {} | {}",
                paint(x.side.as_str(), tone).as_str(),
                fixed(x.confidence, 2).as_str(),
                paint(x.signal_strength.as_str(), "yellow").as_str(),
            )
        },
        None => fill1("LLM Forecast: {}", paint("N/A", "dim").as_str()),
    }
}

/// Green for what is not negative, another tone for the rest.
pub open spec fn sign_tone(x: Num, other: Seq<char>) -> Seq<char> {
    if x.ge(Num::zero()) {
        "green"@
    } else {
        other
    }
}

fn tone_of_sign(x: Num, other: &'static str) -> (r: &'static str)
    ensures
        r@ == sign_tone(x, other@),
{
    if x.ge(Num::zero()) {
        "green"
    } else {
        other
    }
}

/// A profit with a plus where it is not negative.
pub open spec fn profit_text(x: Num) -> Seq<char> {
    if x.ge(Num::zero()) {
        "+"@ + fixed_of(x, 2)
    } else {
        fixed_of(x, 2)
    }
}

pub fn profit(x: Num) -> (r: String)
    ensures
        r@ == profit_text(x),
{
    if x.ge(Num::zero()) {
        let mut t: String = String::from_str("+");
        let n: String = fixed(x, 2);
        t.append(n.as_str());
        t
    } else {
        fixed(x, 2)
    }
}

/// What was spent, what came back, what the shares are worth.
pub open spec fn position_lines(w: WindowState) -> Seq<Seq<char>> {
    let value = w.cash_returned + marked_value(w, w.prices);
    let pnl = value - w.spent;
    let paired = w.up_shares.min(w.down_shares);
    let floor = w.cash_returned + paired;
    let gap = floor - w.spent;
    seq![
        filled("Spent: ${} | Returned: ${}"@, seq![fixed_of(w.spent, 2), fixed_of(w.cash_returned, 2)]),
        filled(
            "Est. Val: ${} | PnL: {}"@,
            seq![fixed_of(value, 2), painted(profit_text(pnl), sign_tone(pnl, "red"@))],
        ),
        filled(
            "UP shares: {} | DOWN shares: {}"@,
            seq![
                painted(fixed_of(w.up_shares, 4), "green"@),
                painted(fixed_of(w.down_shares, 4), "red"@),
            ],
        ),
        filled(
            "Paired floor: ${} = returned ${} + paired {} sh | BE gap: {}"@,
            seq![
                fixed_of(floor, 2),
                fixed_of(w.cash_returned, 2),
                fixed_of(paired, 4),
                painted(signed_fixed_of(gap, 2), sign_tone(gap, "yellow"@)),
            ],
        ),
        painted(RULE@, "dim"@),
    ]
}

pub(crate) fn push_position(lines: &mut Vec<String>, w: &WindowState)
    ensures
        texts(final(lines)@) == texts(old(lines)@) + position_lines(*w),
{
    let ghost before = texts(lines@);
    let mtm: Num = w.up_shares * w.prices.up.bid + w.down_shares * w.prices.down.bid;
    let value: Num = w.cash_returned + mtm;
    let pnl: Num = value - w.spent;
    push_line(
        lines,
        fill2(
            "Spent: ${} | Returned: ${}",
            fixed(w.spent, 2).as_str(),
            fixed(w.cash_returned, 2).as_str(),
        ),
    );
    push_line(
        lines,
        fill2(
            "Est. Val: ${} | PnL: {}",
            fixed(value, 2).as_str(),
            paint(profit(pnl).as_str(), tone_of_sign(pnl, "red")).as_str(),
        ),
    );
    push_line(
        lines,
        fill2(
            "UP shares: {} | DOWN shares: {}",
            paint(fixed(w.up_shares, 4).as_str(), "green").as_str(),
            paint(fixed(w.down_shares, 4).as_str(), "red").as_str(),
        ),
    );
    let paired: Num = w.up_shares.min(w.down_shares);
    let floor: Num = w.cash_returned + paired;
    let gap: Num = floor - w.spent;
    push_line(
        lines,
        fill4(
            "Paired floor: ${} = returned ${} + paired {} sh | BE gap: {}",
            fixed(floor, 2).as_str(),
            fixed(w.cash_returned, 2).as_str(),
            fixed(paired, 4).as_str(),
            paint(signed_fixed(gap, 2).as_str(), tone_of_sign(gap, "yellow")).as_str(),
        ),
    );
    push_line(lines, paint(RULE, "dim"));
    assert(texts(lines@) =~= before + position_lines(*w));
}

/// The tone of a kind of trade.
pub open spec fn trade_tone(kind: Seq<char>) -> Seq<char> {
    if kind == "BUY"@ || kind == "REDEEM"@ {
        "green"@
    } else if kind == "SELL"@ {
        "yellow"@
    } else if kind == "EXPIRED"@ {
        "red"@
    } else {
        "dim"@
    }
}

/// Two lines per trade.
pub open spec fn trade_lines(t: TradeRecord) -> Seq<Seq<char>> {
    seq![
        filled(
            "[{}] {} {} {} sh @ ${} = ${} | cash ${}"@,
            seq![
                painted(clock_of(moment_text(t.timestamp as int)), "dim"@),
                painted(t.trade_type@, trade_tone(t.trade_type@)),
                painted(
                    t.side@,
                    if t.side@ == "UP"@ {
                        "green"@
                    } else {
                        "red"@
                    },
                ),
                fixed_of(t.shares, 4),
                fixed_of(t.price, 2),
                fixed_of(t.usd_value, 2),
                fixed_of(t.available_cash_after, 2),
            ],
        ),
        filled("      {}"@, seq![painted(t.reason@, "dim"@)]),
    ]
}

fn push_trade(lines: &mut Vec<String>, t: &TradeRecord)
    ensures
        texts(final(lines)@) == texts(old(lines)@) + trade_lines(*t),
{
    let ghost before = texts(lines@);
    proof {
        reveal_strlit("BUY");
        reveal_strlit("SELL");
        reveal_strlit("REDEEM");
        reveal_strlit("EXPIRED");
        assert("BUY"@.len() == 3 && "SELL"@.len() == 4 && "REDEEM"@.len() == 6 && "EXPIRED"@.len()
            == 7);
    }
    let kind: &str = t.trade_type.as_str();
    let tone: &'static str = if same_text(kind, "BUY") {
        "green"
    } else if same_text(kind, "SELL") {
        "yellow"
    } else if same_text(kind, "REDEEM") {
        "green"
    } else if same_text(kind, "EXPIRED") {
        "red"
    } else {
        "dim"
    };
    let side_tone: &'static str = if same_text(t.side.as_str(), "UP") {
        "green"
    } else {
        "red"
    };
    let when: String = paint(format_timestamp(t.timestamp).as_str(), "dim");
    let what: String = paint(kind, tone);
    let side: String = paint(t.side.as_str(), side_tone);
    let shares: String = fixed(t.shares, 4);
    let price: String = fixed(t.price, 2);
    let usd: String = fixed(t.usd_value, 2);
    let cash: String = fixed(t.available_cash_after, 2);
    let values: [&str; 7] = [
        when.as_str(),
        what.as_str(),
        side.as_str(),
        shares.as_str(),
        price.as_str(),
        usd.as_str(),
        cash.as_str(),
    ];
    assert(crate::text::views(values@) =~= seq![
        when@,
        what@,
        side@,
        shares@,
        price@,
        usd@,
        cash@,
    ]);
    push_line(lines, crate::text::fill("[{}] {} {} {} sh @ ${} = ${} | cash ${}", &values));
    push_line(lines, fill1("      {}", paint(t.reason.as_str(), "dim").as_str()));
    assert(texts(lines@) =~= before + trade_lines(*t));
}

/// The lines of trades, one after the other.
pub open spec fn trades_lines(trades: Seq<TradeRecord>) -> Seq<Seq<char>>
    decreases trades.len(),
{
    if trades.len() == 0 {
        Seq::<Seq<char>>::empty()
    } else {
        trades_lines(trades.drop_last()) + trade_lines(trades.last())
    }
}

/// The last ten trades.
pub open spec fn trade_log_lines(trades: Seq<TradeRecord>) -> Seq<Seq<char>> {
    seq![painted("TRADES LOG:"@, "dim"@)] + trades_lines(
        if trades.len() <= 10 {
            trades
        } else {
            trades.skip(trades.len() - 10)
        },
    )
}

pub(crate) fn push_trade_log(lines: &mut Vec<String>, trades: &Vec<TradeRecord>)
    ensures
        texts(final(lines)@) == texts(old(lines)@) + trade_log_lines(trades@),
{
    let ghost before = texts(lines@);
    push_line(lines, paint("TRADES LOG:", "dim"));
    let ghost head = seq![painted("TRADES LOG:"@, "dim"@)];
    let start: usize = if trades.len() <= 10 {
        0
    } else {
        trades.len() - 10
    };
    let ghost last = trades@.skip(start as int);
    proof {
        assert(start == 0 ==> last =~= trades@);
        assert(last.take(0) =~= Seq::<TradeRecord>::empty());
        assert(texts(lines@) =~= before + head + trades_lines(last.take(0)));
    }
    let mut i: usize = start;
    while i < trades.len()
        invariant
            start <= i <= trades.len(),
            last == trades@.skip(start as int),
            texts(lines@) == before + head + trades_lines(last.take(i - start)),
        decreases trades.len() - i,
    {
        let ghost now = last.take(i - start + 1);
        assert(now.drop_last() =~= last.take(i - start));
        assert(now.last() == trades@[i as int]);
        push_trade(lines, &trades[i]);
        assert(texts(lines@) =~= before + head + trades_lines(now));
        i = i + 1;
    }
    assert(last.take(i - start) =~= last);
    assert(texts(lines@) =~= before + trade_log_lines(trades@));
}

} // verus!
