//! Which side the book leads, and how often the lead changed hands.
use crate::client::{MarketWindow, PricesState};
use crate::num::Num;
use crate::num_ops::{lemma_ratio_nonneg, lemma_uint_is_ratio};
use crate::strategy::SpotSignalSnapshot;
use crate::time::{rfc3339_millis, rfc3339_millis_of};
use std::collections::HashMap;
use vstd::prelude::*;
use vstd::std_specs::hash::*;

verus! {

pub open spec fn spec_mid_cross_arm_time_pct() -> Num {
    Num::uint(8)
}

/// Percent of the window after which tracking starts.
#[verifier::when_used_as_spec(spec_mid_cross_arm_time_pct)]
pub fn mid_cross_arm_time_pct() -> (r: Num)
    ensures
        r == spec_mid_cross_arm_time_pct(),
{
    Num::uint(8)
}

pub open spec fn spec_mid_cross_significant_gap() -> Num {
    Num::ratio(20, 100)
}

/// Lead from which losing it counts as a significant cross.
#[verifier::when_used_as_spec(spec_mid_cross_significant_gap)]
pub fn mid_cross_significant_gap() -> (r: Num)
    ensures
        r == spec_mid_cross_significant_gap(),
{
    Num::ratio(20, 100)
}

pub open spec fn spec_mid_cross_min_flip_gap() -> Num {
    Num::ratio(1, 100)
}

/// Gap below which neither side leads.
#[verifier::when_used_as_spec(spec_mid_cross_min_flip_gap)]
pub fn mid_cross_min_flip_gap() -> (r: Num)
    ensures
        r == spec_mid_cross_min_flip_gap(),
{
    Num::ratio(1, 100)
}

#[derive(Debug, Clone, Copy, PartialEq, Eq, Structural)]
pub enum LeadSide {
    Up,
    Down,
    Tie,
}

impl LeadSide {
    pub open spec fn name(self) -> Seq<char> {
        match self {
            LeadSide::Up => "UP"@,
            LeadSide::Down => "DOWN"@,
            LeadSide::Tie => "TIE"@,
        }
    }

    pub fn as_str(self) -> (r: &'static str)
        ensures
            r@ == self.name(),
    {
        match self {
            LeadSide::Up => "UP",
            LeadSide::Down => "DOWN",
            LeadSide::Tie => "TIE",
        }
    }

    pub open spec fn spec_from_mids(up_mid: Num, down_mid: Num) -> LeadSide {
        if (up_mid - down_mid).abs().lt(mid_cross_min_flip_gap()) {
            LeadSide::Tie
        } else if up_mid.gt(down_mid) {
            LeadSide::Up
        } else {
            LeadSide::Down
        }
    }

    /// The side with the higher midpoint, a tie within the flip gap.
    #[verifier::when_used_as_spec(spec_from_mids)]
    pub fn from_mids(up_mid: Num, down_mid: Num) -> (r: LeadSide)
        ensures
            r == LeadSide::spec_from_mids(up_mid, down_mid),
    {
        let gap: Num = (up_mid - down_mid).abs();
        if gap.lt(mid_cross_min_flip_gap()) {
            LeadSide::Tie
        } else if up_mid.gt(down_mid) {
            LeadSide::Up
        } else {
            LeadSide::Down
        }
    }
}

#[derive(Debug, Clone, Copy)]
pub struct MidCrossEvent {
    pub event: &'static str,
    pub from_side: Option<LeadSide>,
    pub to_side: LeadSide,
    pub up_mid: Num,
    pub down_mid: Num,
    pub lead_gap: Num,
    pub peak_prev_gap: Num,
    pub is_significant: bool,
    pub cross_count: u32,
    pub significant_cross_count: u32,
    pub time_pct: Num,
    pub secs_to_end: i64,
    pub current_atr: Num,
}

#[derive(Debug, Clone, Copy)]
pub struct MidCrossSnapshot {
    pub armed: bool,
    pub current_side: Option<LeadSide>,
    pub lead_gap: Num,
    pub up_mid: Num,
    pub down_mid: Num,
    pub cross_count: u32,
    pub significant_cross_count: u32,
    pub peak_lead_gap: Num,
    pub last_cross_from: Option<LeadSide>,
    pub last_cross_to: Option<LeadSide>,
    pub last_cross_time_pct: Option<Num>,
    pub last_cross_is_significant: bool,
    pub last_cross_atr: Num,
}

impl MidCrossSnapshot {
    pub open spec fn blank() -> MidCrossSnapshot {
        MidCrossSnapshot {
            armed: false,
            current_side: None,
            lead_gap: Num::zero(),
            up_mid: Num::zero(),
            down_mid: Num::zero(),
            cross_count: 0,
            significant_cross_count: 0,
            peak_lead_gap: Num::zero(),
            last_cross_from: None,
            last_cross_to: None,
            last_cross_time_pct: None,
            last_cross_is_significant: false,
            last_cross_atr: Num::zero(),
        }
    }
}

impl Default for MidCrossSnapshot {
    fn default() -> (r: Self)
        ensures
            r == MidCrossSnapshot::blank(),
    {
        MidCrossSnapshot {
            armed: false,
            current_side: None,
            lead_gap: Num::zero(),
            up_mid: Num::zero(),
            down_mid: Num::zero(),
            cross_count: 0,
            significant_cross_count: 0,
            peak_lead_gap: Num::zero(),
            last_cross_from: None,
            last_cross_to: None,
            last_cross_time_pct: None,
            last_cross_is_significant: false,
            last_cross_atr: Num::zero(),
        }
    }
}

#[derive(Debug, Clone, Copy)]
pub struct MidCrossWindowSummary {
    pub cross_count: u32,
    pub significant_cross_count: u32,
    pub final_side: Option<LeadSide>,
    pub last_cross_atr: Num,
}

impl MidCrossWindowSummary {
    pub open spec fn blank() -> MidCrossWindowSummary {
        MidCrossWindowSummary {
            cross_count: 0,
            significant_cross_count: 0,
            final_side: None,
            last_cross_atr: Num::zero(),
        }
    }
}

impl Default for MidCrossWindowSummary {
    fn default() -> (r: Self)
        ensures
            r == MidCrossWindowSummary::blank(),
    {
        MidCrossWindowSummary {
            cross_count: 0,
            significant_cross_count: 0,
            final_side: None,
            last_cross_atr: Num::zero(),
        }
    }
}

/// What is tracked of one window.
#[derive(Debug, Clone, Copy)]
pub struct MidCrossWindowState {
    pub armed: bool,
    pub current_side: Option<LeadSide>,
    pub cross_count: u32,
    pub significant_cross_count: u32,
    pub peak_lead_gap: Num,
    pub up_mid: Num,
    pub down_mid: Num,
    pub last_cross_from: Option<LeadSide>,
    pub last_cross_to: Option<LeadSide>,
    pub last_cross_time_pct: Option<Num>,
    pub last_cross_is_significant: bool,
    pub last_cross_atr: Num,
}

impl MidCrossWindowState {
    pub open spec fn blank() -> MidCrossWindowState {
        MidCrossWindowState {
            armed: false,
            current_side: None,
            cross_count: 0,
            significant_cross_count: 0,
            peak_lead_gap: Num::zero(),
            up_mid: Num::zero(),
            down_mid: Num::zero(),
            last_cross_from: None,
            last_cross_to: None,
            last_cross_time_pct: None,
            last_cross_is_significant: false,
            last_cross_atr: Num::zero(),
        }
    }

    /// No more significant crosses than crosses, and a leading side is no tie.
    pub open spec fn valid(self) -> bool {
        &&& self.significant_cross_count <= self.cross_count
        &&& self.current_side != Some(LeadSide::Tie)
        &&& !self.armed ==> self == MidCrossWindowState::blank()
    }

    pub open spec fn to_snapshot(self) -> MidCrossSnapshot {
        MidCrossSnapshot {
            armed: self.armed,
            current_side: self.current_side,
            lead_gap: (self.up_mid - self.down_mid).abs(),
            up_mid: self.up_mid,
            down_mid: self.down_mid,
            cross_count: self.cross_count,
            significant_cross_count: self.significant_cross_count,
            peak_lead_gap: self.peak_lead_gap,
            last_cross_from: self.last_cross_from,
            last_cross_to: self.last_cross_to,
            last_cross_time_pct: self.last_cross_time_pct,
            last_cross_is_significant: self.last_cross_is_significant,
            last_cross_atr: self.last_cross_atr,
        }
    }

    pub open spec fn to_summary(self) -> MidCrossWindowSummary {
        MidCrossWindowSummary {
            cross_count: self.cross_count,
            significant_cross_count: self.significant_cross_count,
            final_side: self.current_side,
            last_cross_atr: self.last_cross_atr,
        }
    }
}

impl Default for MidCrossWindowState {
    fn default() -> (r: Self)
        ensures
            r == MidCrossWindowState::blank(),
    {
        MidCrossWindowState {
            armed: false,
            current_side: None,
            cross_count: 0,
            significant_cross_count: 0,
            peak_lead_gap: Num::zero(),
            up_mid: Num::zero(),
            down_mid: Num::zero(),
            last_cross_from: None,
            last_cross_to: None,
            last_cross_time_pct: None,
            last_cross_is_significant: false,
            last_cross_atr: Num::zero(),
        }
    }
}

pub open spec fn spec_midpoint(bid: Num, ask: Num) -> Num {
    (bid + ask) / Num::uint(2)
}

#[verifier::when_used_as_spec(spec_midpoint)]
pub fn midpoint(bid: Num, ask: Num) -> (r: Num)
    ensures
        r == spec_midpoint(bid, ask),
{
    (bid + ask) / Num::uint(2)
}

pub open spec fn mid_of(up: bool, prices: PricesState) -> Num {
    if up {
        midpoint(prices.up.bid, prices.up.ask)
    } else {
        midpoint(prices.down.bid, prices.down.ask)
    }
}

/// The midpoint of the UP contract, or of the DOWN contract.
pub fn side_mid(up: bool, prices: &PricesState) -> (r: Num)
    ensures
        r == mid_of(up, *prices),
{
    if up {
        midpoint(prices.up.bid, prices.up.ask)
    } else {
        midpoint(prices.down.bid, prices.down.ask)
    }
}

pub open spec fn spec_span_sec(start_ms: Option<i64>, end_ms: Option<i64>) -> Num {
    match (start_ms, end_ms) {
        (Some(s), Some(e)) => (Num::whole((e - s) as i64) / Num::uint(1000)).max(Num::one()),
        _ => Num::uint(900),
    }
}

/// Seconds between two moments, at least one; 900 where either is unknown.
pub fn span_sec(start_ms: Option<i64>, end_ms: Option<i64>) -> (r: Num)
    requires
        start_ms is Some && end_ms is Some ==> i64::MIN <= end_ms->0 - start_ms->0 <= i64::MAX,
    ensures
        r == spec_span_sec(start_ms, end_ms),
{
    match (start_ms, end_ms) {
        (Some(s), Some(e)) => (Num::whole(e - s) / Num::uint(1000)).max(Num::one()),
        _ => Num::uint(900),
    }
}

/// The length of a window in seconds, by its start and end times.
pub open spec fn market_span(market: MarketWindow) -> Num {
    spec_span_sec(rfc3339_millis_of(market.start_time@), rfc3339_millis_of(market.end_time@))
}

pub fn market_duration_sec(market: &MarketWindow) -> (r: Num)
    ensures
        r == market_span(*market),
{
    let start: Option<i64> = rfc3339_millis(market.start_time.as_str());
    let end: Option<i64> = rfc3339_millis(market.end_time.as_str());
    span_sec(start, end)
}

/// Elapsed share of a window of the given length, in percent.
pub open spec fn spec_elapsed_pct(duration: Num, secs_to_end: i64) -> Num {
    (duration - Num::whole(secs_to_end)).clamp(Num::zero(), duration) / duration * Num::uint(100)
}

/// Elapsed share of a window of the given length, in percent.
#[verifier::when_used_as_spec(spec_elapsed_pct)]
pub fn elapsed_pct(duration: Num, secs_to_end: i64) -> (r: Num)
    requires
        duration.ge(Num::zero()),
    ensures
        r == spec_elapsed_pct(duration, secs_to_end),
{
    let elapsed: Num = (duration - Num::whole(secs_to_end)).clamp(Num::zero(), duration);
    elapsed / duration * Num::uint(100)
}

proof fn lemma_span_nonneg(start_ms: Option<i64>, end_ms: Option<i64>)
    ensures
        spec_span_sec(start_ms, end_ms).ge(Num::zero()),
{
    lemma_uint_is_ratio(900);
    lemma_ratio_nonneg(900, 1);
}

pub fn time_pct_for(market: &MarketWindow, secs_to_end: i64) -> (r: Num)
    ensures
        r == elapsed_pct(market_span(*market), secs_to_end),
{
    proof {
        lemma_span_nonneg(
            rfc3339_millis_of(market.start_time@),
            rfc3339_millis_of(market.end_time@),
        );
    }
    let duration_sec: Num = market_duration_sec(market);
    elapsed_pct(duration_sec, secs_to_end)
}

impl MidCrossWindowState {
    /// Whether a tick with these midpoints turns an existing lead around.
    pub open spec fn crosses(self, up_mid: Num, down_mid: Num) -> bool {
        let seen = LeadSide::from_mids(up_mid, down_mid);
        self.armed && seen != LeadSide::Tie && self.current_side is Some && self.current_side != Some(
            seen,
        )
    }

    /// The window after one tick past the arming time.
    pub open spec fn after(self, up_mid: Num, down_mid: Num, time_pct: Num, atr: Num) -> MidCrossWindowState {
        let seen = LeadSide::from_mids(up_mid, down_mid);
        let gap = (up_mid - down_mid).abs();
        let s = MidCrossWindowState { up_mid, down_mid, ..self };
        if !self.armed {
            MidCrossWindowState {
                armed: true,
                current_side: if seen == LeadSide::Tie {
                    None
                } else {
                    Some(seen)
                },
                peak_lead_gap: if seen == LeadSide::Tie {
                    Num::zero()
                } else {
                    gap
                },
                last_cross_atr: atr,
                ..s
            }
        } else if seen == LeadSide::Tie {
            s
        } else if self.current_side is None {
            MidCrossWindowState { current_side: Some(seen), peak_lead_gap: gap, ..s }
        } else if self.current_side == Some(seen) {
            MidCrossWindowState { peak_lead_gap: self.peak_lead_gap.max(gap), ..s }
        } else {
            let big = self.peak_lead_gap.ge(mid_cross_significant_gap());
            MidCrossWindowState {
                current_side: Some(seen),
                cross_count: (self.cross_count + 1) as u32,
                significant_cross_count: if big {
                    (self.significant_cross_count + 1) as u32
                } else {
                    self.significant_cross_count
                },
                peak_lead_gap: gap,
                last_cross_from: self.current_side,
                last_cross_to: Some(seen),
                last_cross_time_pct: Some(time_pct),
                last_cross_is_significant: big,
                last_cross_atr: atr,
                ..s
            }
        }
    }
}

/// Whether `e` reports what the tick did to the window: its arming, or a cross.
pub open spec fn reports(
    e: Option<MidCrossEvent>,
    s: MidCrossWindowState,
    up_mid: Num,
    down_mid: Num,
    time_pct: Num,
    secs_to_end: i64,
    atr: Num,
) -> bool {
    let t = s.after(up_mid, down_mid, time_pct, atr);
    match e {
        None => s.armed && !s.crosses(up_mid, down_mid),
        Some(ev) => {
            &&& !s.armed || s.crosses(up_mid, down_mid)
            &&& ev.event@ == if s.armed {
                "mid_cross"@
            } else {
                "armed_init"@
            }
            &&& ev.from_side == if s.armed {
                s.current_side
            } else {
                None
            }
            &&& ev.to_side == LeadSide::from_mids(up_mid, down_mid)
            &&& ev.up_mid == up_mid
            &&& ev.down_mid == down_mid
            &&& ev.lead_gap == (up_mid - down_mid).abs()
            &&& ev.peak_prev_gap == if s.armed {
                s.peak_lead_gap
            } else {
                Num::zero()
            }
            &&& ev.is_significant == (s.armed && t.last_cross_is_significant)
            &&& ev.cross_count == t.cross_count
            &&& ev.significant_cross_count == t.significant_cross_count
            &&& ev.time_pct == time_pct
            &&& ev.secs_to_end == secs_to_end
            &&& ev.current_atr == atr
        },
    }
}

#[derive(Debug, Clone)]
pub struct MidCrossTracker {
    pub windows: HashMap<usize, MidCrossWindowState>,
}

impl View for MidCrossTracker {
    type V = Map<usize, MidCrossWindowState>;

    open spec fn view(&self) -> Map<usize, MidCrossWindowState> {
        self.windows@
    }
}

impl MidCrossTracker {
    /// What is tracked of a window; blank before its first tick.
    pub open spec fn window(self, n: usize) -> MidCrossWindowState {
        if self@.contains_key(n) {
            self@[n]
        } else {
            MidCrossWindowState::blank()
        }
    }

    pub open spec fn valid(self) -> bool {
        forall|n: usize| self@.contains_key(n) ==> (#[trigger] self@[n]).valid()
    }

    /// What a snapshot of a window shows.
    pub open spec fn shown(self, n: usize) -> MidCrossSnapshot {
        if self@.contains_key(n) {
            self@[n].to_snapshot()
        } else {
            MidCrossSnapshot::blank()
        }
    }

    /// Whether a tick of a window leads to `t` and reports `r`: before the arming time
    /// nothing happens, from then on the window takes the tick.
    pub open spec fn ticks(
        self,
        t: MidCrossTracker,
        r: Option<MidCrossEvent>,
        n: usize,
        up_mid: Num,
        down_mid: Num,
        time_pct: Num,
        secs_to_end: i64,
        atr: Num,
    ) -> bool {
        if time_pct.lt(mid_cross_arm_time_pct()) {
            r is None && t@ == self@
        } else {
            let s = self.window(n);
            &&& t@ == self@.insert(n, s.after(up_mid, down_mid, time_pct, atr))
            &&& reports(r, s, up_mid, down_mid, time_pct, secs_to_end, atr)
        }
    }

    pub fn new() -> (r: Self)
        ensures
            r@ == Map::<usize, MidCrossWindowState>::empty(),
            r.valid(),
    {
        broadcast use group_hash_axioms;

        MidCrossTracker { windows: HashMap::new() }
    }

    pub fn observe_tick(
        &mut self,
        window_number: usize,
        market: &MarketWindow,
        prices: &PricesState,
        secs_to_end: i64,
        current_atr: Num,
        _spot_price: Option<Num>,
        _spot_signal: SpotSignalSnapshot,
        _timestamp_ms: i64,
    ) -> (r: Option<MidCrossEvent>)
        requires
            old(self).valid(),
            old(self).window(window_number).cross_count < u32::MAX,
        ensures
            final(self).valid(),
            old(self).ticks(
                *final(self),
                r,
                window_number,
                mid_of(true, *prices),
                mid_of(false, *prices),
                elapsed_pct(market_span(*market), secs_to_end),
                secs_to_end,
                current_atr,
            ),
    {
        let time_pct: Num = time_pct_for(market, secs_to_end);
        self.observe_mids(
            window_number,
            side_mid(true, prices),
            side_mid(false, prices),
            time_pct,
            secs_to_end,
            current_atr,
        )
    }

    /// One tick of a window, given the elapsed share and the two midpoints.
    pub fn observe_mids(
        &mut self,
        window_number: usize,
        up_mid: Num,
        down_mid: Num,
        time_pct: Num,
        secs_to_end: i64,
        current_atr: Num,
    ) -> (r: Option<MidCrossEvent>)
        requires
            old(self).valid(),
            old(self).window(window_number).cross_count < u32::MAX,
        ensures
            final(self).valid(),
            old(self).ticks(
                *final(self),
                r,
                window_number,
                up_mid,
                down_mid,
                time_pct,
                secs_to_end,
                current_atr,
            ),
    {
        broadcast use group_hash_axioms;

        if time_pct.lt(mid_cross_arm_time_pct()) {
            return None;
        }
        let lead_gap: Num = (up_mid - down_mid).abs();
        let observed_side: LeadSide = LeadSide::from_mids(up_mid, down_mid);
        let mut state: MidCrossWindowState = match self.windows.get(&window_number) {
            Some(s) => *s,
            None => MidCrossWindowState::default(),
        };
        let ghost s = state;
        assert(s == old(self).window(window_number));
        state.up_mid = up_mid;
        state.down_mid = down_mid;
        let mut event: Option<MidCrossEvent> = None;
        if !state.armed {
            state.armed = true;
            state.current_side =
            if observed_side == LeadSide::Tie {
                None
            } else {
                Some(observed_side)
            };
            state.peak_lead_gap =
            if observed_side == LeadSide::Tie {
                Num::zero()
            } else {
                lead_gap
            };
            state.last_cross_atr = current_atr;
            event =
            Some(
                MidCrossEvent {
                    event: "armed_init",
                    from_side: None,
                    to_side: observed_side,
                    up_mid,
                    down_mid,
                    lead_gap,
                    peak_prev_gap: Num::zero(),
                    is_significant: false,
                    cross_count: 0,
                    significant_cross_count: 0,
                    time_pct,
                    secs_to_end,
                    current_atr,
                },
            );
        } else if observed_side != LeadSide::Tie {
            match state.current_side {
                None => {
                    state.current_side = Some(observed_side);
                    state.peak_lead_gap = lead_gap;
                },
                Some(current) => {
                    if current == observed_side {
                        state.peak_lead_gap = state.peak_lead_gap.max(lead_gap);
                    } else {
                        let peak_prev_gap: Num = state.peak_lead_gap;
                        let is_significant: bool = peak_prev_gap.ge(mid_cross_significant_gap());
                        state.cross_count = state.cross_count + 1;
                        if is_significant {
                            state.significant_cross_count = state.significant_cross_count + 1;
                        }
                        state.current_side = Some(observed_side);
                        state.peak_lead_gap = lead_gap;
                        state.last_cross_from = Some(current);
                        state.last_cross_to = Some(observed_side);
                        state.last_cross_time_pct = Some(time_pct);
                        state.last_cross_is_significant = is_significant;
                        state.last_cross_atr = current_atr;
                        event =
                        Some(
                            MidCrossEvent {
                                event: "mid_cross",
                                from_side: Some(current),
                                to_side: observed_side,
                                up_mid,
                                down_mid,
                                lead_gap,
                                peak_prev_gap,
                                is_significant,
                                cross_count: state.cross_count,
                                significant_cross_count: state.significant_cross_count,
                                time_pct,
                                secs_to_end,
                                current_atr,
                            },
                        );
                    }
                },
            }
        }
        assert(s.valid());
        assert(state == s.after(up_mid, down_mid, time_pct, current_atr));
        self.windows.insert(window_number, state);
        event
    }

    pub fn snapshot(&self, window_number: usize) -> (r: MidCrossSnapshot)
        ensures
            r == self.shown(window_number),
    {
        broadcast use group_hash_axioms;

        match self.windows.get(&window_number) {
            Some(state) => MidCrossSnapshot {
                armed: state.armed,
                current_side: state.current_side,
                lead_gap: (state.up_mid - state.down_mid).abs(),
                up_mid: state.up_mid,
                down_mid: state.down_mid,
                cross_count: state.cross_count,
                significant_cross_count: state.significant_cross_count,
                peak_lead_gap: state.peak_lead_gap,
                last_cross_from: state.last_cross_from,
                last_cross_to: state.last_cross_to,
                last_cross_time_pct: state.last_cross_time_pct,
                last_cross_is_significant: state.last_cross_is_significant,
                last_cross_atr: state.last_cross_atr,
            },
            None => MidCrossSnapshot::default(),
        }
    }

    pub fn finalize_window(&self, window_number: usize) -> (r: MidCrossWindowSummary)
        ensures
            r == if self@.contains_key(window_number) {
                self@[window_number].to_summary()
            } else {
                MidCrossWindowSummary::blank()
            },
    {
        broadcast use group_hash_axioms;

        match self.windows.get(&window_number) {
            Some(state) => MidCrossWindowSummary {
                cross_count: state.cross_count,
                significant_cross_count: state.significant_cross_count,
                final_side: state.current_side,
                last_cross_atr: state.last_cross_atr,
            },
            None => MidCrossWindowSummary::default(),
        }
    }

    pub fn remove_window(&mut self, window_number: usize)
        requires
            old(self).valid(),
        ensures
            final(self)@ == old(self)@.remove(window_number),
            final(self).valid(),
    {
        broadcast use group_hash_axioms;

        self.windows.remove(&window_number);
        assert forall|n: usize| self@.contains_key(n) implies (#[trigger] self@[n]).valid() by {
            assert(old(self)@.contains_key(n) && old(self)@[n].valid());
        }
    }
}

impl Default for MidCrossTracker {
    fn default() -> (r: Self)
        ensures
            r@ == Map::<usize, MidCrossWindowState>::empty(),
            r.valid(),
    {
        MidCrossTracker::new()
    }
}

/// Before the arming time a tick reports nothing and every window shows what it showed.
pub proof fn law_early_tick_changes_nothing(
    a: MidCrossTracker,
    b: MidCrossTracker,
    r: Option<MidCrossEvent>,
    n: usize,
    up_mid: Num,
    down_mid: Num,
    time_pct: Num,
    secs_to_end: i64,
    atr: Num,
)
    requires
        time_pct.lt(mid_cross_arm_time_pct()),
        a.ticks(b, r, n, up_mid, down_mid, time_pct, secs_to_end, atr),
    ensures
        r is None,
        forall|v: usize| b.shown(v) == a.shown(v),
{
}

/// A tick of one window leaves what the others show.
pub proof fn law_tick_touches_one_window(
    a: MidCrossTracker,
    b: MidCrossTracker,
    r: Option<MidCrossEvent>,
    n: usize,
    up_mid: Num,
    down_mid: Num,
    time_pct: Num,
    secs_to_end: i64,
    atr: Num,
    other: usize,
)
    requires
        other != n,
        a.ticks(b, r, n, up_mid, down_mid, time_pct, secs_to_end, atr),
    ensures
        b.shown(other) == a.shown(other),
{
}

/// The midpoints, the moment in the window and the volatility decide a tick, and nothing
/// else: trackers that hold the same windows hold the same after it and report the same,
/// whatever the spot price, its signal and the clock are.
pub proof fn law_only_the_book_decides(
    a: MidCrossTracker,
    b: MidCrossTracker,
    r: Option<MidCrossEvent>,
    a2: MidCrossTracker,
    b2: MidCrossTracker,
    r2: Option<MidCrossEvent>,
    n: usize,
    up_mid: Num,
    down_mid: Num,
    time_pct: Num,
    secs_to_end: i64,
    atr: Num,
)
    requires
        a@ == a2@,
        a.ticks(b, r, n, up_mid, down_mid, time_pct, secs_to_end, atr),
        a2.ticks(b2, r2, n, up_mid, down_mid, time_pct, secs_to_end, atr),
    ensures
        b@ == b2@,
        match (r, r2) {
            (Some(e), Some(e2)) => e.event@ == e2.event@ && e == (MidCrossEvent {
                event: e.event,
                ..e2
            }),
            (None, None) => true,
            _ => false,
        },
{
}

/// The cross counts of a window never fall, and the significant ones never outrun the
/// crosses.
pub proof fn law_counts_only_grow(
    s: MidCrossWindowState,
    up_mid: Num,
    down_mid: Num,
    time_pct: Num,
    atr: Num,
)
    requires
        s.valid(),
        s.cross_count < u32::MAX,
    ensures
        ({
            let t = s.after(up_mid, down_mid, time_pct, atr);
            &&& t.valid()
            &&& t.armed
            &&& t.cross_count >= s.cross_count
            &&& t.significant_cross_count >= s.significant_cross_count
            &&& t.significant_cross_count <= t.cross_count
            &&& t.cross_count == s.cross_count + (if s.crosses(up_mid, down_mid) {
                1int
            } else {
                0int
            })
        }),
{
}

/// A tie leaves the leading side of an armed window as it was.
pub proof fn law_tie_keeps_side(
    s: MidCrossWindowState,
    up_mid: Num,
    down_mid: Num,
    time_pct: Num,
    atr: Num,
)
    requires
        s.armed,
        LeadSide::from_mids(up_mid, down_mid) == LeadSide::Tie,
    ensures
        ({
            let t = s.after(up_mid, down_mid, time_pct, atr);
            &&& t.current_side == s.current_side
            &&& t.cross_count == s.cross_count
            &&& t.peak_lead_gap == s.peak_lead_gap
        }),
{
}

/// A cross is significant exactly where the lost lead had reached the significant gap.
pub proof fn law_significant_by_peak(
    s: MidCrossWindowState,
    up_mid: Num,
    down_mid: Num,
    time_pct: Num,
    atr: Num,
)
    requires
        s.valid(),
        s.cross_count < u32::MAX,
        s.crosses(up_mid, down_mid),
    ensures
        ({
            let t = s.after(up_mid, down_mid, time_pct, atr);
            &&& t.last_cross_is_significant == s.peak_lead_gap.ge(mid_cross_significant_gap())
            &&& t.significant_cross_count == s.significant_cross_count + (if s.peak_lead_gap.ge(
                mid_cross_significant_gap(),
            ) {
                1int
            } else {
                0int
            })
            &&& t.last_cross_from == s.current_side
            &&& t.last_cross_to == t.current_side
        }),
{
}

} // verus!
