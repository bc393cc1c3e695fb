//! The endgame strategy over the ticks of its windows: what it orders, and what an order
//! that was carried out is booked as.
use crate::cex_micro::CexMicroSnapshot;
use crate::client::{MarketWindow, PricesState};
use crate::config::Config;
use crate::j_controller::{enter_bar_valid, plan_j_tick, tick_plan, window_bar_consulted};
use crate::mid_cross_tracker::{elapsed_pct, market_span, time_pct_for, MidCrossSnapshot};
use crate::num::Num;
use crate::render_strategy::StrategyPanel;
use crate::strategy::{OrderSignal, OrderType, SpotSignalSnapshot, StrategyState, TradeTapeSnapshot};
use crate::strategy_j::{
    ask_of, buy_due, directional_entry_allowed, flip_hedge_triggered, flip_triggered, gap_z, is_plan,
    leader, order_reason, side_ask, tape_hot, tier_name, winner_side, EndgameTier,
    JWindowState, Plan, TierPlan,
};
use crate::text::{filled, lowercase, same_text, uppercase};
use crate::trade_tape::side_flow;
use crate::trader::WindowState;
use std::collections::HashMap;
use vstd::prelude::*;
use vstd::std_specs::hash::*;
use vstd::string::*;

verus! {

/// What the market shows at a tick of a running window.
pub struct StrategyTick<'a> {
    pub config: &'a Config,
    pub win_state: &'a WindowState,
    pub spot_price: Option<Num>,
    pub secs_to_end: i64,
    pub current_atr: Num,
    pub spot_signal: SpotSignalSnapshot,
    pub mid_cross: MidCrossSnapshot,
    pub cex: CexMicroSnapshot,
    pub tape: TradeTapeSnapshot,
    pub cash: Num,
    pub now_ms: i64,
}

impl<'a> StrategyTick<'a> {
    /// Elapsed percent of the window.
    pub open spec fn pct(self) -> Num {
        elapsed_pct(market_span(self.win_state.market), self.secs_to_end)
    }

    pub open spec fn min_atr(self) -> Num {
        if uppercase(self.win_state.market.asset@) == "ETH"@ {
            self.config.min_eth_atr
        } else {
            self.config.min_btc_atr
        }
    }

    /// The plan for what is deployed in the window; none without a spot and a price to
    /// beat.
    pub open spec fn plan(self, state: JWindowState) -> Option<Plan> {
        match (self.spot_price, self.win_state.market.price_to_beat) {
            (Some(spot), Some(ptb)) => tick_plan(
                *self.config,
                state,
                *self.win_state,
                self.win_state.prices,
                spot,
                ptb,
                self.secs_to_end,
                self.pct(),
                self.current_atr,
                self.min_atr(),
                self.spot_signal,
                self.mid_cross,
                self.cex,
                self.tape,
                self.cash,
            ),
            _ => None,
        }
    }

    /// Whether the plan looks at the entry bar.
    pub open spec fn bar_consulted(self, state: JWindowState) -> bool {
        match (self.spot_price, self.win_state.market.price_to_beat) {
            (Some(spot), Some(ptb)) => window_bar_consulted(
                *self.config,
                state,
                *self.win_state,
                self.win_state.prices,
                spot,
                ptb,
                self.secs_to_end,
                self.pct(),
                self.current_atr,
                self.mid_cross,
                directional_entry_allowed(&self.config.j_endgame, spot, ptb, &self.mid_cross),
                self.cash,
            ),
            _ => false,
        }
    }
}

fn plan_tick(tick: &StrategyTick, state: &JWindowState) -> (r: Option<TierPlan>)
    requires
        tick.bar_consulted(*state) ==> enter_bar_valid(tick.config.j_endgame),
    ensures
        is_plan(r, tick.plan(*state)),
{
    let market: &MarketWindow = &tick.win_state.market;
    match (tick.spot_price, market.price_to_beat) {
        (Some(spot), Some(ptb)) => plan_j_tick(
            tick.config,
            state,
            tick.win_state,
            &tick.win_state.prices,
            spot,
            ptb,
            tick.secs_to_end,
            time_pct_for(market, tick.secs_to_end),
            tick.current_atr,
            tick.config.min_atr_for(market.asset.as_str()),
            &tick.spot_signal,
            &tick.mid_cross,
            &tick.cex,
            &tick.tape,
            tick.cash,
        ),
        _ => None,
    }
}

/// The strategy in one window.
#[derive(Debug, Clone)]
pub struct EndgameWindow {
    pub deployed: JWindowState,
    /// The tier and the moment of the last order.
    pub planned: Option<(EndgameTier, i64)>,
    /// The moment of the last composite buy that was carried out.
    pub bought_ms: Option<i64>,
}

/// Whether an order is the one for a plan at these prices.
pub open spec fn orders(sig: OrderSignal, p: Plan, prices: PricesState) -> bool {
    &&& sig.is_buy
    &&& sig.side@ == p.side
    &&& sig.order_type == OrderType::Market
    &&& sig.amount == p.clip_usd
    &&& sig.price == ask_of(p.side, prices)
    &&& sig.reason@ == filled("j_{}_taker_{}"@, seq![tier_name(p.tier), lowercase(p.side)])
}

impl EndgameWindow {
    pub open spec fn fresh(self) -> bool {
        &&& self.deployed.primary_side is None
        &&& self.deployed == (JWindowState {
            primary_side: self.deployed.primary_side,
            clips_filled: 0,
            cheap_spent_usd: Num::zero(),
            late_spent_usd: Num::zero(),
            rescue_spent_usd: Num::zero(),
            hedge_spent_usd: Num::zero(),
            insurance_spent_usd: Num::zero(),
            insurance_clips: 0,
            discount_reload_spent_usd: Num::zero(),
            discount_reload_clips: 0,
        })
        &&& self.planned is None
        &&& self.bought_ms is None
    }

    pub fn new() -> (r: Self)
        ensures
            r.fresh(),
    {
        EndgameWindow { deployed: JWindowState::default(), planned: None, bought_ms: None }
    }

    /// Whether a composite buy waits: the last one is not long enough ago.
    pub open spec fn waits(self, tick: StrategyTick) -> bool {
        self.bought_ms matches Some(t) && tick.now_ms - t < tick.config.j_endgame.min_buy_interval_ms
    }

    /// The plan that becomes an order. Only composite buys keep the interval.
    pub open spec fn due(self, tick: StrategyTick) -> Option<Plan> {
        match tick.plan(self.deployed) {
            Some(p) => if p.tier == EndgameTier::FinalSeal && self.waits(tick) {
                None
            } else {
                Some(p)
            },
            None => None,
        }
    }

    /// The order at a tick, and the tier it was planned in.
    pub fn on_tick(&mut self, tick: &StrategyTick) -> (r: Option<OrderSignal>)
        requires
            tick.bar_consulted(old(self).deployed) ==> enter_bar_valid(tick.config.j_endgame),
        ensures
            match (r, old(self).due(*tick)) {
                (Some(sig), Some(p)) => {
                    &&& orders(sig, p, tick.win_state.prices)
                    &&& *final(self) == (EndgameWindow {
                        planned: Some((p.tier, tick.now_ms)),
                        ..*old(self)
                    })
                },
                (None, None) => *final(self) == *old(self),
                _ => false,
            },
    {
        let plan: TierPlan = match plan_tick(tick, &self.deployed) {
            Some(p) => p,
            None => {
                return None;
            },
        };
        let tier: EndgameTier = plan.tier;
        if tier == EndgameTier::FinalSeal && !buy_due(
            self.bought_ms,
            tick.now_ms,
            &tick.config.j_endgame,
        ) {
            return None;
        }
        let side: String = match plan.side {
            Some(s) => s,
            None => {
                return None;
            },
        };
        let reason: String = order_reason(tier, side.as_str());
        self.planned = Some((tier, tick.now_ms));
        Some(
            OrderSignal::buy(
                side.as_str(),
                OrderType::Market,
                plan.clip_usd,
                side_ask(side.as_str(), &tick.win_state.prices),
                reason.as_str(),
            ),
        )
    }

    /// Whether `t` is `self` after an order was carried out: it is booked in the tier that
    /// it was planned in, and a composite buy starts the interval.
    pub open spec fn booked(self, t: EndgameWindow, side: Seq<char>, usd: Num) -> bool {
        let tier = match self.planned {
            Some(p) => Some(p.0),
            None => None,
        };
        &&& self.deployed.filled_in(t.deployed, tier, side, usd)
        &&& t.planned == self.planned
        &&& t.bought_ms == match self.planned {
            Some(p) => if p.0 == EndgameTier::FinalSeal {
                Some(p.1)
            } else {
                self.bought_ms
            },
            None => self.bought_ms,
        }
    }

    pub fn on_executed(&mut self, sig: &OrderSignal)
        ensures
            old(self).booked(*final(self), sig.side@, sig.amount),
    {
        let tier: Option<EndgameTier> = match self.planned {
            Some((tier, at)) => {
                if tier == EndgameTier::FinalSeal {
                    self.bought_ms = Some(at);
                }
                Some(tier)
            },
            None => None,
        };
        self.deployed.note_fill(tier, sig.side.as_str(), sig.amount);
    }

    /// Whether the hedge against a broken thesis is armed.
    pub open spec fn hedge_armed(self, tick: StrategyTick) -> bool {
        match (tick.spot_price, tick.win_state.market.price_to_beat) {
            (Some(spot), Some(ptb)) => match (leader(spot, ptb), self.deployed.primary()) {
                (Some(winner), Some(primary)) => flip_triggered(
                    tick.config.j_endgame,
                    self.deployed,
                    primary,
                    winner,
                    gap_z(spot, ptb, tick.current_atr, tick.secs_to_end),
                    tick.mid_cross,
                ),
                _ => false,
            },
            _ => false,
        }
    }

    fn hedge_is_armed(&self, tick: &StrategyTick) -> (r: bool)
        ensures
            r == self.hedge_armed(*tick),
    {
        match (tick.spot_price, tick.win_state.market.price_to_beat) {
            (Some(spot), Some(ptb)) => match (winner_side(spot, ptb), &self.deployed.primary_side) {
                (Some(winner), Some(primary)) => flip_hedge_triggered(
                    &tick.config.j_endgame,
                    &self.deployed,
                    primary.as_str(),
                    winner,
                    spot,
                    ptb,
                    gap_z(spot, ptb, tick.current_atr, tick.secs_to_end),
                    &tick.mid_cross,
                ),
                _ => false,
            },
            _ => false,
        }
    }

    /// Whether a state shows the window's committed side and nothing of other strategies.
    pub open spec fn shows(self, s: StrategyState) -> bool {
        &&& !s.up_sold && !s.down_sold && s.first_sold_side is None
        &&& !s.ptb_crossed && s.ptb_baseline is None && s.e_conviction_side is None
        &&& s.e_tranches_done == 0 && s.e_grid_steps_done == 0
        &&& s.h_entry_done == (self.deployed.primary() is Some) && !s.h_salvage_done
        &&& match (s.h_entry_side, self.deployed.primary()) {
            (Some(a), Some(b)) => a@ == b,
            (None, None) => true,
            _ => false,
        }
    }

    fn strategy_state(&self) -> (r: StrategyState)
        ensures
            self.shows(r),
    {
        let side: Option<String> = match &self.deployed.primary_side {
            Some(s) => Some(s.as_str().to_owned()),
            None => None,
        };
        StrategyState {
            up_sold: false,
            down_sold: false,
            first_sold_side: None,
            ptb_crossed: false,
            ptb_baseline: None,
            e_conviction_side: None,
            e_tranches_done: 0,
            e_grid_steps_done: 0,
            h_entry_side: side,
            h_entry_done: self.deployed.primary_side.is_some(),
            h_salvage_done: false,
        }
    }
}

/// Whether the tape is hot on the side that the spot shows as the winner.
pub open spec fn winner_tape_hot(tick: StrategyTick) -> bool {
    match (tick.spot_price, tick.win_state.market.price_to_beat) {
        (Some(spot), Some(ptb)) => match leader(spot, ptb) {
            Some(winner) => {
                let (usd, buys) = side_flow(tick.tape, winner);
                usd.ge(tick.config.j_endgame.min_tape_usd) && buys
                    >= tick.config.j_endgame.min_tape_buys
            },
            None => false,
        },
        _ => false,
    }
}

/// Whether a directional position may be opened.
pub open spec fn directional_open(tick: StrategyTick) -> bool {
    match (tick.spot_price, tick.win_state.market.price_to_beat) {
        (Some(spot), Some(ptb)) => directional_entry_allowed(
            &tick.config.j_endgame,
            spot,
            ptb,
            &tick.mid_cross,
        ),
        _ => false,
    }
}

/// The endgame strategy: buys what the planner asks for and holds to redemption.
#[derive(Debug)]
pub struct Endgame {
    pub windows: HashMap<usize, EndgameWindow>,
}

impl View for Endgame {
    type V = Map<usize, EndgameWindow>;

    open spec fn view(&self) -> Map<usize, EndgameWindow> {
        self.windows@
    }
}

impl Endgame {
    pub fn new() -> (r: Self)
        ensures
            r@ == Map::<usize, EndgameWindow>::empty(),
    {
        broadcast use group_hash_axioms;

        Endgame { windows: HashMap::new() }
    }

    /// Whether `w` is the window of a number: what is kept of it, or a fresh one.
    pub open spec fn has_window(self, n: usize, w: EndgameWindow) -> bool {
        if self@.contains_key(n) {
            w == self@[n]
        } else {
            w.fresh()
        }
    }

    fn take(&mut self, n: usize) -> (r: EndgameWindow)
        ensures
            old(self).has_window(n, r),
            final(self)@ == old(self)@.remove(n),
    {
        broadcast use group_hash_axioms;

        match self.windows.remove(&n) {
            Some(w) => w,
            None => EndgameWindow::new(),
        }
    }

    /// The orders at a tick of a window: none or one.
    pub fn process_live_tick(&mut self, tick: &StrategyTick) -> (r: Vec<OrderSignal>)
        requires
            forall|w: EndgameWindow|
                #[trigger] old(self).has_window(tick.win_state.window_number, w)
                    && tick.bar_consulted(w.deployed) ==> enter_bar_valid(tick.config.j_endgame),
        ensures
            exists|w: EndgameWindow|
                {
                    &&& #[trigger] old(self).has_window(tick.win_state.window_number, w)
                    &&& match w.due(*tick) {
                        Some(p) => {
                            &&& r@.len() == 1
                            &&& orders(r@[0], p, tick.win_state.prices)
                            &&& final(self)@ == old(self)@.insert(
                                tick.win_state.window_number,
                                EndgameWindow { planned: Some((p.tier, tick.now_ms)), ..w },
                            )
                        },
                        None => r@.len() == 0 && final(self)@ == old(self)@,
                    }
                },
    {
        broadcast use group_hash_axioms;

        let n: usize = tick.win_state.window_number;
        let known: bool = self.windows.contains_key(&n);
        let mut w: EndgameWindow = self.take(n);
        let ghost before = w;
        assert(old(self).has_window(n, before));
        let mut out: Vec<OrderSignal> = Vec::new();
        match w.on_tick(tick) {
            Some(sig) => {
                out.push(sig);
                self.windows.insert(n, w);
                assert(self@ =~= old(self)@.insert(n, w));
            },
            None => {
                if known {
                    self.windows.insert(n, w);
                }
                assert(self@ =~= old(self)@);
            },
        }
        out
    }

    /// Books an order of a window that was carried out.
    pub fn notify_order_executed(&mut self, window_number: usize, sig: &OrderSignal)
        ensures
            exists|w: EndgameWindow, t: EndgameWindow|
                {
                    &&& #[trigger] old(self).has_window(window_number, w)
                    &&& #[trigger] w.booked(t, sig.side@, sig.amount)
                    &&& final(self)@ == old(self)@.insert(window_number, t)
                },
    {
        broadcast use group_hash_axioms;

        let mut w: EndgameWindow = self.take(window_number);
        let ghost before = w;
        w.on_executed(sig);
        self.windows.insert(window_number, w);
        proof {
            assert(old(self).has_window(window_number, before));
            assert(before.booked(w, sig.side@, sig.amount));
            assert(self@ =~= old(self)@.insert(window_number, w));
        }
    }

    /// What the strategy shows of a window that it took part in.
    pub fn get_strategy_state(&self, window_number: usize) -> (r: Option<StrategyState>)
        ensures
            match r {
                Some(s) => self@.contains_key(window_number) && self@[window_number].shows(s),
                None => !self@.contains_key(window_number),
            },
    {
        broadcast use group_hash_axioms;

        match self.windows.get(&window_number) {
            Some(w) => Some(w.strategy_state()),
            None => None,
        }
    }

    /// What the dashboard shows of the strategy at a tick.
    pub fn panel(&self, tick: &StrategyTick) -> (r: StrategyPanel)
        ensures
            ({
                let n = tick.win_state.window_number;
                &&& match r.state {
                    Some(s) => self@.contains_key(n) && self@[n].shows(s),
                    None => !self@.contains_key(n),
                }
                &&& r.j_directional_allowed == directional_open(*tick)
                &&& r.j_flip_hedge_armed == (self@.contains_key(n) && self@[n].hedge_armed(*tick))
                &&& r.j_tape_hot == winner_tape_hot(*tick)
                &&& r.h_phase@ == "flat"@
                &&& !r.h_cheap_side && !r.h_gap_allows
            }),
    {
        broadcast use group_hash_axioms;

        let n: usize = tick.win_state.window_number;
        let cfg = &tick.config.j_endgame;
        let mut out: StrategyPanel = idle_panel();
        out.state = self.get_strategy_state(n);
        out.j_flip_hedge_armed = match self.windows.get(&n) {
            Some(w) => w.hedge_is_armed(tick),
            None => false,
        };
        if let (Some(spot), Some(ptb)) = (tick.spot_price, tick.win_state.market.price_to_beat) {
            out.j_directional_allowed = directional_entry_allowed(cfg, spot, ptb, &tick.mid_cross);
            out.j_tape_hot = match winner_side(spot, ptb) {
                Some(winner) => tape_hot(&tick.tape, winner, cfg),
                None => false,
            };
        }
        out
    }
}

/// Whether the strategy of a configured name is this one.
pub fn runs_endgame(name: &str) -> (r: bool)
    ensures
        r == (name@ == "j_endgame"@),
{
    same_text(name, "j_endgame")
}

/// What the dashboard shows where no strategy runs.
pub fn idle_panel() -> (r: StrategyPanel)
    ensures
        r.state is None,
        !r.j_directional_allowed && !r.j_flip_hedge_armed && !r.j_tape_hot,
        r.h_phase@ == "flat"@,
        !r.h_cheap_side && !r.h_gap_allows,
{
    StrategyPanel {
        state: None,
        j_directional_allowed: false,
        j_flip_hedge_armed: false,
        j_tape_hot: false,
        h_phase: String::from_str("flat"),
        h_cheap_side: false,
        h_gap_allows: false,
    }
}

/// Two composite buys of a window lie at least the configured interval apart.
pub proof fn law_composite_buys_keep_their_distance(
    a: EndgameWindow,
    b: EndgameWindow,
    side: Seq<char>,
    usd: Num,
    tick: StrategyTick,
)
    requires
        a.planned matches Some(p) && p.0 == EndgameTier::FinalSeal,
        a.booked(b, side, usd),
        b.due(tick) matches Some(p) && p.tier == EndgameTier::FinalSeal,
    ensures
        tick.now_ms - (a.planned->0).1 >= tick.config.j_endgame.min_buy_interval_ms,
{
}

/// A hedge, insurance or a reload is not held up by a composite buy.
pub proof fn law_only_composite_buys_wait(w: EndgameWindow, tick: StrategyTick)
    requires
        tick.plan(w.deployed) matches Some(p) && p.tier != EndgameTier::FinalSeal,
    ensures
        w.due(tick) == tick.plan(w.deployed),
{
}

/// Without a spot price or a price to beat nothing is ordered.
pub proof fn law_nothing_without_a_price(w: EndgameWindow, tick: StrategyTick)
    requires
        tick.spot_price is None || tick.win_state.market.price_to_beat is None,
    ensures
        w.due(tick) is None,
{
}

} // verus!
