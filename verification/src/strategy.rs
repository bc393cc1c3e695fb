//! Signals and per-window state that the strategies share.
use crate::num::Num;
use crate::text::same_text;
use vstd::prelude::*;

verus! {

/// Share of the budget for the cheaper side of a two-sided entry.
pub fn legacy_cheaper_side_ratio() -> (r: Num)
    ensures
        r == Num::ratio(6, 10),
{
    Num::ratio(6, 10)
}

#[derive(Debug, Clone, Copy, PartialEq, Eq, Structural)]
pub enum OrderOperation {
    Buy,
    Sell,
}

#[derive(Debug, Clone, Copy, PartialEq, Eq, Structural)]
pub enum OrderType {
    Market,
    Limit,
}

/// An order that a strategy wants: a buy for `amount` USD or a sale of `amount` shares.
#[derive(Debug, Clone)]
pub struct OrderSignal {
    pub side: String,
    pub is_buy: bool,
    pub order_type: OrderType,
    pub amount: Num,
    pub price: Num,
    pub reason: String,
}

impl OrderSignal {
    pub fn buy(side: &str, order_type: OrderType, amount: Num, price: Num, reason: &str) -> (r: Self)
        ensures
            r.side@ == side@,
            r.is_buy,
            r.order_type == order_type,
            r.amount == amount,
            r.price == price,
            r.reason@ == reason@,
    {
        OrderSignal {
            side: side.to_owned(),
            is_buy: true,
            order_type,
            amount,
            price,
            reason: reason.to_owned(),
        }
    }

    pub fn sell(side: &str, order_type: OrderType, amount: Num, price: Num, reason: &str) -> (r: Self)
        ensures
            r.side@ == side@,
            !r.is_buy,
            r.order_type == order_type,
            r.amount == amount,
            r.price == price,
            r.reason@ == reason@,
    {
        OrderSignal {
            side: side.to_owned(),
            is_buy: false,
            order_type,
            amount,
            price,
            reason: reason.to_owned(),
        }
    }

    pub fn operation(&self) -> (r: OrderOperation)
        ensures
            r == if self.is_buy {
                OrderOperation::Buy
            } else {
                OrderOperation::Sell
            },
    {
        if self.is_buy {
            OrderOperation::Buy
        } else {
            OrderOperation::Sell
        }
    }
}

/// Which contracts an entry buys.
#[derive(Debug, Clone)]
pub enum EntryMode {
    Both,
    OneSide(String),
}

#[derive(Debug, Clone)]
pub struct EntrySignal {
    pub up_ask: Num,
    pub down_ask: Num,
    pub budget_multiplier: Num,
    pub cheaper_side_ratio: Num,
    pub mode: EntryMode,
    pub reason: String,
}

/// A directional forecast for one window.
#[derive(Debug, Clone)]
pub struct LlmForecast {
    pub side: String,
    pub confidence: Num,
    pub signal_strength: String,
    pub reason_short: String,
    pub key_drivers: Vec<String>,
    pub risk_note: String,
}

#[derive(Debug, Clone, Copy)]
pub struct SpotSignalSnapshot {
    pub raw_velocity_usd_per_sec: Option<Num>,
    pub smoothed_velocity_usd_per_sec: Option<Num>,
    pub acceleration_usd_per_sec2: Option<Num>,
}

impl Default for SpotSignalSnapshot {
    fn default() -> (r: Self)
        ensures
            r == (SpotSignalSnapshot {
                raw_velocity_usd_per_sec: None,
                smoothed_velocity_usd_per_sec: None,
                acceleration_usd_per_sec2: None,
            }),
    {
        SpotSignalSnapshot {
            raw_velocity_usd_per_sec: None,
            smoothed_velocity_usd_per_sec: None,
            acceleration_usd_per_sec2: None,
        }
    }
}

#[derive(Debug, Clone)]
pub struct StrategyState {
    pub up_sold: bool,
    pub down_sold: bool,
    pub first_sold_side: Option<String>,
    pub ptb_crossed: bool,
    pub ptb_baseline: Option<String>,
    pub e_conviction_side: Option<String>,
    pub e_tranches_done: u32,
    pub e_grid_steps_done: u32,
    pub h_entry_side: Option<String>,
    pub h_entry_done: bool,
    pub h_salvage_done: bool,
}

/// The strategies that a pre-start engine can run.
#[derive(Debug, Clone, Copy, PartialEq, Eq, Structural)]
pub enum StrategyKind {
    SimpleBoth,
    AsymmetricLadder,
    DynamicBreakEven,
    DynamicGrid,
}

/// Picks the strategy by its configured name.
#[derive(Debug, Clone, Copy)]
pub struct StrategyEngine {
    pub active_strategy: StrategyKind,
}

impl StrategyEngine {
    /// The strategy of that name; any other name means the simple two-sided one.
    pub fn new(strategy_name: &str) -> (r: Self)
        ensures
            r.active_strategy == if strategy_name@ == "asymmetric_ladder"@ {
                StrategyKind::AsymmetricLadder
            } else if strategy_name@ == "dynamic_breakeven"@ {
                StrategyKind::DynamicBreakEven
            } else if strategy_name@ == "dynamic_grid"@ {
                StrategyKind::DynamicGrid
            } else {
                StrategyKind::SimpleBoth
            },
    {
        let active: StrategyKind = if same_text(strategy_name, "asymmetric_ladder") {
            StrategyKind::AsymmetricLadder
        } else if same_text(strategy_name, "dynamic_breakeven") {
            StrategyKind::DynamicBreakEven
        } else if same_text(strategy_name, "dynamic_grid") {
            StrategyKind::DynamicGrid
        } else {
            StrategyKind::SimpleBoth
        };
        StrategyEngine { active_strategy: active }
    }
}

/// Buys on the outcome tokens within the tape window.
#[derive(Debug, Clone, Copy)]
pub struct TradeTapeSnapshot {
    pub up_buy_usd: Num,
    pub down_buy_usd: Num,
    pub up_buy_count: u32,
    pub down_buy_count: u32,
}

impl Default for TradeTapeSnapshot {
    fn default() -> (r: Self)
        ensures
            r == (TradeTapeSnapshot {
                up_buy_usd: Num::zero(),
                down_buy_usd: Num::zero(),
                up_buy_count: 0,
                down_buy_count: 0,
            }),
    {
        TradeTapeSnapshot {
            up_buy_usd: Num::zero(),
            down_buy_usd: Num::zero(),
            up_buy_count: 0,
            down_buy_count: 0,
        }
    }
}

} // verus!
