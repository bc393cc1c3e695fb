//! Verified core of a trading engine for short crypto up/down markets.

pub mod analytics;
pub mod asset_price;
pub mod book_laws;
pub mod cex_micro;
pub mod client;
pub mod clip_laws;
pub mod config;
pub mod daemon;
pub mod dashboard;
pub mod decimal;
pub mod display;
pub mod endgame;
pub mod entry;
pub mod event_log;
pub mod feed_laws;
pub mod h_stats;
pub mod hedge_laws;
pub mod history_laws;
pub mod j_controller;
pub mod j_fees;
pub mod j_laws;
pub mod j_paper_executor;
pub mod json;
pub mod live_audit;
pub mod live_executor;
pub mod live_session;
pub mod llm;
pub mod llm_context;
pub mod maintenance;
pub mod market_laws;
pub mod market_parse;
pub mod mid_cross_tracker;
pub mod money_laws;
pub mod num;
pub mod num_error;
pub mod num_laws;
pub mod num_ops;
pub mod num_root;
pub mod num_whole;
pub mod number_format;
pub mod number_text;
pub mod orderbook;
pub mod owed_laws;
pub mod plan_laws;
pub mod profit_laws;
pub mod redeem_hold;
pub mod render;
pub mod render_block;
pub mod render_strategy;
pub mod rounding;
pub mod score_laws;
pub mod session;
pub mod session_laws;
pub mod spot_series;
pub mod startup;
pub mod strategy;
pub mod strategy_j;
pub mod terminal;
pub mod text;
pub mod time;
pub mod trade_laws;
pub mod trade_tape;
pub mod trader;
pub mod volatility;
pub mod window_close;
