//! Verified core of a Polymarket trading bot for short-lived crypto markets.

pub mod bilateral;
pub mod book_state;
pub mod cex_feed;
pub mod cli;
pub mod config;
pub mod decimal;
pub mod double;
pub mod fees;
pub mod gamma;
pub mod json;
pub mod live;
pub mod live_runner;
pub mod market_index;
pub mod poly_ws;
pub mod pricing_model;
pub mod recorder;
pub mod runner;
pub mod session;
pub mod strategies;
pub mod string_map;
pub mod text;
pub mod timestamp;
pub mod tp_manager;
pub mod trinity_runner;
pub mod types;
