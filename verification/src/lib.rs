//! Verified core of a command-line client for the Zerodha Kite Connect
//! trading API: order forms and their replies, instrument search, candle
//! handling, signal state machines and the small parsers the CLI relies on.

pub mod orders;
pub mod text;
pub mod json;
pub mod ticker;
pub mod endpoints;
pub mod signals;
pub mod executor;
pub mod backtest;
pub mod history;
pub mod instruments;
pub mod views;
pub mod account;
pub mod settings;
pub mod portfolio;
