//! The verified core of a market-making bot.
pub mod balance;
pub mod binance;
pub mod commission;
pub mod decimal;
pub mod market;
pub mod orders;
pub mod settings;
pub mod strategy;
pub mod strategy_laws;
pub mod time;
pub mod timeouts;
