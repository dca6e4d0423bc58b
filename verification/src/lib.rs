//! Core of a prediction-market trading bot: account state, risk
//! configuration, an order-execution gateway with a simulated (paper) and a
//! live mode, and four trading strategies driven by a scan-cycle engine.
//!
//! All money amounts and prices are fixed-point decimals ([`fixed::Dec`]):
//! integers counting millionths, so every computation here is exact integer
//! arithmetic with stated rounding.

pub mod bot;
pub mod clob;
pub mod config;
pub mod errors;
pub mod fixed;
pub mod strategies;
pub mod text;
pub mod types;
