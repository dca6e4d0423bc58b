//! Process configuration: connection endpoints, bot defaults and interface
//! tunables, with the validation rules the host must pass before starting.

use vstd::prelude::*;
use vstd::string::*;

use crate::errors::ConfigError;
use crate::types::MIN_SCAN_MS;

verus! {

/// Connection settings for the exchange endpoints. The signing key is left
/// empty here; the host reads it from its environment and fills it in.
#[derive(Debug)]
pub struct PolymarketConfig {
    pub private_key: String,
    pub clob_url: String,
    pub ws_url: String,
    pub gamma_api_url: String,
}

/// Engine defaults.
#[derive(Debug)]
pub struct BotConfig {
    pub default_mode: String,
    pub scan_frequency_ms: u64,
    pub max_concurrent_orders: usize,
    pub enable_websocket: bool,
}

/// Presentation-layer tunables, carried for the host.
#[derive(Debug)]
pub struct UIConfig {
    pub refresh_rate_ms: u64,
    pub max_log_lines: usize,
    pub show_advanced_stats: bool,
}

#[derive(Debug)]
pub struct Config {
    pub polymarket: PolymarketConfig,
    pub bot: BotConfig,
    pub ui: UIConfig,
}

impl Default for Config {
    fn default() -> (r: Config)
        ensures
            r.polymarket.private_key@ == Seq::<char>::empty(),
            r.polymarket.clob_url@ == "https://clob.polymarket.com"@,
            r.polymarket.ws_url@ == "wss://ws.clob.polymarket.com"@,
            r.polymarket.gamma_api_url@ == "https://gamma-api.polymarket.com"@,
            r.bot.default_mode@ == "paper"@,
            r.bot.scan_frequency_ms == 1000,
            r.bot.max_concurrent_orders == 10,
            r.bot.enable_websocket == true,
            r.ui.refresh_rate_ms == 1000,
            r.ui.max_log_lines == 100,
            r.ui.show_advanced_stats == false,
    {
        Config {
            polymarket: PolymarketConfig {
                private_key: String::new(),
                clob_url: String::from_str("https://clob.polymarket.com"),
                ws_url: String::from_str("wss://ws.clob.polymarket.com"),
                gamma_api_url: String::from_str("https://gamma-api.polymarket.com"),
            },
            bot: BotConfig {
                default_mode: String::from_str("paper"),
                scan_frequency_ms: 1000,
                max_concurrent_orders: 10,
                enable_websocket: true,
            },
            ui: UIConfig { refresh_rate_ms: 1000, max_log_lines: 100, show_advanced_stats: false },
        }
    }
}

impl Config {
    /// The configuration a fresh process starts from: the defaults, with the
    /// signing key to be supplied by the host before validation.
    pub fn load() -> (r: Result<Config, ConfigError>)
        ensures
            r is Ok,
            r is Ok ==> r->Ok_0.polymarket.private_key@ == Seq::<char>::empty(),
            r is Ok ==> r->Ok_0.polymarket.clob_url@ == "https://clob.polymarket.com"@,
            r is Ok ==> r->Ok_0.polymarket.ws_url@ == "wss://ws.clob.polymarket.com"@,
            r is Ok ==> r->Ok_0.polymarket.gamma_api_url@ == "https://gamma-api.polymarket.com"@,
            r is Ok ==> r->Ok_0.bot.default_mode@ == "paper"@,
            r is Ok ==> r->Ok_0.bot.scan_frequency_ms == 1000,
            r is Ok ==> r->Ok_0.bot.max_concurrent_orders == 10,
            r is Ok ==> r->Ok_0.bot.enable_websocket == true,
            r is Ok ==> r->Ok_0.ui.refresh_rate_ms == 1000,
            r is Ok ==> r->Ok_0.ui.max_log_lines == 100,
            r is Ok ==> r->Ok_0.ui.show_advanced_stats == false,
    {
        Ok(Config::default())
    }

    /// A configuration is usable when a signing key is present and the scan
    /// interval is at or above the accepted minimum — exactly then.
    pub fn validate(&self) -> (r: Result<(), ConfigError>)
        ensures
            r is Ok <==> self.polymarket.private_key@.len() > 0 && self.bot.scan_frequency_ms
                >= MIN_SCAN_MS,
            self.polymarket.private_key@.len() == 0 ==> r == Result::<(), ConfigError>::Err(
                ConfigError::MissingPrivateKey,
            ),
            self.polymarket.private_key@.len() > 0 && self.bot.scan_frequency_ms < MIN_SCAN_MS
                ==> r == Result::<(), ConfigError>::Err(ConfigError::ScanFrequencyTooLow),
    {
        if self.polymarket.private_key.as_str().is_empty() {
            return Err(ConfigError::MissingPrivateKey);
        }
        if self.bot.scan_frequency_ms < MIN_SCAN_MS {
            return Err(ConfigError::ScanFrequencyTooLow);
        }
        Ok(())
    }
}

} // verus!
