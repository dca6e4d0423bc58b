//! Control-surface tests: toggling, resetting, mode switching, reporting.

use polybot::bot::PolymarketBot;
use polybot::config::Config;
use polybot::errors::{ConfigError, ExecutionError};
use polybot::fixed::Dec;
use polybot::types::{BotMode, BotStatus, RiskConfig, StrategyConfig, MIN_SCAN_MS};

const KEY: &str = "0123456789abcdef0123456789abcdef0123456789abcdef0123456789abcdef";

fn paper_bot() -> PolymarketBot {
    PolymarketBot::new("paper", Some(KEY.to_string()), None).unwrap()
}

#[test]
fn new_paper_bot_starts_clean() {
    let bot = paper_bot();
    let s = bot.get_state();
    assert_eq!(s.mode, BotMode::Paper);
    assert_eq!(s.balance, Dec::new(300_000_000));
    assert_eq!(s.starting_balance, Dec::new(300_000_000));
    assert_eq!(s.total_pnl, Dec::new(0));
    assert_eq!(s.total_trades, 0);
    assert!(s.active_strategies.is_empty());
    assert!(matches!(s.status, BotStatus::Stopped));
    assert_eq!(s.risk_config, RiskConfig::default());
}

#[test]
fn new_without_key_fails() {
    let r = PolymarketBot::new("paper", None, None);
    assert!(matches!(r, Err(ConfigError::MissingPrivateKey)));
}

#[test]
fn new_live_needs_confirmed_balance() {
    let r = PolymarketBot::new("live", Some(KEY.to_string()), None);
    assert!(matches!(r, Err(ConfigError::LiveBalanceUnavailable)));
    let bot = PolymarketBot::new(
        "live",
        Some(KEY.to_string()),
        Some(Dec::new(1_000_000_000)),
    )
    .unwrap();
    let s = bot.get_state();
    assert_eq!(s.mode, BotMode::Live);
    assert_eq!(s.balance, Dec::new(1_000_000_000));
}

#[test]
fn start_and_stop_flip_status() {
    let mut bot = paper_bot();
    bot.start();
    assert!(matches!(bot.get_state().status, BotStatus::Running));
    bot.stop();
    assert!(matches!(bot.get_state().status, BotStatus::Stopped));
}

#[test]
fn toggle_strategy_is_self_inverse() {
    let mut bot = paper_bot();
    assert!(!bot.get_state().active_strategies.contains(&"A".to_string()));
    assert_eq!(bot.toggle_strategy("A"), true);
    assert!(bot.get_state().active_strategies.contains(&"A".to_string()));
    assert_eq!(bot.toggle_strategy("A"), false);
    assert!(!bot.get_state().active_strategies.contains(&"A".to_string()));

    // With other codes around, their membership is untouched.
    bot.toggle_strategy("B");
    bot.toggle_strategy("C");
    bot.toggle_strategy("B");
    bot.toggle_strategy("B");
    let s = bot.get_state();
    assert!(s.active_strategies.contains(&"B".to_string()));
    assert!(s.active_strategies.contains(&"C".to_string()));
    assert_eq!(s.active_strategies.len(), 2);
}

#[test]
fn reset_stats_is_idempotent() {
    let mut bot = paper_bot();
    bot.toggle_strategy("A");
    bot.start();
    bot.reset_stats();
    let once = bot.get_state();
    bot.reset_stats();
    let twice = bot.get_state();
    assert_eq!(once.starting_balance, twice.starting_balance);
    assert_eq!(once.total_pnl, twice.total_pnl);
    assert_eq!(once.total_trades, twice.total_trades);
    assert_eq!(once.active_strategies, twice.active_strategies);
    assert_eq!(once.mode, twice.mode);
    assert_eq!(once.balance, twice.balance);
    // Only the baseline and the counters were touched.
    assert!(once.active_strategies.contains(&"A".to_string()));
    assert!(matches!(once.status, BotStatus::Running));
}

#[test]
fn switch_mode_to_live_without_key_fails_and_leaves_paper() {
    let mut bot = paper_bot();
    let r = bot.switch_mode("live", None, None);
    assert!(matches!(r, Err(ConfigError::MissingPrivateKey)));
    assert_eq!(bot.get_state().mode, BotMode::Paper);
    assert_eq!(bot.get_state().balance, Dec::new(300_000_000));
}

#[test]
fn switch_mode_to_live_without_balance_fails_unchanged() {
    let mut bot = paper_bot();
    let r = bot.switch_mode("live", Some(KEY.to_string()), None);
    assert!(matches!(r, Err(ConfigError::LiveBalanceUnavailable)));
    assert_eq!(bot.get_state().mode, BotMode::Paper);
}

#[test]
fn switch_mode_round_trip() {
    let mut bot = paper_bot();
    bot.switch_mode("live", Some(KEY.to_string()), Some(Dec::new(42_000_000)))
        .unwrap();
    assert_eq!(bot.get_state().mode, BotMode::Live);
    assert_eq!(bot.get_state().balance, Dec::new(42_000_000));
    assert_eq!(bot.get_balance(), Err(ExecutionError::RequiresLiveTransport));
    bot.switch_mode("paper", None, None).unwrap();
    assert_eq!(bot.get_state().mode, BotMode::Paper);
    assert_eq!(bot.get_state().balance, Dec::new(300_000_000));
    assert_eq!(bot.get_balance(), Ok(Dec::new(300_000_000)));
}

#[test]
fn update_risk_config_replaces_whole_config() {
    let mut bot = paper_bot();
    let cfg = RiskConfig {
        max_position_size: Dec::new(50_000),
        max_risk_per_trade: Dec::new(7_000_000),
        arb_threshold: Dec::new(990_000),
        low_prob_threshold: Dec::new(30_000),
        scalping_drop_threshold: Dec::new(250_000),
        scan_frequency_ms: 500,
    };
    assert!(cfg.is_wf());
    bot.update_risk_config(cfg);
    assert_eq!(bot.get_state().risk_config, cfg);
}

#[test]
fn performance_summary_of_fresh_bot() {
    let bot = paper_bot();
    assert_eq!(
        bot.get_performance_summary(),
        "Performance:\nBalance: 300.00 USDC\nP&L: 0.0000 USDC (0.00%)\nTrades: 0\nActive strategies: 0\nMode: PAPER\nStatus: Stopped"
    );
}

#[test]
fn config_defaults_and_validation() {
    let mut cfg = Config::load().unwrap();
    assert_eq!(cfg.bot.scan_frequency_ms, 1000);
    assert!(matches!(cfg.validate(), Err(ConfigError::MissingPrivateKey)));
    cfg.polymarket.private_key = KEY.to_string();
    assert!(cfg.validate().is_ok());
    cfg.bot.scan_frequency_ms = MIN_SCAN_MS - 1;
    assert!(matches!(cfg.validate(), Err(ConfigError::ScanFrequencyTooLow)));
    cfg.bot.scan_frequency_ms = MIN_SCAN_MS;
    assert!(cfg.validate().is_ok());
}

#[test]
fn error_descriptions() {
    assert_eq!(ConfigError::MissingPrivateKey.describe(), "private key required");
    assert_eq!(
        ConfigError::InvalidPrivateKey.describe(),
        "private key must be 32 bytes of hex"
    );
    assert_eq!(
        ConfigError::LiveBalanceUnavailable.describe(),
        "live balance could not be confirmed"
    );
    assert_eq!(
        ConfigError::ScanFrequencyTooLow.describe(),
        "scan frequency below the accepted minimum"
    );
    assert_eq!(
        ExecutionError::RequiresLiveTransport.describe(),
        "live orders go through the host transport"
    );
}

#[test]
fn strategy_config_starts_disabled() {
    let sc = StrategyConfig::new("Arbitrage");
    assert!(!sc.enabled);
    assert_eq!(sc.name, "Arbitrage");
    assert!(sc.params.is_empty());
}

#[test]
fn default_risk_config_values() {
    let cfg = RiskConfig::default();
    assert_eq!(cfg.max_position_size, Dec::new(30_000));
    assert_eq!(cfg.max_risk_per_trade, Dec::new(5_000_000));
    assert_eq!(cfg.arb_threshold, Dec::new(985_000));
    assert_eq!(cfg.low_prob_threshold, Dec::new(25_000));
    assert_eq!(cfg.scalping_drop_threshold, Dec::new(300_000));
    assert_eq!(cfg.scan_frequency_ms, 1000);
    assert!(cfg.is_wf());
}
