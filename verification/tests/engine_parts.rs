//! Direct tests of the engine parts: strategy constructors and enablement,
//! state methods, and reporting after a booked trade.

use polybot::bot::PolymarketBot;
use polybot::fixed::Dec;
use polybot::strategies::{
    ArbitrageStrategy, LowProbStrategy, MarketMakingStrategy, ScalpingStrategy, StrategyEngine,
};
use polybot::text::u64_string;
use polybot::types::{
    BotMode, BotState, BotStatus, Market, OutcomeToken, RiskConfig,
};

const KEY: &str = "0123456789abcdef0123456789abcdef0123456789abcdef0123456789abcdef";

fn state_with(codes: &[&str]) -> BotState {
    BotState {
        mode: BotMode::Paper,
        balance: Dec::new(300_000_000),
        starting_balance: Dec::new(300_000_000),
        total_pnl: Dec::new(0),
        total_trades: 0,
        active_strategies: codes.iter().map(|c| c.to_string()).collect(),
        status: BotStatus::Stopped,
        risk_config: RiskConfig::default(),
    }
}

#[test]
fn strategy_names() {
    assert_eq!(ArbitrageStrategy::new().name(), "Arbitrage Binaire");
    assert_eq!(LowProbStrategy::new().name(), "Low-Prob NO");
    assert_eq!(ScalpingStrategy::new().name(), "Scalping 15-min");
    assert_eq!(MarketMakingStrategy::new().name(), "Market Making");
}

#[test]
fn enablement_is_membership_of_the_code() {
    let s = state_with(&["A", "C"]);
    assert!(ArbitrageStrategy::new().is_enabled(&s));
    assert!(!LowProbStrategy::new().is_enabled(&s));
    assert!(ScalpingStrategy::new().is_enabled(&s));
    assert!(!MarketMakingStrategy::new().is_enabled(&s));
}

#[test]
fn engine_starts_with_nothing_queued() {
    let engine = StrategyEngine::new();
    assert!(engine.pending_exits.is_empty());
    assert!(engine.scalping.price_history.is_empty());
}

#[test]
fn state_membership_and_snapshot() {
    let mut s = state_with(&["B"]);
    assert!(s.contains_strategy("B"));
    assert!(!s.contains_strategy("A"));
    assert!(s.toggle_strategy("A"));
    assert!(s.contains_strategy("A"));

    let copy = s.snapshot();
    assert_eq!(copy.active_strategies, s.active_strategies);
    assert_eq!(copy.balance, s.balance);
    assert_eq!(copy.total_trades, s.total_trades);
    assert!(matches!(copy.status, BotStatus::Stopped));

    s.set_status(BotStatus::Running);
    assert!(matches!(s.status, BotStatus::Running));
    // The earlier snapshot is a copy, not a reference into the state.
    assert!(matches!(copy.status, BotStatus::Stopped));
}

#[test]
fn reset_clears_only_the_counters() {
    let mut s = state_with(&["A"]);
    s.total_pnl = Dec::new(123_456);
    s.total_trades = 7;
    s.balance = Dec::new(444_000_000);
    s.reset_stats();
    assert_eq!(s.starting_balance, Dec::new(444_000_000));
    assert_eq!(s.total_pnl, Dec::new(0));
    assert_eq!(s.total_trades, 0);
    assert_eq!(s.balance, Dec::new(444_000_000));
    assert!(s.contains_strategy("A"));
}

#[test]
fn summary_reflects_booked_trades() {
    let mut bot = PolymarketBot::new("paper", Some(KEY.to_string()), None).unwrap();
    bot.toggle_strategy("A");
    bot.start();
    bot.set_market_fixture(vec![Market {
        id: "m1".to_string(),
        question: "m1 question".to_string(),
        description: "test market".to_string(),
        outcome_tokens: vec![
            OutcomeToken {
                outcome: "YES".to_string(),
                token_id: "yes-m1".to_string(),
                price: Dec::new(400_000),
                supply: Dec::new(1_000_000),
            },
            OutcomeToken {
                outcome: "NO".to_string(),
                token_id: "no-m1".to_string(),
                price: Dec::new(500_000),
                supply: Dec::new(1_000_000),
            },
        ],
        volume: Dec::new(1_000_000_000),
        liquidity: Dec::new(1_000_000_000),
        end_time_ms: None,
        category: "Test".to_string(),
        subcategory: "Sports".to_string(),
        active: true,
    }]);
    bot.run_cycle(1_700_000_000_000);
    // P&L 0.5000 on a 300.00 baseline is 0.166...%, truncated to 0.16.
    assert_eq!(
        bot.get_performance_summary(),
        "Performance:\nBalance: 300.00 USDC\nP&L: 0.5000 USDC (0.16%)\nTrades: 2\nActive strategies: 1\nMode: PAPER\nStatus: Running"
    );
}

#[test]
fn markets_come_from_the_gateway() {
    let mut bot = PolymarketBot::new("paper", Some(KEY.to_string()), None).unwrap();
    let markets = bot.get_markets(1_700_000_000_000);
    assert_eq!(markets.len(), 2);
    assert_eq!(markets[0].id, "crypto-15min-spike");
    assert_eq!(markets[1].id, "election-major");
}

#[test]
fn rendering_large_counts() {
    assert_eq!(u64_string(u64::MAX), "18446744073709551615");
}
