//! Scan-cycle scenarios: arbitrage, low-probability, scalping with its
//! deferred exit, and market making, all run through the bot in paper mode
//! against plugged-in market snapshots.

use polybot::bot::PolymarketBot;
use polybot::fixed::Dec;
use polybot::types::{Market, OrderSide, OrderType, OutcomeToken};

const KEY: &str = "0123456789abcdef0123456789abcdef0123456789abcdef0123456789abcdef";
const NOW: u64 = 1_700_000_000_000;

fn market(id: &str, subcategory: &str, yes_units: u64, no_units: u64, volume_units: u64) -> Market {
    Market {
        id: id.to_string(),
        question: format!("{} question", id),
        description: String::from("test market"),
        outcome_tokens: vec![
            OutcomeToken {
                outcome: String::from("YES"),
                token_id: format!("yes-{}", id),
                price: Dec::new(yes_units),
                supply: Dec::new(1_000_000_000_000),
            },
            OutcomeToken {
                outcome: String::from("NO"),
                token_id: format!("no-{}", id),
                price: Dec::new(no_units),
                supply: Dec::new(1_000_000_000_000),
            },
        ],
        volume: Dec::new(volume_units),
        liquidity: Dec::new(1_000_000_000),
        end_time_ms: None,
        category: String::from("Test"),
        subcategory: subcategory.to_string(),
        active: true,
    }
}

fn paper_bot_with(code: &str) -> PolymarketBot {
    let mut bot = PolymarketBot::new("paper", Some(KEY.to_string()), None).unwrap();
    assert!(bot.toggle_strategy(code));
    bot.start();
    bot
}

#[test]
fn arbitrage_round_trip_scenario() {
    let mut bot = paper_bot_with("A");
    assert_eq!(bot.get_state().balance, Dec::new(300_000_000));

    // YES 0.45 / NO 0.55: the legs sum to 1.00, above the 0.985 threshold,
    // so nothing is submitted.
    bot.set_market_fixture(vec![market("m1", "Sports", 450_000, 550_000, 1_000_000_000)]);
    let plans = bot.run_cycle(NOW);
    assert!(plans.is_empty());
    assert_eq!(bot.get_state().total_pnl, Dec::new(0));
    assert_eq!(bot.get_state().total_trades, 0);

    // YES 0.40 / NO 0.50: total 0.90 < 0.985. Size is
    // min(300 * 3% / 0.90, 5) = min(10, 5) = 5, and both legs go out.
    bot.set_market_fixture(vec![market("m1", "Sports", 400_000, 500_000, 1_000_000_000)]);
    let plans = bot.run_cycle(NOW);
    assert_eq!(plans.len(), 1);
    assert_eq!(plans[0].orders.len(), 2);
    for o in &plans[0].orders {
        assert_eq!(o.side, OrderSide::Buy);
        assert_eq!(o.order_type, OrderType::Limit);
        assert_eq!(o.size, Dec::new(5_000_000));
    }
    assert_eq!(plans[0].orders[0].price, Dec::new(400_000));
    assert_eq!(plans[0].orders[1].price, Dec::new(500_000));
    // Profit is exactly (1 - 0.90) * 5 = 0.50, and two trades are counted.
    assert_eq!(plans[0].pnl_delta, Dec::new(500_000));
    assert_eq!(bot.get_state().total_pnl, Dec::new(500_000));
    assert_eq!(bot.get_state().total_trades, 2);
}

#[test]
fn arbitrage_ignores_markets_at_the_threshold() {
    let mut bot = paper_bot_with("A");
    // Exactly at the threshold: 0.485 + 0.500 = 0.985 is not below it.
    bot.set_market_fixture(vec![market("m1", "Sports", 485_000, 500_000, 1_000_000_000)]);
    let plans = bot.run_cycle(NOW);
    assert!(plans.is_empty());
    // One millionth below the threshold fires.
    bot.set_market_fixture(vec![market("m1", "Sports", 484_999, 500_000, 1_000_000_000)]);
    let plans = bot.run_cycle(NOW);
    assert_eq!(plans.len(), 1);
}

#[test]
fn arbitrage_needs_exactly_two_outcome_tokens() {
    let mut bot = paper_bot_with("A");
    // First two legs sum to 0.90, well below the threshold, but the market
    // carries a third outcome token: binary arbitrage does not apply.
    let mut m = market("m1", "Sports", 400_000, 500_000, 1_000_000_000);
    m.outcome_tokens.push(OutcomeToken {
        outcome: String::from("OTHER"),
        token_id: String::from("other-m1"),
        price: Dec::new(100_000),
        supply: Dec::new(1_000_000_000_000),
    });
    bot.set_market_fixture(vec![m]);
    let plans = bot.run_cycle(NOW);
    assert!(plans.is_empty());
    assert_eq!(bot.get_state().total_pnl, Dec::new(0));
    assert_eq!(bot.get_state().total_trades, 0);
}

#[test]
fn disabled_strategy_is_a_no_op() {
    let mut bot = PolymarketBot::new("paper", Some(KEY.to_string()), None).unwrap();
    bot.start();
    bot.set_market_fixture(vec![market("m1", "Sports", 400_000, 500_000, 1_000_000_000)]);
    let plans = bot.run_cycle(NOW);
    assert!(plans.is_empty());
    assert_eq!(bot.get_state().total_pnl, Dec::new(0));
}

#[test]
fn stopped_engine_skips_the_cycle() {
    let mut bot = PolymarketBot::new("paper", Some(KEY.to_string()), None).unwrap();
    bot.toggle_strategy("A");
    bot.set_market_fixture(vec![market("m1", "Sports", 400_000, 500_000, 1_000_000_000)]);
    let plans = bot.run_cycle(NOW);
    assert!(plans.is_empty());
    assert_eq!(bot.get_state().total_trades, 0);
}

#[test]
fn low_probability_buys_the_no_side() {
    let mut bot = paper_bot_with("B");
    // YES at 0.02 is below the 0.025 threshold: buy NO at 0.98, sized
    // min(300 * 3%, 2 * 5) = min(9, 10) = 9; one trade, no P&L yet.
    bot.set_market_fixture(vec![market("m1", "Politics", 20_000, 980_000, 1_000_000_000)]);
    let plans = bot.run_cycle(NOW);
    assert_eq!(plans.len(), 1);
    assert_eq!(plans[0].orders.len(), 1);
    let o = &plans[0].orders[0];
    assert_eq!(o.token_id, "no-m1");
    assert_eq!(o.side, OrderSide::Buy);
    assert_eq!(o.order_type, OrderType::Limit);
    assert_eq!(o.price, Dec::new(980_000));
    assert_eq!(o.size, Dec::new(9_000_000));
    assert_eq!(bot.get_state().total_trades, 1);
    assert_eq!(bot.get_state().total_pnl, Dec::new(0));
}

#[test]
fn low_probability_respects_its_threshold() {
    let mut bot = paper_bot_with("B");
    // YES at 0.03 is not below 0.025: nothing goes out.
    bot.set_market_fixture(vec![market("m1", "Politics", 30_000, 970_000, 1_000_000_000)]);
    let plans = bot.run_cycle(NOW);
    assert!(plans.is_empty());
}

#[test]
fn scalping_detects_the_drop_and_exits_later() {
    let mut bot = paper_bot_with("C");
    // Nine samples at 0.50: fewer than ten never triggers.
    for k in 0..9 {
        bot.set_market_fixture(vec![market("m1", "15-min", 500_000, 500_000, 1_000_000_000)]);
        let plans = bot.run_cycle(NOW + k * 1_000);
        assert!(plans.is_empty());
    }
    // Tenth sample at 0.30: the drop is (0.50 - 0.30) / 0.50 = 40% > 30%.
    let entry_time = NOW + 9_000;
    bot.set_market_fixture(vec![market("m1", "15-min", 300_000, 700_000, 1_000_000_000)]);
    let plans = bot.run_cycle(entry_time);
    assert_eq!(plans.len(), 1);
    assert_eq!(plans[0].orders.len(), 1);
    let entry = &plans[0].orders[0];
    assert_eq!(entry.side, OrderSide::Buy);
    assert_eq!(entry.order_type, OrderType::Market);
    assert_eq!(entry.price, Dec::new(300_000));
    assert_eq!(entry.size, Dec::new(5_000_000));
    let exit = plans[0].exit.as_ref().unwrap();
    assert_eq!(exit.entry_price, Dec::new(300_000));
    assert_eq!(exit.due_ms, entry_time + 30_000);
    // The entry books nothing yet.
    assert_eq!(bot.get_state().total_pnl, Dec::new(0));
    assert_eq!(bot.get_state().total_trades, 0);

    // Before the delay has passed nothing fires.
    let early = bot.process_due_exits(entry_time + 10_000);
    assert!(early.is_empty());

    // At the deadline the limit sell goes out at 0.30 * 1.15 = 0.345 and the
    // profit (0.345 - 0.30) * 5 = 0.225 is booked with two trades.
    let fired = bot.process_due_exits(entry_time + 30_000);
    assert_eq!(fired.len(), 1);
    let sell = &fired[0].orders[0];
    assert_eq!(sell.side, OrderSide::Sell);
    assert_eq!(sell.order_type, OrderType::Limit);
    assert_eq!(sell.price, Dec::new(345_000));
    assert_eq!(sell.size, Dec::new(5_000_000));
    assert_eq!(bot.get_state().total_pnl, Dec::new(225_000));
    assert_eq!(bot.get_state().total_trades, 2);

    // The queue is empty afterwards: firing is not repeated.
    let again = bot.process_due_exits(entry_time + 60_000);
    assert!(again.is_empty());
    assert_eq!(bot.get_state().total_pnl, Dec::new(225_000));
}

#[test]
fn stopping_does_not_cancel_scheduled_exits() {
    let mut bot = paper_bot_with("C");
    for k in 0..10 {
        let price = if k < 9 { 500_000 } else { 300_000 };
        bot.set_market_fixture(vec![market("m1", "15-min", price, 500_000, 1_000_000_000)]);
        bot.run_cycle(NOW + k * 1_000);
    }
    // The exit is queued; stopping halts new cycles but not the exit.
    bot.stop();
    let fired = bot.process_due_exits(NOW + 9_000 + 30_000);
    assert_eq!(fired.len(), 1);
    assert_eq!(bot.get_state().total_pnl, Dec::new(225_000));
    assert_eq!(bot.get_state().total_trades, 2);
}

#[test]
fn scalping_ignores_other_subcategories() {
    let mut bot = paper_bot_with("C");
    for k in 0..12 {
        bot.set_market_fixture(vec![market(
            "m1",
            "Elections",
            if k < 11 { 500_000 } else { 100_000 },
            500_000,
            1_000_000_000,
        )]);
        let plans = bot.run_cycle(NOW + k * 1_000);
        assert!(plans.is_empty());
    }
}

#[test]
fn market_making_quotes_both_sides() {
    let mut bot = paper_bot_with("D");
    // Volume above the 1,000,000.00 floor; one market, two tokens, so two
    // plans of a bid and an ask each, sized at half the per-trade ceiling.
    bot.set_market_fixture(vec![market("m1", "Sports", 450_000, 550_000, 2_000_000_000_000)]);
    let plans = bot.run_cycle(NOW);
    assert_eq!(plans.len(), 2);
    for p in &plans {
        assert_eq!(p.orders.len(), 2);
        assert_eq!(p.pnl_delta, Dec::new(0));
        assert_eq!(p.trades_delta, 0);
        for o in &p.orders {
            assert_eq!(o.order_type, OrderType::PostOnly);
            assert_eq!(o.size, Dec::new(2_500_000));
        }
    }
    // YES token: 2% of 0.45 is 0.009, so bid 0.4455 and ask 0.4545, with the
    // bid buying and the ask selling.
    assert_eq!(plans[0].orders[0].side, OrderSide::Buy);
    assert_eq!(plans[0].orders[0].price, Dec::new(445_500));
    assert_eq!(plans[0].orders[1].side, OrderSide::Sell);
    assert_eq!(plans[0].orders[1].price, Dec::new(454_500));
    // NO token: the sides flip.
    assert_eq!(plans[1].orders[0].side, OrderSide::Sell);
    assert_eq!(plans[1].orders[1].side, OrderSide::Buy);
    // No accounting at submission time.
    assert_eq!(bot.get_state().total_pnl, Dec::new(0));
    assert_eq!(bot.get_state().total_trades, 0);
}

#[test]
fn market_making_skips_thin_markets() {
    let mut bot = paper_bot_with("D");
    bot.set_market_fixture(vec![market("m1", "Sports", 450_000, 550_000, 999_999_999_999)]);
    let plans = bot.run_cycle(NOW);
    assert!(plans.is_empty());
}

#[test]
fn live_cycle_defers_accounting_to_the_host() {
    let mut bot = PolymarketBot::new(
        "live",
        Some(KEY.to_string()),
        Some(Dec::new(300_000_000)),
    )
    .unwrap();
    bot.toggle_strategy("A");
    bot.start();
    bot.set_market_fixture(vec![market("m1", "Sports", 400_000, 500_000, 1_000_000_000)]);
    let plans = bot.run_cycle(NOW);
    assert_eq!(plans.len(), 1);
    // Nothing is booked until the host confirms the submission.
    assert_eq!(bot.get_state().total_pnl, Dec::new(0));
    assert_eq!(bot.get_state().total_trades, 0);
    // A failed submission books nothing either.
    bot.apply_plan_outcome(&plans[0], false);
    assert_eq!(bot.get_state().total_trades, 0);
    // A confirmed one books the plan exactly.
    bot.apply_plan_outcome(&plans[0], true);
    assert_eq!(bot.get_state().total_pnl, Dec::new(500_000));
    assert_eq!(bot.get_state().total_trades, 2);
}

#[test]
fn position_sizing_stays_within_the_ceilings() {
    // Arbitrage: even with the largest balance the core accounts for, the
    // size is capped by max_risk_per_trade.
    let mut bot = PolymarketBot::new(
        "live",
        Some(KEY.to_string()),
        Some(Dec::new(1_000_000_000_000_000)),
    )
    .unwrap();
    bot.toggle_strategy("A");
    bot.toggle_strategy("B");
    bot.start();
    bot.set_market_fixture(vec![market("m1", "Sports", 10_000, 500_000, 1_000_000_000)]);
    let plans = bot.run_cycle(NOW);
    // YES 0.01 both fires arbitrage (0.51 < 0.985) and low-probability
    // (0.01 < 0.025).
    assert_eq!(plans.len(), 2);
    for o in &plans[0].orders {
        assert!(o.size.units <= 5_000_000);
        assert!(o.size.units > 0);
    }
    for o in &plans[1].orders {
        assert!(o.size.units <= 10_000_000);
        assert!(o.size.units > 0);
    }
}
