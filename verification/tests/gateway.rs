//! Gateway, key validation and fixture tests.

use polybot::clob::{
    now_millis, to_live_request, validate_private_key, ClobOrderSide, ClobOrderType,
    PolymarketClob,
};
use polybot::errors::{ConfigError, ExecutionError};
use polybot::fixed::Dec;
use polybot::types::{Order, OrderSide, OrderStatus, OrderType};

const KEY: &str = "0123456789abcdef0123456789abcdef0123456789abcdef0123456789abcdef";

fn order(side: OrderSide, order_type: OrderType) -> Order {
    Order {
        id: String::from("test-order"),
        token_id: String::from("tok-1"),
        side,
        price: Dec::new(450_000),
        size: Dec::new(5_000_000),
        order_type,
        status: OrderStatus::Pending,
        created_at_ms: 1_700_000_000_000,
    }
}

#[test]
fn valid_key_accepted() {
    let bytes = validate_private_key(KEY).unwrap();
    assert_eq!(bytes.len(), 32);
    // The decoded bytes are the parsed hex, not the input handed back.
    assert_eq!(bytes[0], 0x01);
    assert_eq!(bytes[1], 0x23);
    assert_eq!(bytes[31], 0xef);
}

#[test]
fn prefixed_key_accepted() {
    let with_prefix = format!("0x{}", KEY);
    let bytes = validate_private_key(&with_prefix).unwrap();
    assert_eq!(bytes.len(), 32);
    assert_eq!(bytes[0], 0x01);
}

#[test]
fn odd_length_key_rejected() {
    let odd = &KEY[..63];
    assert_eq!(validate_private_key(odd), Err(ConfigError::InvalidPrivateKey));
}

#[test]
fn short_key_rejected() {
    assert_eq!(validate_private_key("abcd"), Err(ConfigError::InvalidPrivateKey));
}

#[test]
fn non_hex_key_rejected() {
    let bad = "g123456789abcdef0123456789abcdef0123456789abcdef0123456789abcdef";
    assert_eq!(validate_private_key(bad), Err(ConfigError::InvalidPrivateKey));
}

#[test]
fn clob_new_rejects_bad_key() {
    assert!(PolymarketClob::new("nope", true).is_err());
    assert!(PolymarketClob::new(KEY, true).is_ok());
}

#[test]
fn paper_order_gets_synthetic_id() {
    let clob = PolymarketClob::new(KEY, true).unwrap();
    let id = clob.place_order(&order(OrderSide::Buy, OrderType::Limit)).unwrap();
    assert!(id.starts_with("paper_"));
    assert_eq!(id.len(), 42);
    let id2 = clob.place_order(&order(OrderSide::Buy, OrderType::Limit)).unwrap();
    assert_ne!(id, id2);
}

#[test]
fn live_order_needs_host_transport() {
    let clob = PolymarketClob::new(KEY, false).unwrap();
    let r = clob.place_order(&order(OrderSide::Buy, OrderType::Limit));
    assert_eq!(r, Err(ExecutionError::RequiresLiveTransport));
}

#[test]
fn paper_balance_is_fixed() {
    let clob = PolymarketClob::new(KEY, true).unwrap();
    assert_eq!(clob.get_balance().unwrap(), Dec::new(300_000_000));
    let live = PolymarketClob::new(KEY, false).unwrap();
    assert_eq!(live.get_balance(), Err(ExecutionError::RequiresLiveTransport));
}

#[test]
fn fixture_markets_shape() {
    let mut clob = PolymarketClob::new(KEY, true).unwrap();
    let markets = clob.fetch_markets(1_700_000_000_000);
    assert_eq!(markets.len(), 2);
    assert_eq!(markets[0].subcategory, "15-min");
    assert_eq!(markets[0].outcome_tokens.len(), 2);
    assert_eq!(markets[0].outcome_tokens[0].outcome, "YES");
    assert_eq!(markets[0].outcome_tokens[0].price, Dec::new(450_000));
    assert_eq!(markets[0].outcome_tokens[1].outcome, "NO");
    assert_eq!(markets[0].outcome_tokens[1].price, Dec::new(550_000));
    assert_eq!(markets[0].end_time_ms, Some(1_700_000_000_000 + 900_000));
    assert_eq!(markets[1].outcome_tokens[0].price, Dec::new(620_000));
}

#[test]
fn order_translation_maps_fields() {
    let o = order(OrderSide::Sell, OrderType::PostOnly);
    let req = to_live_request(&o);
    assert_eq!(req.token_id, "tok-1");
    assert_eq!(req.side, ClobOrderSide::Sell);
    assert_eq!(req.order_type, ClobOrderType::PostOnly);
    assert_eq!(req.price, Dec::new(450_000));
    assert_eq!(req.size, Dec::new(5_000_000));
    let b = to_live_request(&order(OrderSide::Buy, OrderType::Market));
    assert_eq!(b.side, ClobOrderSide::Buy);
    assert_eq!(b.order_type, ClobOrderType::Market);
}

#[test]
fn clock_runs_forward_of_epoch() {
    let t = now_millis();
    assert!(t > 1_500_000_000_000);
}
