//! Order-execution gateway and market-data source.
//!
//! The gateway has two modes, chosen at construction. In paper mode an order
//! is assigned a synthetic identifier and treated as an immediate fill, with
//! no external call and no effect on shared state. In live mode nothing is
//! submitted from here: an order is translated into its exchange-native form
//! ([`LiveOrderRequest`]) and the host transport performs the signed
//! submission.
//!
//! Market data comes from a built-in fixture snapshot, or from a snapshot a
//! host plugs in; either way callers get a consistent, well-formed list.

use vstd::prelude::*;
use vstd::string::*;

use crate::errors::{ConfigError, ExecutionError};
use crate::fixed::Dec;
use crate::types::{
    market_models, markets_wf, order_model, Market, MarketModel, Order, OrderModel, OrderSide,
    OrderType, OutcomeToken, TokenModel,
};

verus! {

/// Simulated balance used by paper mode: 300.00.
pub const PAPER_BALANCE_UNITS: u64 = 300_000_000;

/// Latest instant the core accounts for, in milliseconds since the epoch
/// (several decades out); keeps deadline arithmetic away from overflow.
pub const MAX_NOW_MS: u64 = 4_000_000_000_000;

// ---------------------------------------------------------------------------
// Trusted wrappers around outside calls
// ---------------------------------------------------------------------------
/// Relies on `uuid::Uuid::new_v4` and its hyphenated `Display` form: a fresh
/// random identifier, always 36 characters. The value itself is random, so
/// nothing more is promised. Aborts only if the operating system's
/// randomness source fails — an environmental condition, not a function of
/// any input.
#[verifier::external_body]
fn fresh_uuid() -> (r: String)
    ensures
        r@.len() == 36,
{
    uuid::Uuid::new_v4().to_string()
}

/// Relies on `chrono::Utc::now`: the wall clock in milliseconds since the
/// epoch. The value depends on the clock, so nothing is promised about it;
/// it panics only if the system clock is set before the epoch — an
/// environmental condition, not a function of any input.
#[verifier::external_body]
pub fn now_millis() -> (r: u64)
{
    chrono::Utc::now().timestamp_millis() as u64
}

/// A fresh client-side order identifier.
pub(crate) fn fresh_order_id() -> (r: String)
    ensures
        r@.len() == 36,
{
    fresh_uuid()
}

#[verifier::external_type_specification]
#[verifier::external_body]
pub struct ExFromHexError(hex::FromHexError);

pub open spec fn is_hex_digit(c: char) -> bool {
    (48 <= c as u32 <= 57) || (65 <= c as u32 <= 70) || (97 <= c as u32 <= 102)
}

pub open spec fn hex_val(c: char) -> int {
    if 48 <= c as u32 <= 57 {
        c as u32 - 48
    } else if 65 <= c as u32 <= 70 {
        c as u32 - 55
    } else {
        c as u32 - 87
    }
}

pub open spec fn valid_hex(s: Seq<char>) -> bool {
    &&& s.len() % 2 == 0
    &&& forall|i: int| 0 <= i < s.len() ==> is_hex_digit(#[trigger] s[i])
}

/// The bytes a hex string denotes, high nibble first.
pub open spec fn hex_bytes(s: Seq<char>) -> Seq<u8> {
    Seq::new(s.len() / 2, |i: int| (hex_val(s[2 * i]) * 16 + hex_val(s[2 * i + 1])) as u8)
}

/// Relies on `hex::decode`: it succeeds exactly on an even number of hex
/// digits (any other character, in any encoding, contributes bytes that are
/// not hex digits), and then yields one byte per digit pair, high nibble
/// first.
#[verifier::external_body]
fn hex_decode(s: &str) -> (r: Result<Vec<u8>, hex::FromHexError>)
    ensures
        r is Ok <==> valid_hex(s@),
        r is Ok ==> r->Ok_0@ == hex_bytes(s@),
{
    hex::decode(s)
}

// ---------------------------------------------------------------------------
// Signing-key validation
// ---------------------------------------------------------------------------
/// `s` with every leading "0x" removed.
pub open spec fn strip_0x(s: Seq<char>) -> Seq<char>
    decreases s.len(),
{
    if s.len() >= 2 && s[0] == '0' && s[1] == 'x' {
        strip_0x(s.skip(2))
    } else {
        s
    }
}

fn strip_hex_prefix(s: &str) -> (r: &str)
    ensures
        r@ == strip_0x(s@),
    decreases s@.len(),
{
    let n: usize = s.unicode_len();
    if n >= 2 {
        let c0: char = s.get_char(0);
        let c1: char = s.get_char(1);
        if c0 == '0' && c1 == 'x' {
            let rest: &str = s.substring_char(2, n);
            proof {
                assert(rest@ =~= s@.skip(2));
            }
            return strip_hex_prefix(rest);
        }
    }
    s
}

/// A signing key is acceptable when, after any "0x" prefixes, it is exactly
/// 64 hex digits (32 bytes).
pub open spec fn key_acceptable(key: Seq<char>) -> bool {
    valid_hex(strip_0x(key)) && strip_0x(key).len() == 64
}

/// Check a signing key and return its raw bytes.
pub fn validate_private_key(key: &str) -> (r: Result<Vec<u8>, ConfigError>)
    ensures
        r is Ok <==> key_acceptable(key@),
        r is Ok ==> r->Ok_0@ == hex_bytes(strip_0x(key@)),
        r is Err ==> r->Err_0 == ConfigError::InvalidPrivateKey,
{
    let stripped: &str = strip_hex_prefix(key);
    match hex_decode(stripped) {
        Ok(bytes) => {
            if bytes.len() == 32 {
                Ok(bytes)
            } else {
                Err(ConfigError::InvalidPrivateKey)
            }
        },
        Err(_) => Err(ConfigError::InvalidPrivateKey),
    }
}

// ---------------------------------------------------------------------------
// Exchange-native order form
// ---------------------------------------------------------------------------
/// Order side in the exchange's own vocabulary.
#[derive(Clone, Copy, Debug, PartialEq, Eq, Structural)]
pub enum ClobOrderSide {
    Buy,
    Sell,
}

/// Order type in the exchange's own vocabulary.
#[derive(Clone, Copy, Debug, PartialEq, Eq, Structural)]
pub enum ClobOrderType {
    Market,
    Limit,
    PostOnly,
}

pub open spec fn translate_side(s: OrderSide) -> ClobOrderSide {
    match s {
        OrderSide::Buy => ClobOrderSide::Buy,
        OrderSide::Sell => ClobOrderSide::Sell,
    }
}

pub open spec fn translate_type(t: OrderType) -> ClobOrderType {
    match t {
        OrderType::Market => ClobOrderType::Market,
        OrderType::Limit => ClobOrderType::Limit,
        OrderType::PostOnly => ClobOrderType::PostOnly,
    }
}

/// An order translated for signed submission by the host transport.
#[derive(Debug)]
pub struct LiveOrderRequest {
    pub token_id: String,
    pub side: ClobOrderSide,
    pub order_type: ClobOrderType,
    pub price: Dec,
    pub size: Dec,
}

pub ghost struct LiveRequestModel {
    pub token_id: Seq<char>,
    pub side: ClobOrderSide,
    pub order_type: ClobOrderType,
    pub price: int,
    pub size: int,
}

impl View for LiveOrderRequest {
    type V = LiveRequestModel;

    open spec fn view(&self) -> LiveRequestModel {
        LiveRequestModel {
            token_id: self.token_id@,
            side: self.side,
            order_type: self.order_type,
            price: self.price@,
            size: self.size@,
        }
    }
}

/// The exchange-native form of an order.
pub open spec fn spec_live_request(o: OrderModel) -> LiveRequestModel {
    LiveRequestModel {
        token_id: o.token_id,
        side: translate_side(o.side),
        order_type: translate_type(o.order_type),
        price: o.price,
        size: o.size,
    }
}

/// Translate an order into its exchange-native form.
pub fn to_live_request(o: &Order) -> (r: LiveOrderRequest)
    ensures
        r@ == spec_live_request(order_model(*o)),
{
    let side: ClobOrderSide = match o.side {
        OrderSide::Buy => ClobOrderSide::Buy,
        OrderSide::Sell => ClobOrderSide::Sell,
    };
    let order_type: ClobOrderType = match o.order_type {
        OrderType::Market => ClobOrderType::Market,
        OrderType::Limit => ClobOrderType::Limit,
        OrderType::PostOnly => ClobOrderType::PostOnly,
    };
    LiveOrderRequest {
        token_id: o.token_id.clone(),
        side,
        order_type,
        price: o.price,
        size: o.size,
    }
}

// ---------------------------------------------------------------------------
// The fixture market snapshot
// ---------------------------------------------------------------------------
/// The built-in demonstration snapshot: a short-horizon crypto market and a
/// long-running election market, both priced to sum to 1.
pub open spec fn mock_markets(now_ms: u64) -> Seq<MarketModel> {
    seq![
        MarketModel {
            id: "crypto-15min-spike"@,
            question: "Will the coin spike within 15 minutes?"@,
            description: "Short-horizon crypto move"@,
            tokens: seq![
                TokenModel {
                    outcome: "YES"@,
                    token_id: "yes-crypto-15min"@,
                    price: 450_000 as int,
                    supply: 1_000_000_000_000 as int,
                },
                TokenModel {
                    outcome: "NO"@,
                    token_id: "no-crypto-15min"@,
                    price: 550_000 as int,
                    supply: 980_000_000_000 as int,
                },
            ],
            volume: 2_500_000_000_000 as int,
            liquidity: 500_000_000_000 as int,
            end_time_ms: Some((now_ms + 900_000) as u64),
            category: "Crypto"@,
            subcategory: "15-min"@,
            active: true,
        },
        MarketModel {
            id: "election-major"@,
            question: "Will the incumbent win the election?"@,
            description: "Major national election"@,
            tokens: seq![
                TokenModel {
                    outcome: "YES"@,
                    token_id: "yes-election-major"@,
                    price: 620_000 as int,
                    supply: 5_000_000_000_000 as int,
                },
                TokenModel {
                    outcome: "NO"@,
                    token_id: "no-election-major"@,
                    price: 380_000 as int,
                    supply: 4_800_000_000_000 as int,
                },
            ],
            volume: 15_000_000_000_000 as int,
            liquidity: 2_000_000_000_000 as int,
            end_time_ms: Some((now_ms + 2_592_000_000) as u64),
            category: "Politics"@,
            subcategory: "Elections"@,
            active: true,
        },
    ]
}

pub proof fn lemma_mock_markets_wf(now_ms: u64)
    ensures
        markets_wf(mock_markets(now_ms)),
{
    let m = mock_markets(now_ms);
    assert(m.len() == 2);
    assert forall|i: int| 0 <= i < m.len() implies crate::types::market_wf(#[trigger] m[i]) by {
        assert(m[0].tokens.len() == 2);
        assert(m[1].tokens.len() == 2);
        assert(crate::types::token_wf(m[0].tokens[0]));
        assert(crate::types::token_wf(m[0].tokens[1]));
        assert(crate::types::token_wf(m[1].tokens[0]));
        assert(crate::types::token_wf(m[1].tokens[1]));
    }
}

fn build_token(outcome: &str, token_id: &str, price_units: u64, supply_units: u64) -> (r:
    OutcomeToken)
    ensures
        r@ == (TokenModel {
            outcome: outcome@,
            token_id: token_id@,
            price: price_units as int,
            supply: supply_units as int,
        }),
{
    OutcomeToken {
        outcome: outcome.to_owned(),
        token_id: token_id.to_owned(),
        price: Dec::new(price_units),
        supply: Dec::new(supply_units),
    }
}

/// Build the fixture snapshot as concrete values.
fn build_mock_markets(now_ms: u64) -> (r: Vec<Market>)
    requires
        now_ms <= MAX_NOW_MS,
    ensures
        market_models(r@) == mock_markets(now_ms),
{
    let mut tokens0: Vec<OutcomeToken> = Vec::new();
    tokens0.push(build_token("YES", "yes-crypto-15min", 450_000, 1_000_000_000_000));
    tokens0.push(build_token("NO", "no-crypto-15min", 550_000, 980_000_000_000));
    let m0 = Market {
        id: String::from_str("crypto-15min-spike"),
        question: String::from_str("Will the coin spike within 15 minutes?"),
        description: String::from_str("Short-horizon crypto move"),
        outcome_tokens: tokens0,
        volume: Dec::new(2_500_000_000_000),
        liquidity: Dec::new(500_000_000_000),
        end_time_ms: Some(now_ms + 900_000),
        category: String::from_str("Crypto"),
        subcategory: String::from_str("15-min"),
        active: true,
    };
    let mut tokens1: Vec<OutcomeToken> = Vec::new();
    tokens1.push(build_token("YES", "yes-election-major", 620_000, 5_000_000_000_000));
    tokens1.push(build_token("NO", "no-election-major", 380_000, 4_800_000_000_000));
    let m1 = Market {
        id: String::from_str("election-major"),
        question: String::from_str("Will the incumbent win the election?"),
        description: String::from_str("Major national election"),
        outcome_tokens: tokens1,
        volume: Dec::new(15_000_000_000_000),
        liquidity: Dec::new(2_000_000_000_000),
        end_time_ms: Some(now_ms + 2_592_000_000),
        category: String::from_str("Politics"),
        subcategory: String::from_str("Elections"),
        active: true,
    };
    let mut r: Vec<Market> = Vec::new();
    r.push(m0);
    r.push(m1);
    proof {
        assert(r@[0]@.tokens =~= mock_markets(now_ms)[0].tokens);
        assert(r@[1]@.tokens =~= mock_markets(now_ms)[1].tokens);
        assert(r@[0]@ == mock_markets(now_ms)[0]);
        assert(r@[1]@ == mock_markets(now_ms)[1]);
        assert(market_models(r@) =~= mock_markets(now_ms));
    }
    r
}

// ---------------------------------------------------------------------------
// The gateway
// ---------------------------------------------------------------------------
/// Mode-aware execution gateway and market-data source.
#[derive(Debug)]
pub struct PolymarketClob {
    /// True for paper (simulated) mode, false for live.
    paper_mode: bool,
    /// A snapshot plugged in by the host; `None` means the built-in fixture.
    fixture: Option<Vec<Market>>,
    /// The markets seen by the latest fetch.
    markets_cache: Vec<Market>,
}

pub ghost struct ClobModel {
    pub paper: bool,
    pub fixture: Option<Seq<MarketModel>>,
    pub cache: Seq<MarketModel>,
}

impl View for PolymarketClob {
    type V = ClobModel;

    closed spec fn view(&self) -> ClobModel {
        ClobModel {
            paper: self.paper_mode,
            fixture: match self.fixture {
                Some(v) => Some(market_models(v@)),
                None => None,
            },
            cache: market_models(self.markets_cache@),
        }
    }
}

/// Any plugged-in snapshot is well-formed.
pub open spec fn clob_wf(c: ClobModel) -> bool {
    c.fixture matches Some(f) ==> markets_wf(f)
}

/// What a fetch returns: the plugged-in snapshot if any, else the fixture.
pub open spec fn spec_fetched(c: ClobModel, now_ms: u64) -> Seq<MarketModel> {
    match c.fixture {
        Some(f) => f,
        None => mock_markets(now_ms),
    }
}

impl PolymarketClob {
    /// Build a gateway after checking the signing key, as the live signed
    /// path demands a key in either mode.
    pub fn new(private_key: &str, paper_mode: bool) -> (r: Result<PolymarketClob, ConfigError>)
        ensures
            r is Ok <==> key_acceptable(private_key@),
            r is Ok ==> r->Ok_0@ == (ClobModel {
                paper: paper_mode,
                fixture: None,
                cache: Seq::<MarketModel>::empty(),
            }),
            r is Ok ==> clob_wf(r->Ok_0@),
            r is Err ==> r->Err_0 == ConfigError::InvalidPrivateKey,
    {
        match validate_private_key(private_key) {
            Ok(_) => {
                let c = PolymarketClob { paper_mode, fixture: None, markets_cache: Vec::new() };
                proof {
                    assert(c@.cache =~= Seq::<MarketModel>::empty());
                }
                Ok(c)
            },
            Err(e) => Err(e),
        }
    }

    pub fn is_paper(&self) -> (r: bool)
        ensures
            r == self@.paper,
    {
        self.paper_mode
    }

    /// Rebuild the gateway in the given mode: the explicit, atomic mode
    /// switch. Any plugged-in snapshot and the cache carry over.
    pub fn set_paper(&mut self, paper_mode: bool)
        ensures
            final(self)@ == (ClobModel { paper: paper_mode, ..old(self)@ }),
            clob_wf(old(self)@) ==> clob_wf(final(self)@),
    {
        self.paper_mode = paper_mode;
    }

    /// Plug in a market snapshot that future fetches return instead of the
    /// built-in fixture.
    pub fn set_market_fixture(&mut self, markets: Vec<Market>)
        requires
            markets_wf(market_models(markets@)),
        ensures
            final(self)@ == (ClobModel { fixture: Some(market_models(markets@)), ..old(self)@ }),
            clob_wf(final(self)@),
    {
        self.fixture = Some(markets);
    }

    /// A consistent snapshot of the tradable markets; also remembered as the
    /// latest cache.
    pub fn fetch_markets(&mut self, now_ms: u64) -> (r: Vec<Market>)
        requires
            now_ms <= MAX_NOW_MS,
            clob_wf(old(self)@),
        ensures
            market_models(r@) == spec_fetched(old(self)@, now_ms),
            markets_wf(market_models(r@)),
            final(self)@ == (ClobModel { cache: market_models(r@), ..old(self)@ }),
            clob_wf(final(self)@),
    {
        let r: Vec<Market> = match &self.fixture {
            Some(v) => clone_markets(v),
            None => build_mock_markets(now_ms),
        };
        let cache: Vec<Market> = clone_markets(&r);
        self.markets_cache = cache;
        proof {
            lemma_mock_markets_wf(now_ms);
        }
        r
    }

    /// Place an order. Paper mode assigns a fresh synthetic identifier and
    /// treats the order as immediately filled; shared account state is never
    /// touched from here. Live submission is the host transport's job, so in
    /// live mode this reports [`ExecutionError::RequiresLiveTransport`].
    pub fn place_order(&self, order: &Order) -> (r: Result<String, ExecutionError>)
        ensures
            self@.paper ==> r is Ok,
            r is Ok ==> self@.paper && r->Ok_0@.len() == 42 && r->Ok_0@.subrange(0, 6)
                == "paper_"@,
            !self@.paper ==> r is Err && r->Err_0 == ExecutionError::RequiresLiveTransport,
    {
        if self.paper_mode {
            let u: String = fresh_uuid();
            let id: String = String::from_str("paper_").concat(u.as_str());
            proof {
                reveal_strlit("paper_");
                assert(id@.subrange(0, 6) =~= "paper_"@);
            }
            Ok(id)
        } else {
            Err(ExecutionError::RequiresLiveTransport)
        }
    }

    /// The account balance: fixed and synthetic in paper mode; a live query
    /// goes through the host transport.
    pub fn get_balance(&self) -> (r: Result<Dec, ExecutionError>)
        ensures
            self@.paper ==> r is Ok && r->Ok_0@ == PAPER_BALANCE_UNITS,
            !self@.paper ==> r is Err && r->Err_0 == ExecutionError::RequiresLiveTransport,
    {
        if self.paper_mode {
            Ok(Dec::new(PAPER_BALANCE_UNITS))
        } else {
            Err(ExecutionError::RequiresLiveTransport)
        }
    }
}

/// Copy a market list value for value.
fn clone_markets(v: &Vec<Market>) -> (r: Vec<Market>)
    ensures
        market_models(r@) == market_models(v@),
{
    let n: usize = v.len();
    let mut r: Vec<Market> = Vec::new();
    let mut i: usize = 0;
    while i < n
        invariant
            0 <= i <= n,
            n == v@.len(),
            r@.len() == i,
            forall|j: int| 0 <= j < i ==> (#[trigger] r@[j])@ == v@[j]@,
        decreases n - i,
    {
        r.push(clone_market(&v[i]));
        i = i + 1;
    }
    proof {
        assert(market_models(r@) =~= market_models(v@));
    }
    r
}

fn clone_token(t: &OutcomeToken) -> (r: OutcomeToken)
    ensures
        r@ == t@,
{
    OutcomeToken {
        outcome: t.outcome.clone(),
        token_id: t.token_id.clone(),
        price: t.price,
        supply: t.supply,
    }
}

fn clone_market(m: &Market) -> (r: Market)
    ensures
        r@ == m@,
{
    let n: usize = m.outcome_tokens.len();
    let mut tokens: Vec<OutcomeToken> = Vec::new();
    let mut i: usize = 0;
    while i < n
        invariant
            0 <= i <= n,
            n == m.outcome_tokens@.len(),
            tokens@.len() == i,
            forall|j: int| 0 <= j < i ==> (#[trigger] tokens@[j])@ == m.outcome_tokens@[j]@,
        decreases n - i,
    {
        tokens.push(clone_token(&m.outcome_tokens[i]));
        i = i + 1;
    }
    let r = Market {
        id: m.id.clone(),
        question: m.question.clone(),
        description: m.description.clone(),
        outcome_tokens: tokens,
        volume: m.volume,
        liquidity: m.liquidity,
        end_time_ms: match m.end_time_ms {
            Some(t) => Some(t),
            None => None,
        },
        category: m.category.clone(),
        subcategory: m.subcategory.clone(),
        active: m.active,
    };
    proof {
        assert(r@.tokens =~= m@.tokens);
    }
    r
}

} // verus!
