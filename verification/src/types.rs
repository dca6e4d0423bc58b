//! Data model: markets, outcome tokens, orders, trades, the shared bot state
//! and its risk configuration, together with the mathematical models
//! (`...Model` ghost structs) that all contracts are stated over.

use vstd::prelude::*;
use vstd::string::*;

use crate::fixed::{Dec, DEC_SCALE};
use crate::text::str_eq;

verus! {

/// Largest amount (in millionths) the core accounts for: one billion whole
/// units. Balances, sizes, volumes and per-trade ceilings stay below this, so
/// intermediate products fit comfortably in the machine integers.
pub const AMOUNT_CAP: u64 = 1_000_000_000_000_000;

/// Smallest scan interval the configuration accepts, in milliseconds.
pub const MIN_SCAN_MS: u64 = 100;

// ---------------------------------------------------------------------------
// Markets
// ---------------------------------------------------------------------------
/// One tradable claim on a market outcome; an immutable snapshot value.
#[derive(Debug)]
pub struct OutcomeToken {
    /// Outcome label, "YES" or "NO".
    pub outcome: String,
    /// Exchange-facing token identifier.
    pub token_id: String,
    /// Quoted price, a probability strictly between 0 and 1.
    pub price: Dec,
    pub supply: Dec,
}

pub ghost struct TokenModel {
    pub outcome: Seq<char>,
    pub token_id: Seq<char>,
    pub price: int,
    pub supply: int,
}

impl View for OutcomeToken {
    type V = TokenModel;

    open spec fn view(&self) -> TokenModel {
        TokenModel {
            outcome: self.outcome@,
            token_id: self.token_id@,
            price: self.price@,
            supply: self.supply@,
        }
    }
}

pub open spec fn token_wf(t: TokenModel) -> bool {
    &&& 0 < t.price < DEC_SCALE
    &&& 0 <= t.supply <= AMOUNT_CAP
}

/// A binary-outcome market snapshot.
#[derive(Debug)]
pub struct Market {
    pub id: String,
    pub question: String,
    pub description: String,
    /// At least two outcome tokens; the first two are the YES and NO legs.
    pub outcome_tokens: Vec<OutcomeToken>,
    pub volume: Dec,
    pub liquidity: Dec,
    /// Market close, in milliseconds since the epoch, if known.
    pub end_time_ms: Option<u64>,
    pub category: String,
    pub subcategory: String,
    pub active: bool,
}

pub ghost struct MarketModel {
    pub id: Seq<char>,
    pub question: Seq<char>,
    pub description: Seq<char>,
    pub tokens: Seq<TokenModel>,
    pub volume: int,
    pub liquidity: int,
    pub end_time_ms: Option<u64>,
    pub category: Seq<char>,
    pub subcategory: Seq<char>,
    pub active: bool,
}

impl View for Market {
    type V = MarketModel;

    open spec fn view(&self) -> MarketModel {
        MarketModel {
            id: self.id@,
            question: self.question@,
            description: self.description@,
            tokens: self.outcome_tokens@.map_values(|t: OutcomeToken| t@),
            volume: self.volume@,
            liquidity: self.liquidity@,
            end_time_ms: self.end_time_ms,
            category: self.category@,
            subcategory: self.subcategory@,
            active: self.active,
        }
    }
}

pub open spec fn market_wf(m: MarketModel) -> bool {
    &&& m.tokens.len() >= 2
    &&& forall|i: int| 0 <= i < m.tokens.len() ==> token_wf(#[trigger] m.tokens[i])
    &&& 0 <= m.volume <= AMOUNT_CAP
    &&& 0 <= m.liquidity <= AMOUNT_CAP
}

pub open spec fn market_models(v: Seq<Market>) -> Seq<MarketModel> {
    v.map_values(|m: Market| m@)
}

pub open spec fn markets_wf(v: Seq<MarketModel>) -> bool {
    forall|i: int| 0 <= i < v.len() ==> market_wf(#[trigger] v[i])
}

// ---------------------------------------------------------------------------
// Orders and trades
// ---------------------------------------------------------------------------
#[derive(Clone, Copy, Debug, PartialEq, Eq, Structural)]
pub enum OrderSide {
    Buy,
    Sell,
}

#[derive(Clone, Copy, Debug, PartialEq, Eq, Structural)]
pub enum OrderType {
    Market,
    Limit,
    PostOnly,
}

#[derive(Clone, Copy, Debug, PartialEq, Eq, Structural)]
pub enum OrderStatus {
    Pending,
    Filled,
    PartiallyFilled,
    Cancelled,
    Rejected,
}

/// An order as created by a strategy and handed to the gateway.
#[derive(Debug)]
pub struct Order {
    /// Client-side identifier; freshly drawn, so no contract pins it.
    pub id: String,
    pub token_id: String,
    pub side: OrderSide,
    pub price: Dec,
    pub size: Dec,
    pub order_type: OrderType,
    pub status: OrderStatus,
    pub created_at_ms: u64,
}

/// Everything about an order except its randomly drawn identifier.
pub ghost struct OrderModel {
    pub token_id: Seq<char>,
    pub side: OrderSide,
    pub price: int,
    pub size: int,
    pub order_type: OrderType,
    pub status: OrderStatus,
    pub created_at_ms: int,
}

pub open spec fn order_model(o: Order) -> OrderModel {
    OrderModel {
        token_id: o.token_id@,
        side: o.side,
        price: o.price@,
        size: o.size@,
        order_type: o.order_type,
        status: o.status,
        created_at_ms: o.created_at_ms as int,
    }
}

pub open spec fn order_models(v: Seq<Order>) -> Seq<OrderModel> {
    v.map_values(|o: Order| order_model(o))
}

/// One resolution level of an order book.
#[derive(Clone, Copy, Debug, PartialEq, Eq, Structural)]
pub struct OrderLevel {
    pub price: Dec,
    pub size: Dec,
    pub orders_count: u32,
}

/// An order-book snapshot for one token.
#[derive(Debug)]
pub struct OrderBook {
    pub token_id: String,
    pub bids: Vec<OrderLevel>,
    pub asks: Vec<OrderLevel>,
    pub last_update_ms: u64,
}

/// A realized fill record, kept purely for accounting and reporting.
#[derive(Debug)]
pub struct Trade {
    pub id: String,
    pub market_id: String,
    pub token_id: String,
    pub side: OrderSide,
    pub price: Dec,
    pub size: Dec,
    pub fee: Dec,
    pub profit_loss: Dec,
    pub strategy: String,
    pub timestamp_ms: u64,
}

/// Per-strategy tunables kept by a host; the keys are parameter names.
#[derive(Debug)]
pub struct StrategyConfig {
    pub enabled: bool,
    pub name: String,
    pub params: Vec<(String, Dec)>,
}

impl StrategyConfig {
    pub fn new(name: &str) -> (r: StrategyConfig)
        ensures
            r.enabled == false,
            r.name@ == name@,
            r.params@.len() == 0,
    {
        StrategyConfig { enabled: false, name: name.to_owned(), params: Vec::new() }
    }
}

// ---------------------------------------------------------------------------
// Risk configuration
// ---------------------------------------------------------------------------
/// Tunables governing all strategies; immutable within one scan cycle.
#[derive(Clone, Copy, Debug, PartialEq, Eq, Structural)]
pub struct RiskConfig {
    /// Largest position as a fraction of the balance, in (0, 1).
    pub max_position_size: Dec,
    /// Absolute per-trade ceiling.
    pub max_risk_per_trade: Dec,
    /// Arbitrage fires when the two legs together cost less than this.
    pub arb_threshold: Dec,
    /// Low-probability entry bound on the YES price.
    pub low_prob_threshold: Dec,
    /// Relative drop that triggers a scalping entry.
    pub scalping_drop_threshold: Dec,
    /// Scan interval in milliseconds.
    pub scan_frequency_ms: u64,
}

pub open spec fn risk_config_wf(c: RiskConfig) -> bool {
    &&& 0 < c.max_position_size@ < DEC_SCALE
    &&& 0 < c.max_risk_per_trade@ <= AMOUNT_CAP
    &&& 0 < c.arb_threshold@ < DEC_SCALE
    &&& 0 < c.low_prob_threshold@ < DEC_SCALE
    &&& 0 < c.scalping_drop_threshold@ < DEC_SCALE
    &&& c.scan_frequency_ms >= MIN_SCAN_MS
}

pub open spec fn spec_default_risk_config() -> RiskConfig {
    RiskConfig {
        max_position_size: Dec { units: 30_000 },  // 3% of the balance
        max_risk_per_trade: Dec { units: 5_000_000 },  // 5.00 per trade
        arb_threshold: Dec { units: 985_000 },  // 0.985
        low_prob_threshold: Dec { units: 25_000 },  // 0.025
        scalping_drop_threshold: Dec { units: 300_000 },  // 30%
        scan_frequency_ms: 1_000,
    }
}

impl Default for RiskConfig {
    fn default() -> (r: RiskConfig)
        ensures
            r == spec_default_risk_config(),
            risk_config_wf(r),
    {
        RiskConfig {
            max_position_size: Dec::new(30_000),
            max_risk_per_trade: Dec::new(5_000_000),
            arb_threshold: Dec::new(985_000),
            low_prob_threshold: Dec::new(25_000),
            scalping_drop_threshold: Dec::new(300_000),
            scan_frequency_ms: 1_000,
        }
    }
}

impl RiskConfig {
    /// Decides the well-formedness invariant, so unverified hosts can check
    /// a configuration before handing it to the core.
    pub fn is_wf(&self) -> (r: bool)
        ensures
            r == risk_config_wf(*self),
    {
        let c = *self;
        c.max_position_size.units > 0 && c.max_position_size.units < DEC_SCALE
            && c.max_risk_per_trade.units > 0 && c.max_risk_per_trade.units <= AMOUNT_CAP
            && c.arb_threshold.units > 0 && c.arb_threshold.units < DEC_SCALE
            && c.low_prob_threshold.units > 0 && c.low_prob_threshold.units < DEC_SCALE
            && c.scalping_drop_threshold.units > 0 && c.scalping_drop_threshold.units < DEC_SCALE
            && c.scan_frequency_ms >= MIN_SCAN_MS
    }
}

// ---------------------------------------------------------------------------
// Bot state
// ---------------------------------------------------------------------------
#[derive(Clone, Copy, Debug, PartialEq, Eq, Structural)]
pub enum BotMode {
    Paper,
    Live,
}

/// Run status of the engine loop.
#[derive(Debug)]
pub enum BotStatus {
    Stopped,
    Running,
    Error(String),
}

pub ghost enum StatusModel {
    Stopped,
    Running,
    Error(Seq<char>),
}

impl View for BotStatus {
    type V = StatusModel;

    open spec fn view(&self) -> StatusModel {
        match self {
            BotStatus::Stopped => StatusModel::Stopped,
            BotStatus::Running => StatusModel::Running,
            BotStatus::Error(msg) => StatusModel::Error(msg@),
        }
    }
}

/// Shared account and session state, mutated by the engine and by the
/// control surface under exclusive access.
#[derive(Debug)]
pub struct BotState {
    pub mode: BotMode,
    pub balance: Dec,
    /// Baseline for the profit-and-loss percentage.
    pub starting_balance: Dec,
    pub total_pnl: Dec,
    pub total_trades: u64,
    /// Codes of the enabled strategies; unique, order irrelevant.
    pub active_strategies: Vec<String>,
    pub status: BotStatus,
    pub risk_config: RiskConfig,
}

pub ghost struct StateModel {
    pub mode: BotMode,
    pub balance: int,
    pub starting_balance: int,
    pub total_pnl: int,
    pub total_trades: int,
    pub active: Seq<Seq<char>>,
    pub status: StatusModel,
    pub risk_config: RiskConfig,
}

impl View for BotState {
    type V = StateModel;

    open spec fn view(&self) -> StateModel {
        StateModel {
            mode: self.mode,
            balance: self.balance@,
            starting_balance: self.starting_balance@,
            total_pnl: self.total_pnl@,
            total_trades: self.total_trades as int,
            active: self.active_strategies@.map_values(|s: String| s@),
            status: self.status@,
            risk_config: self.risk_config,
        }
    }
}

/// Membership of a strategy code in the active set.
pub open spec fn has_code(active: Seq<Seq<char>>, code: Seq<char>) -> bool {
    exists|i: int| 0 <= i < active.len() && active[i] == code
}

pub open spec fn codes_unique(active: Seq<Seq<char>>) -> bool {
    forall|i: int, j: int| 0 <= i < j < active.len() ==> active[i] != active[j]
}

pub open spec fn state_wf(s: StateModel) -> bool {
    &&& 0 <= s.balance <= AMOUNT_CAP
    &&& 0 <= s.starting_balance <= AMOUNT_CAP
    &&& 0 <= s.total_pnl
    &&& 0 <= s.total_trades
    &&& codes_unique(s.active)
    &&& risk_config_wf(s.risk_config)
}

/// Exact effect of `reset_stats`: re-baseline, zero the counters, touch
/// nothing else.
pub open spec fn reset_model(s: StateModel) -> StateModel {
    StateModel { starting_balance: s.balance, total_pnl: 0, total_trades: 0, ..s }
}

/// Exact effect of `toggle_strategy`: `added` tells whether the code was
/// appended (it was absent) or removed (it was present, at the witnessed
/// index).
pub open spec fn toggle_rel(pre: StateModel, post: StateModel, code: Seq<char>, added: bool) -> bool {
    &&& added == !has_code(pre.active, code)
    &&& (if added {
        post.active == pre.active.push(code)
    } else {
        exists|i: int|
            0 <= i < pre.active.len() && pre.active[i] == code && post.active == pre.active.remove(
                i,
            )
    })
    &&& post == StateModel { active: post.active, ..pre }
}

impl BotState {
    /// Membership test against the active-strategy codes.
    pub fn contains_strategy(&self, code: &str) -> (r: bool)
        ensures
            r == has_code(self@.active, code@),
    {
        let n: usize = self.active_strategies.len();
        let mut i: usize = 0;
        while i < n
            invariant
                0 <= i <= n,
                n == self.active_strategies@.len(),
                forall|j: int| 0 <= j < i ==> self.active_strategies@[j]@ != code@,
            decreases n - i,
        {
            if str_eq(self.active_strategies[i].as_str(), code) {
                proof {
                    assert(self@.active[i as int] == code@);
                }
                return true;
            }
            i = i + 1;
        }
        proof {
            assert(forall|j: int|
                0 <= j < self@.active.len() ==> self@.active[j] != code@);
        }
        false
    }

    /// Flip the membership of `code` in the active set: remove it if present,
    /// append it if absent. Returns the new membership.
    pub fn toggle_strategy(&mut self, code: &str) -> (added: bool)
        requires
            codes_unique(old(self)@.active),
        ensures
            toggle_rel(old(self)@, final(self)@, code@, added),
            codes_unique(final(self)@.active),
            added == has_code(final(self)@.active, code@),
    {
        let n: usize = self.active_strategies.len();
        let mut i: usize = 0;
        while i < n
            invariant
                0 <= i <= n,
                *self == *old(self),
                codes_unique(old(self)@.active),
                n == self.active_strategies@.len(),
                forall|j: int| 0 <= j < i ==> self.active_strategies@[j]@ != code@,
            decreases n - i,
        {
            if str_eq(self.active_strategies[i].as_str(), code) {
                let ghost pre = self@;
                let ghost prevec = self.active_strategies@;
                let ghost k = i as int;
                self.active_strategies.remove(i);
                proof {
                    prevec.remove_ensures(k);
                    pre.active.remove_ensures(k);

                    assert forall|j: int| 0 <= j < pre.active.remove(k).len() implies self@.active[j] == pre.active.remove(k)[j] by {
                        if j < k {
                            assert(self.active_strategies@[j] == prevec[j]);
                        } else {
                            assert(self.active_strategies@[j] == prevec[j + 1]);
                        }
                    }
                    assert(self@.active =~= pre.active.remove(k));
                    assert(pre.active[k] == code@);
                    assert forall|a: int, b: int|
                        0 <= a < b < pre.active.remove(k).len() implies pre.active.remove(k)[a]
                        != pre.active.remove(k)[b] by {
                        if b < k {
                            assert(pre.active.remove(k)[a] == pre.active[a]);
                            assert(pre.active.remove(k)[b] == pre.active[b]);
                            assert(pre.active[a] != pre.active[b]);
                        } else if a < k {
                            assert(pre.active.remove(k)[a] == pre.active[a]);
                            assert(pre.active.remove(k)[b] == pre.active[b + 1]);
                            assert(pre.active[a] != pre.active[b + 1]);
                        } else {
                            assert(pre.active.remove(k)[a] == pre.active[a + 1]);
                            assert(pre.active.remove(k)[b] == pre.active[b + 1]);
                            assert(pre.active[a + 1] != pre.active[b + 1]);
                        }
                    }
                    assert(codes_unique(self@.active));
                    assert forall|j: int|
                        0 <= j < pre.active.remove(k).len() implies pre.active.remove(k)[j]
                        != code@ by {
                        if j < k {
                            assert(pre.active.remove(k)[j] == pre.active[j]);
                            assert(pre.active[j] != pre.active[k]);
                        } else {
                            assert(pre.active.remove(k)[j] == pre.active[j + 1]);
                            assert(pre.active[k] != pre.active[j + 1]);
                        }
                    }
                    assert(!has_code(self@.active, code@));
                }
                return false;
            }
            i = i + 1;
        }
        let ghost pre = self@;
        self.active_strategies.push(code.to_owned());
        proof {
            assert(self@.active =~= pre.active.push(code@));
            assert(has_code(self@.active, code@)) by {
                assert(self@.active[pre.active.len() as int] == code@);
            }
            assert forall|a: int, b: int|
                0 <= a < b < self@.active.len() implies self@.active[a] != self@.active[b] by {
                if b < pre.active.len() {
                    assert(pre.active[a] != pre.active[b]);
                } else {
                    assert(self@.active[b] == code@);
                    assert(self@.active[a] == pre.active[a]);
                    assert(pre.active[a] != code@);
                }
            }
        }
        true
    }

    /// Re-baseline the statistics: the starting balance becomes the current
    /// balance, profit-and-loss and the trade counter are cleared. Active
    /// strategies, mode, balance and risk configuration are untouched.
    pub fn reset_stats(&mut self)
        ensures
            final(self)@ == reset_model(old(self)@),
    {
        self.starting_balance = self.balance;
        self.total_pnl = Dec::zero();
        self.total_trades = 0;
    }

    pub fn set_status(&mut self, status: BotStatus)
        ensures
            final(self)@ == (StateModel { status: status@, ..old(self)@ }),
    {
        self.status = status;
    }

    /// Replace the whole risk configuration.
    pub fn update_risk_config(&mut self, config: RiskConfig)
        ensures
            final(self)@ == (StateModel { risk_config: config, ..old(self)@ }),
    {
        self.risk_config = config;
    }

    /// A full, consistent copy of the state, so callers never observe a
    /// partially updated snapshot.
    pub fn snapshot(&self) -> (r: BotState)
        ensures
            r@ == self@,
    {
        let status: BotStatus = match &self.status {
            BotStatus::Stopped => BotStatus::Stopped,
            BotStatus::Running => BotStatus::Running,
            BotStatus::Error(msg) => BotStatus::Error(msg.clone()),
        };
        let n: usize = self.active_strategies.len();
        let mut active: Vec<String> = Vec::new();
        let mut i: usize = 0;
        while i < n
            invariant
                0 <= i <= n,
                n == self.active_strategies@.len(),
                active@.len() == i,
                forall|j: int| 0 <= j < i ==> active@[j] == self.active_strategies@[j],
            decreases n - i,
        {
            active.push(self.active_strategies[i].clone());
            i = i + 1;
        }
        proof {
            assert(active@ =~= self.active_strategies@);
        }
        BotState {
            mode: self.mode,
            balance: self.balance,
            starting_balance: self.starting_balance,
            total_pnl: self.total_pnl,
            total_trades: self.total_trades,
            active_strategies: active,
            status,
            risk_config: self.risk_config,
        }
    }
}

// ---------------------------------------------------------------------------
// Laws about the state operations
// ---------------------------------------------------------------------------
/// Toggling the same strategy code twice restores the membership there was
/// before: of the toggled code, and of every other code as well, while every
/// other state component stays what it was.
pub proof fn lemma_toggle_strategy_self_inverse(
    s0: StateModel,
    s1: StateModel,
    s2: StateModel,
    code: Seq<char>,
    r1: bool,
    r2: bool,
)
    requires
        codes_unique(s0.active),
        toggle_rel(s0, s1, code, r1),
        codes_unique(s1.active),
        toggle_rel(s1, s2, code, r2),
    ensures
        r2 == !r1,
        has_code(s2.active, code) == has_code(s0.active, code),
        forall|c: Seq<char>| (#[trigger] has_code(s2.active, c)) == has_code(s0.active, c),
        s2 == (StateModel { active: s2.active, ..s0 }),
{
    if r1 {
        // First toggle appended `code`; the second must remove it, and the
        // only occurrence is the appended one at the end.
        assert(s1.active == s0.active.push(code));
        assert(has_code(s1.active, code)) by {
            assert(s1.active[s0.active.len() as int] == code);
        }
        let i = choose|i: int|
            0 <= i < s1.active.len() && s1.active[i] == code && s2.active == s1.active.remove(i);
        s1.active.remove_ensures(i);
        if i < s0.active.len() {
            assert(s0.active[i] == s1.active[i]);
            assert(has_code(s0.active, code));
            assert(false);
        }
        assert(i == s0.active.len());
        assert(s2.active =~= s0.active);
    } else {
        // First toggle removed the only occurrence; the second appends it.
        let i = choose|i: int|
            0 <= i < s0.active.len() && s0.active[i] == code && s1.active == s0.active.remove(i);
        s0.active.remove_ensures(i);
        assert forall|j: int| 0 <= j < s1.active.len() implies s1.active[j] != code by {
            assert(s1.active[j] == if j < i {
                s0.active[j]
            } else {
                s0.active[j + 1]
            });
        }
        assert(!has_code(s1.active, code));
        assert(s2.active == s1.active.push(code));
        assert(has_code(s0.active, code));
        assert(has_code(s2.active, code)) by {
            assert(s2.active[s1.active.len() as int] == code);
        }
        assert forall|c: Seq<char>| (#[trigger] has_code(s2.active, c)) == has_code(
            s0.active,
            c,
        ) by {
            if c == code {
            } else {
                if has_code(s0.active, c) {
                    let j = choose|j: int| 0 <= j < s0.active.len() && s0.active[j] == c;
                    if j < i {
                        assert(s1.active[j] == c);
                        assert(s2.active[j] == c);
                    } else {
                        assert(j != i);
                        assert(s1.active[j - 1] == c);
                        assert(s2.active[j - 1] == c);
                    }
                    assert(has_code(s2.active, c));
                }
                if has_code(s2.active, c) {
                    let j = choose|j: int| 0 <= j < s2.active.len() && s2.active[j] == c;
                    assert(j < s1.active.len());
                    assert(s1.active[j] == c);
                    if j < i {
                        assert(s0.active[j] == c);
                    } else {
                        assert(s0.active[j + 1] == c);
                    }
                    assert(has_code(s0.active, c));
                }
            }
        }
    }
}

/// `reset_stats` is idempotent: resetting an already reset state changes
/// nothing, and a reset never touches the active strategies or the mode.
pub proof fn lemma_reset_stats_idempotent(s: StateModel)
    ensures
        reset_model(reset_model(s)) == reset_model(s),
        reset_model(s).active == s.active,
        reset_model(s).mode == s.mode,
        reset_model(s).balance == s.balance,
        reset_model(s).status == s.status,
        reset_model(s).risk_config == s.risk_config,
{
}

} // verus!
