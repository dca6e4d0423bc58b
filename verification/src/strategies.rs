//! The four trading strategies and the scan-cycle engine.
//!
//! Each strategy is pure decision logic: from a market snapshot, the risk
//! configuration and the current balance it computes [`TradePlan`]s — the
//! orders to submit plus the accounting to apply once every leg of the plan
//! is placed. In paper mode the engine places the orders on the simulated
//! gateway and applies the accounting at once; in live mode the plans are
//! handed to the host transport, which reports outcomes back through
//! [`StrategyEngine::apply_plan_outcome`].

use vstd::prelude::*;
use vstd::string::*;

use crate::clob::{clob_wf, spec_fetched, ClobModel, PolymarketClob, MAX_NOW_MS};
use crate::fixed::{
    dec_div_down, dec_mul_down, int_min, lemma_div_down_part, lemma_mul_down_ge_one_factor,
    lemma_mul_down_le_double, lemma_mul_down_le_left, lemma_mul_down_le_right, Dec, DEC_SCALE,
};
use crate::text::str_eq;
use crate::types::{
    has_code, market_models, market_wf, markets_wf, order_models, risk_config_wf, BotState,
    BotStatus, Market, MarketModel, Order, OrderModel, OrderSide, OrderStatus, OrderType,
    RiskConfig, StateModel, TokenModel, AMOUNT_CAP,
};

verus! {

/// Delay before a scalping exit fires, in milliseconds.
pub const SCALP_EXIT_DELAY_MS: u64 = 30_000;

/// Scalping exit target: 1.15 times the entry price.
pub const SCALP_EXIT_TARGET: u64 = 1_150_000;

/// Rolling window of observed prices kept per market.
pub const SCALP_WINDOW: usize = 30;

/// Samples needed before drop detection runs.
pub const SCALP_LOOKBACK: usize = 10;

/// Market-making volume floor: only markets above 1,000,000.00 in volume.
pub const MM_VOLUME_FLOOR: u64 = 1_000_000_000_000;

/// Market-making spread: 2% of the mid price.
pub const MM_SPREAD_FRACTION: u64 = 20_000;

// ---------------------------------------------------------------------------
// Trade plans and scheduled exits
// ---------------------------------------------------------------------------
/// A deferred scalping exit: after the delay, a limit sell at the target and
/// the realized profit booked on success.
#[derive(Debug)]
pub struct ScheduledExit {
    pub market_id: String,
    pub token_id: String,
    pub entry_price: Dec,
    pub size: Dec,
    /// When the exit is due, in milliseconds since the epoch.
    pub due_ms: u64,
}

pub ghost struct ExitModel {
    pub market_id: Seq<char>,
    pub token_id: Seq<char>,
    pub entry_price: int,
    pub size: int,
    pub due_ms: int,
}

impl View for ScheduledExit {
    type V = ExitModel;

    open spec fn view(&self) -> ExitModel {
        ExitModel {
            market_id: self.market_id@,
            token_id: self.token_id@,
            entry_price: self.entry_price@,
            size: self.size@,
            due_ms: self.due_ms as int,
        }
    }
}

/// Orders to submit together, and the accounting owed once all of them are
/// placed: the profit-and-loss credit, the trade-count increment, and a
/// deferred exit to schedule.
#[derive(Debug)]
pub struct TradePlan {
    pub orders: Vec<Order>,
    pub pnl_delta: Dec,
    pub trades_delta: u64,
    pub exit: Option<ScheduledExit>,
}

pub ghost struct PlanModel {
    pub orders: Seq<OrderModel>,
    pub pnl_delta: int,
    pub trades_delta: int,
    pub exit: Option<ExitModel>,
}

impl View for TradePlan {
    type V = PlanModel;

    open spec fn view(&self) -> PlanModel {
        PlanModel {
            orders: order_models(self.orders@),
            pnl_delta: self.pnl_delta@,
            trades_delta: self.trades_delta as int,
            exit: match self.exit {
                Some(e) => Some(e@),
                None => None,
            },
        }
    }
}

pub open spec fn plan_models(v: Seq<TradePlan>) -> Seq<PlanModel> {
    v.map_values(|p: TradePlan| p@)
}

/// Total profit-and-loss credit owed by a list of plans.
pub open spec fn plans_pnl(ps: Seq<PlanModel>) -> int
    decreases ps.len(),
{
    if ps.len() == 0 {
        0
    } else {
        ps[0].pnl_delta + plans_pnl(ps.drop_first())
    }
}

/// Total trade-count increment owed by a list of plans.
pub open spec fn plans_trades(ps: Seq<PlanModel>) -> int
    decreases ps.len(),
{
    if ps.len() == 0 {
        0
    } else {
        ps[0].trades_delta + plans_trades(ps.drop_first())
    }
}

/// A queued exit is priced inside the unit interval and sized within the
/// accounting cap.
pub open spec fn exit_wf(e: ExitModel) -> bool {
    &&& 0 < e.entry_price < DEC_SCALE
    &&& 0 < e.size <= AMOUNT_CAP
}

/// Safety bounds every emitted plan obeys: accounting deltas are small and
/// non-negative, every order has a positive size within the per-trade
/// ceiling (or the stated strategy-specific multiple of it), and any
/// deferred exit is well-formed.
pub open spec fn plan_safe(p: PlanModel, cfg: RiskConfig) -> bool {
    &&& 0 <= p.pnl_delta <= AMOUNT_CAP
    &&& 0 <= p.trades_delta <= 2
    &&& forall|k: int|
        0 <= k < p.orders.len() ==> 0 < (#[trigger] p.orders[k]).size <= 2
            * cfg.max_risk_per_trade@
    &&& (p.exit matches Some(e) ==> exit_wf(e))
}

/// The accounting deltas of every plan are non-negative.
pub open spec fn plans_deltas_nonneg(ps: Seq<PlanModel>) -> bool {
    forall|i: int|
        0 <= i < ps.len() ==> 0 <= (#[trigger] ps[i]).pnl_delta && 0 <= ps[i].trades_delta
}

pub proof fn lemma_plans_sums_nonneg(ps: Seq<PlanModel>)
    requires
        plans_deltas_nonneg(ps),
    ensures
        plans_pnl(ps) >= 0,
        plans_trades(ps) >= 0,
    decreases ps.len(),
{
    if ps.len() > 0 {
        assert(plans_deltas_nonneg(ps.drop_first())) by {
            assert forall|i: int|
                0 <= i < ps.drop_first().len() implies 0 <= (
            #[trigger] ps.drop_first()[i]).pnl_delta && 0 <= ps.drop_first()[i].trades_delta by {
                assert(ps.drop_first()[i] == ps[i + 1]);
            }
        }
        lemma_plans_sums_nonneg(ps.drop_first());
    }
}

/// Sums over plans split across concatenation.
pub proof fn lemma_plans_sum_concat(a: Seq<PlanModel>, b: Seq<PlanModel>)
    ensures
        plans_pnl(a + b) == plans_pnl(a) + plans_pnl(b),
        plans_trades(a + b) == plans_trades(a) + plans_trades(b),
    decreases a.len(),
{
    if a.len() == 0 {
        assert(a + b =~= b);
    } else {
        assert((a + b).drop_first() =~= a.drop_first() + b);
        assert((a + b)[0] == a[0]);
        lemma_plans_sum_concat(a.drop_first(), b);
    }
}

pub open spec fn plans_safe(ps: Seq<PlanModel>, cfg: RiskConfig) -> bool {
    forall|i: int| 0 <= i < ps.len() ==> plan_safe(#[trigger] ps[i], cfg)
}

/// Decomposition used by the application loops: the plans still to apply.
pub proof fn lemma_plans_sum_step(ps: Seq<PlanModel>, i: int)
    requires
        0 <= i < ps.len(),
    ensures
        plans_pnl(ps.skip(i)) == ps[i].pnl_delta + plans_pnl(ps.skip(i + 1)),
        plans_trades(ps.skip(i)) == ps[i].trades_delta + plans_trades(ps.skip(i + 1)),
{
    assert(ps.skip(i).len() == ps.len() - i);
    assert(ps.skip(i)[0] == ps[i]);
    assert(ps.skip(i).drop_first() =~= ps.skip(i + 1));
}

// ---------------------------------------------------------------------------
// Arbitrage
// ---------------------------------------------------------------------------
/// Whether the two-leg arbitrage opportunity exists on a market: buying both
/// outcome legs costs less than the guaranteed payout, by more than the
/// configured threshold allows.
pub open spec fn arb_total_cost(m: MarketModel) -> int {
    m.tokens[0].price + m.tokens[1].price
}

/// The opportunity exists only on a market with exactly two outcome tokens
/// whose prices together fall below the threshold.
pub open spec fn arb_fires(m: MarketModel, cfg: RiskConfig) -> bool {
    m.tokens.len() == 2 && arb_total_cost(m) < cfg.arb_threshold@
}

/// Position size per leg: the balance fraction spread over the total cost,
/// capped by the per-trade ceiling.
pub open spec fn arb_size(m: MarketModel, cfg: RiskConfig, balance: int) -> int {
    int_min(
        dec_div_down(dec_mul_down(balance, cfg.max_position_size@), arb_total_cost(m)),
        cfg.max_risk_per_trade@,
    )
}

/// Guaranteed profit credited when both legs are placed:
/// `(1 - total_cost) * size`, exactly.
pub open spec fn arb_profit(m: MarketModel, cfg: RiskConfig, balance: int) -> int {
    dec_mul_down(DEC_SCALE - arb_total_cost(m), arb_size(m, cfg, balance))
}

pub open spec fn arb_leg(m: MarketModel, cfg: RiskConfig, balance: int, now: int, leg: int)
    -> OrderModel {
    OrderModel {
        token_id: m.tokens[leg].token_id,
        side: OrderSide::Buy,
        price: m.tokens[leg].price,
        size: arb_size(m, cfg, balance),
        order_type: OrderType::Limit,
        status: OrderStatus::Pending,
        created_at_ms: now,
    }
}

/// The plans one market contributes: both legs bought at their quoted
/// prices, the guaranteed profit and two trades credited — exactly when the
/// market has exactly two outcome tokens, the opportunity fires and the
/// computed size is positive.
pub open spec fn arb_market_plans(m: MarketModel, cfg: RiskConfig, balance: int, now: int)
    -> Seq<PlanModel> {
    if arb_fires(m, cfg) && arb_size(m, cfg, balance) > 0 {
        seq![
            PlanModel {
                orders: seq![
                    arb_leg(m, cfg, balance, now, 0),
                    arb_leg(m, cfg, balance, now, 1),
                ],
                pnl_delta: arb_profit(m, cfg, balance),
                trades_delta: 2,
                exit: None,
            },
        ]
    } else {
        seq![]
    }
}

pub open spec fn arb_plans(ms: Seq<MarketModel>, cfg: RiskConfig, balance: int, now: int)
    -> Seq<PlanModel>
    decreases ms.len(),
{
    if ms.len() == 0 {
        seq![]
    } else {
        arb_market_plans(ms[0], cfg, balance, now) + arb_plans(ms.drop_first(), cfg, balance, now)
    }
}

/// Binary-outcome arbitrage: buy both legs whenever they together cost less
/// than the guaranteed payout.
#[derive(Debug)]
pub struct ArbitrageStrategy {
    pub name: &'static str,
}

impl ArbitrageStrategy {
    pub fn new() -> (r: ArbitrageStrategy)
        ensures
            r.name@ == "Arbitrage Binaire"@,
    {
        ArbitrageStrategy { name: "Arbitrage Binaire" }
    }

    pub fn name(&self) -> (r: &'static str)
        ensures
            r@ == self.name@,
    {
        self.name
    }

    /// Enabled exactly when code "A" is in the active set.
    pub fn is_enabled(&self, state: &BotState) -> (r: bool)
        ensures
            r == has_code(state@.active, "A"@),
    {
        state.contains_strategy("A")
    }

    /// The pure decision: the arbitrage plans for a snapshot.
    pub fn evaluate(&self, markets: &Vec<Market>, cfg: &RiskConfig, balance: Dec, now_ms: u64)
        -> (r: Vec<TradePlan>)
        requires
            markets_wf(market_models(markets@)),
            risk_config_wf(*cfg),
            0 <= balance@ <= AMOUNT_CAP,
            now_ms <= MAX_NOW_MS,
        ensures
            plan_models(r@) == arb_plans(market_models(markets@), *cfg, balance@, now_ms as int),
            plans_safe(plan_models(r@), *cfg),
    {
        let ghost ms = market_models(markets@);
        let n: usize = markets.len();
        let mut r: Vec<TradePlan> = Vec::new();
        proof {
            assert(ms.skip(0) =~= ms);
            assert(plan_models(r@) =~= Seq::<PlanModel>::empty());
            assert(plan_models(r@) + arb_plans(ms, *cfg, balance@, now_ms as int) =~= arb_plans(
                ms,
                *cfg,
                balance@,
                now_ms as int,
            ));
        }
        let mut i: usize = 0;
        while i < n
            invariant
                0 <= i <= n,
                n == markets@.len(),
                ms == market_models(markets@),
                markets_wf(ms),
                risk_config_wf(*cfg),
                0 <= balance@ <= AMOUNT_CAP,
                now_ms <= MAX_NOW_MS,
                arb_plans(ms, *cfg, balance@, now_ms as int) == plan_models(r@) + arb_plans(
                    ms.skip(i as int),
                    *cfg,
                    balance@,
                    now_ms as int,
                ),
                plans_safe(plan_models(r@), *cfg),
            decreases n - i,
        {
            let ghost pre_plans = plan_models(r@);
            let m: &Market = &markets[i];
            proof {
                assert(market_wf(ms[i as int]));
                assert(m@ == ms[i as int]);
                assert(ms.skip(i as int)[0] == ms[i as int]);
                assert(ms.skip(i as int).drop_first() =~= ms.skip(i as int + 1));
            }
            let two_tokens: bool = m.outcome_tokens.len() == 2;
            if !two_tokens {
                proof {
                    assert(!arb_fires(ms[i as int], *cfg));
                    assert(arb_market_plans(ms[i as int], *cfg, balance@, now_ms as int)
                        =~= Seq::<PlanModel>::empty());
                    assert(plan_models(r@) =~= pre_plans + arb_market_plans(
                        ms[i as int],
                        *cfg,
                        balance@,
                        now_ms as int,
                    ));
                }
                i = i + 1;
                continue;
            }
            let yes: &crate::types::OutcomeToken = &m.outcome_tokens[0];
            let no: &crate::types::OutcomeToken = &m.outcome_tokens[1];
            let total: Dec = yes.price.add(no.price);
            if total.lt(cfg.arb_threshold) {
                proof {
                    lemma_mul_down_le_left(balance@, cfg.max_position_size@);
                }
                let max_size: Dec = balance.mul(cfg.max_position_size);
                let size: Dec = max_size.div_capped(total, cfg.max_risk_per_trade);
                if size.is_positive() {
                    proof {
                        lemma_mul_down_le_right(DEC_SCALE - total@, size@);
                    }
                    let profit: Dec = Dec::one().sub(total).mul(size);
                    let mut orders: Vec<Order> = Vec::new();
                    orders.push(Order {
                        id: crate::clob::fresh_order_id(),
                        token_id: yes.token_id.clone(),
                        side: OrderSide::Buy,
                        price: yes.price,
                        size,
                        order_type: OrderType::Limit,
                        status: OrderStatus::Pending,
                        created_at_ms: now_ms,
                    });
                    orders.push(Order {
                        id: crate::clob::fresh_order_id(),
                        token_id: no.token_id.clone(),
                        side: OrderSide::Buy,
                        price: no.price,
                        size,
                        order_type: OrderType::Limit,
                        status: OrderStatus::Pending,
                        created_at_ms: now_ms,
                    });
                    let plan = TradePlan {
                        orders,
                        pnl_delta: profit,
                        trades_delta: 2,
                        exit: None,
                    };
                    proof {
                        assert(order_models(plan.orders@) =~= arb_market_plans(
                            ms[i as int],
                            *cfg,
                            balance@,
                            now_ms as int,
                        )[0].orders);
                        assert(plan@ == arb_market_plans(
                            ms[i as int],
                            *cfg,
                            balance@,
                            now_ms as int,
                        )[0]);
                    }
                    r.push(plan);
                    proof {
                        assert(plan_models(r@) =~= pre_plans.push(
                            arb_market_plans(ms[i as int], *cfg, balance@, now_ms as int)[0],
                        ));
                        assert(plan_models(r@) =~= pre_plans + arb_market_plans(
                            ms[i as int],
                            *cfg,
                            balance@,
                            now_ms as int,
                        ));
                    }
                } else {
                    proof {
                        assert(arb_market_plans(ms[i as int], *cfg, balance@, now_ms as int)
                            =~= Seq::<PlanModel>::empty());
                        assert(plan_models(r@) =~= pre_plans + arb_market_plans(
                            ms[i as int],
                            *cfg,
                            balance@,
                            now_ms as int,
                        ));
                    }
                }
            } else {
                proof {
                    assert(arb_market_plans(ms[i as int], *cfg, balance@, now_ms as int)
                        =~= Seq::<PlanModel>::empty());
                    assert(plan_models(r@) =~= pre_plans + arb_market_plans(
                        ms[i as int],
                        *cfg,
                        balance@,
                        now_ms as int,
                    ));
                }
            }
            i = i + 1;
        }
        proof {
            assert(ms.skip(n as int) =~= Seq::<MarketModel>::empty());
            assert(plan_models(r@) + Seq::<PlanModel>::empty() =~= plan_models(r@));
        }
        r
    }
}

// ---------------------------------------------------------------------------
// Low probability
// ---------------------------------------------------------------------------
/// The first token labelled "NO", if any.
pub open spec fn find_no(tokens: Seq<TokenModel>) -> Option<TokenModel>
    decreases tokens.len(),
{
    if tokens.len() == 0 {
        None
    } else if tokens[0].outcome == "NO"@ {
        Some(tokens[0])
    } else {
        find_no(tokens.drop_first())
    }
}

/// The first token labelled "YES", if any.
pub open spec fn find_yes(tokens: Seq<TokenModel>) -> Option<TokenModel>
    decreases tokens.len(),
{
    if tokens.len() == 0 {
        None
    } else if tokens[0].outcome == "YES"@ {
        Some(tokens[0])
    } else {
        find_yes(tokens.drop_first())
    }
}

pub proof fn lemma_find_label_at(tokens: Seq<TokenModel>, label: Seq<char>, k: int)
    requires
        0 <= k < tokens.len(),
        tokens[k].outcome == label,
        forall|l: int| 0 <= l < k ==> (#[trigger] tokens[l]).outcome != label,
    ensures
        label == "NO"@ ==> find_no(tokens) == Some(tokens[k]),
        label == "YES"@ ==> find_yes(tokens) == Some(tokens[k]),
    decreases k,
{
    if k == 0 {
    } else {
        assert(tokens[0].outcome != label);
        lemma_find_label_at(tokens.drop_first(), label, k - 1);
        assert forall|l: int| 0 <= l < k - 1 implies (#[trigger] tokens.drop_first()[l]).outcome
            != label by {
            assert(tokens.drop_first()[l] == tokens[l + 1]);
        }
        assert(tokens.drop_first()[k - 1] == tokens[k]);
    }
}

pub proof fn lemma_find_label_none(tokens: Seq<TokenModel>, label: Seq<char>)
    requires
        forall|l: int| 0 <= l < tokens.len() ==> (#[trigger] tokens[l]).outcome != label,
    ensures
        label == "NO"@ ==> find_no(tokens) is None,
        label == "YES"@ ==> find_yes(tokens) is None,
    decreases tokens.len(),
{
    if tokens.len() == 0 {
    } else {
        lemma_find_label_none(tokens.drop_first(), label);
    }
}

/// Position size for a low-probability entry: the balance fraction, capped
/// at twice the per-trade ceiling (double conviction, double risk).
pub open spec fn lowprob_size(cfg: RiskConfig, balance: int) -> int {
    int_min(dec_mul_down(balance, cfg.max_position_size@), 2 * cfg.max_risk_per_trade@)
}

/// The plan one YES token contributes: when its price is below the
/// low-probability threshold and the market has a NO token, buy that NO
/// token at one minus the YES price, counting one trade and booking no
/// profit-and-loss until settlement.
pub open spec fn lowprob_token_plans(
    m: MarketModel,
    t: TokenModel,
    cfg: RiskConfig,
    balance: int,
    now: int,
) -> Seq<PlanModel> {
    if t.outcome == "YES"@ && t.price < cfg.low_prob_threshold@ && find_no(m.tokens) is Some
        && lowprob_size(cfg, balance) > 0 {
        seq![
            PlanModel {
                orders: seq![
                    OrderModel {
                        token_id: find_no(m.tokens)->Some_0.token_id,
                        side: OrderSide::Buy,
                        price: DEC_SCALE - t.price,
                        size: lowprob_size(cfg, balance),
                        order_type: OrderType::Limit,
                        status: OrderStatus::Pending,
                        created_at_ms: now,
                    },
                ],
                pnl_delta: 0,
                trades_delta: 1,
                exit: None,
            },
        ]
    } else {
        seq![]
    }
}

pub open spec fn lowprob_market_plans_from(
    m: MarketModel,
    cfg: RiskConfig,
    balance: int,
    now: int,
    j: int,
) -> Seq<PlanModel>
    decreases m.tokens.len() - j,
{
    if j >= m.tokens.len() {
        seq![]
    } else {
        lowprob_token_plans(m, m.tokens[j], cfg, balance, now) + lowprob_market_plans_from(
            m,
            cfg,
            balance,
            now,
            j + 1,
        )
    }
}

pub open spec fn lowprob_plans(ms: Seq<MarketModel>, cfg: RiskConfig, balance: int, now: int)
    -> Seq<PlanModel>
    decreases ms.len(),
{
    if ms.len() == 0 {
        seq![]
    } else {
        lowprob_market_plans_from(ms[0], cfg, balance, now, 0) + lowprob_plans(
            ms.drop_first(),
            cfg,
            balance,
            now,
        )
    }
}

/// Buy NO on near-impossible YES outcomes: compounding on high-probability
/// claims.
#[derive(Debug)]
pub struct LowProbStrategy {
    pub name: &'static str,
}

impl LowProbStrategy {
    pub fn new() -> (r: LowProbStrategy)
        ensures
            r.name@ == "Low-Prob NO"@,
    {
        LowProbStrategy { name: "Low-Prob NO" }
    }

    pub fn name(&self) -> (r: &'static str)
        ensures
            r@ == self.name@,
    {
        self.name
    }

    /// Enabled exactly when code "B" is in the active set.
    pub fn is_enabled(&self, state: &BotState) -> (r: bool)
        ensures
            r == has_code(state@.active, "B"@),
    {
        state.contains_strategy("B")
    }

    /// The pure decision: the low-probability plans for a snapshot.
    pub fn evaluate(&self, markets: &Vec<Market>, cfg: &RiskConfig, balance: Dec, now_ms: u64)
        -> (r: Vec<TradePlan>)
        requires
            markets_wf(market_models(markets@)),
            risk_config_wf(*cfg),
            0 <= balance@ <= AMOUNT_CAP,
            now_ms <= MAX_NOW_MS,
        ensures
            plan_models(r@) == lowprob_plans(
                market_models(markets@),
                *cfg,
                balance@,
                now_ms as int,
            ),
            plans_safe(plan_models(r@), *cfg),
    {
        let ghost ms = market_models(markets@);
        let n: usize = markets.len();
        let mut r: Vec<TradePlan> = Vec::new();
        proof {
            lemma_mul_down_le_left(balance@, cfg.max_position_size@);
            assert(ms.skip(0) =~= ms);
            assert(plan_models(r@) =~= Seq::<PlanModel>::empty());
            assert(plan_models(r@) + lowprob_plans(ms, *cfg, balance@, now_ms as int)
                =~= lowprob_plans(ms, *cfg, balance@, now_ms as int));
        }
        let size: Dec = balance.mul(cfg.max_position_size).min(
            cfg.max_risk_per_trade.add(cfg.max_risk_per_trade),
        );
        let ghost sz = lowprob_size(*cfg, balance@);
        proof {
            assert(size@ == sz);
        }
        let mut i: usize = 0;
        while i < n
            invariant
                0 <= i <= n,
                n == markets@.len(),
                ms == market_models(markets@),
                markets_wf(ms),
                risk_config_wf(*cfg),
                0 <= balance@ <= AMOUNT_CAP,
                now_ms <= MAX_NOW_MS,
                size@ == lowprob_size(*cfg, balance@),
                lowprob_plans(ms, *cfg, balance@, now_ms as int) == plan_models(r@)
                    + lowprob_plans(ms.skip(i as int), *cfg, balance@, now_ms as int),
                plans_safe(plan_models(r@), *cfg),
            decreases n - i,
        {
            let m: &Market = &markets[i];
            proof {
                assert(market_wf(ms[i as int]));
                assert(m@ == ms[i as int]);
                assert(ms.skip(i as int)[0] == ms[i as int]);
                assert(ms.skip(i as int).drop_first() =~= ms.skip(i as int + 1));
            }
            let no_idx: Option<usize> = find_label_index(m, "NO");
            let tn: usize = m.outcome_tokens.len();
            let mut j: usize = 0;
            while j < tn
                invariant
                    0 <= j <= tn,
                    tn == m.outcome_tokens@.len(),
                    ms == market_models(markets@),
                    0 <= i < n,
                    n == markets@.len(),
                    m == &markets@[i as int],
                    m@ == ms[i as int],
                    market_wf(ms[i as int]),
                    markets_wf(ms),
                    risk_config_wf(*cfg),
                    0 <= balance@ <= AMOUNT_CAP,
                    now_ms <= MAX_NOW_MS,
                    size@ == lowprob_size(*cfg, balance@),
                    (no_idx matches Some(k) ==> 0 <= k < tn && find_no(m@.tokens) == Some(
                        m@.tokens[k as int],
                    )),
                    (no_idx is None ==> find_no(m@.tokens) is None),
                    lowprob_plans(ms, *cfg, balance@, now_ms as int) == plan_models(r@)
                        + lowprob_market_plans_from(
                        ms[i as int],
                        *cfg,
                        balance@,
                        now_ms as int,
                        j as int,
                    ) + lowprob_plans(ms.skip(i as int + 1), *cfg, balance@, now_ms as int),
                    plans_safe(plan_models(r@), *cfg),
                decreases tn - j,
            {
                let ghost pre_plans = plan_models(r@);
                let t: &crate::types::OutcomeToken = &m.outcome_tokens[j];
                proof {
                    assert(t@ == m@.tokens[j as int]);
                }
                let mut emitted: bool = false;
                if str_eq(t.outcome.as_str(), "YES") && t.price.lt(cfg.low_prob_threshold) {
                    if let Some(k) = no_idx {
                        if size.is_positive() {
                            let no_token: &crate::types::OutcomeToken = &m.outcome_tokens[k];
                            let no_price: Dec = Dec::one().sub(t.price);
                            let mut orders: Vec<Order> = Vec::new();
                            orders.push(Order {
                                id: crate::clob::fresh_order_id(),
                                token_id: no_token.token_id.clone(),
                                side: OrderSide::Buy,
                                price: no_price,
                                size,
                                order_type: OrderType::Limit,
                                status: OrderStatus::Pending,
                                created_at_ms: now_ms,
                            });
                            let plan = TradePlan {
                                orders,
                                pnl_delta: Dec::zero(),
                                trades_delta: 1,
                                exit: None,
                            };
                            proof {
                                assert(order_models(plan.orders@) =~= lowprob_token_plans(
                                    ms[i as int],
                                    ms[i as int].tokens[j as int],
                                    *cfg,
                                    balance@,
                                    now_ms as int,
                                )[0].orders);
                                assert(plan@ == lowprob_token_plans(
                                    ms[i as int],
                                    ms[i as int].tokens[j as int],
                                    *cfg,
                                    balance@,
                                    now_ms as int,
                                )[0]);
                            }
                            r.push(plan);
                            emitted = true;
                            proof {
                                assert(plan_models(r@) =~= pre_plans + lowprob_token_plans(
                                    ms[i as int],
                                    ms[i as int].tokens[j as int],
                                    *cfg,
                                    balance@,
                                    now_ms as int,
                                ));
                            }
                        }
                    }
                }
                proof {
                    if !emitted {
                        assert(lowprob_token_plans(
                            ms[i as int],
                            ms[i as int].tokens[j as int],
                            *cfg,
                            balance@,
                            now_ms as int,
                        ) =~= Seq::<PlanModel>::empty());
                        assert(plan_models(r@) =~= pre_plans + lowprob_token_plans(
                            ms[i as int],
                            ms[i as int].tokens[j as int],
                            *cfg,
                            balance@,
                            now_ms as int,
                        ));
                    }
                }
                j = j + 1;
            }
            proof {
                assert(lowprob_market_plans_from(
                    ms[i as int],
                    *cfg,
                    balance@,
                    now_ms as int,
                    tn as int,
                ) =~= Seq::<PlanModel>::empty());
            }
            i = i + 1;
        }
        proof {
            assert(ms.skip(n as int) =~= Seq::<MarketModel>::empty());
        }
        r
    }
}

/// The index of the first token carrying `label`, if any.
fn find_label_index(m: &Market, label: &str) -> (r: Option<usize>)
    ensures
        (r matches Some(k) ==> 0 <= k < m@.tokens.len() && (label@ == "NO"@ ==> find_no(m@.tokens)
            == Some(m@.tokens[k as int])) && (label@ == "YES"@ ==> find_yes(m@.tokens) == Some(
            m@.tokens[k as int],
        ))),
        (r is None ==> (label@ == "NO"@ ==> find_no(m@.tokens) is None) && (label@ == "YES"@
            ==> find_yes(m@.tokens) is None)),
{
    let tn: usize = m.outcome_tokens.len();
    let mut j: usize = 0;
    while j < tn
        invariant
            0 <= j <= tn,
            tn == m.outcome_tokens@.len(),
            forall|l: int| 0 <= l < j ==> (#[trigger] m@.tokens[l]).outcome != label@,
        decreases tn - j,
    {
        if str_eq(m.outcome_tokens[j].outcome.as_str(), label) {
            proof {
                assert(m@.tokens[j as int].outcome == label@);
                lemma_find_label_at(m@.tokens, label@, j as int);
            }
            return Some(j);
        }
        proof {
            assert(m@.tokens[j as int].outcome != label@);
        }
        j = j + 1;
    }
    proof {
        lemma_find_label_none(m@.tokens, label@);
    }
    None
}

// ---------------------------------------------------------------------------
// Scalping
// ---------------------------------------------------------------------------
/// The rolling window of YES prices observed for one market.
#[derive(Debug)]
pub struct PriceSeries {
    pub market_id: String,
    pub prices: Vec<Dec>,
}

pub ghost struct SeriesModel {
    pub id: Seq<char>,
    pub prices: Seq<int>,
}

impl View for PriceSeries {
    type V = SeriesModel;

    open spec fn view(&self) -> SeriesModel {
        SeriesModel {
            id: self.market_id@,
            prices: self.prices@.map_values(|d: Dec| d@),
        }
    }
}

pub open spec fn series_models(v: Seq<PriceSeries>) -> Seq<SeriesModel> {
    v.map_values(|s: PriceSeries| s@)
}

pub open spec fn series_wf(s: SeriesModel) -> bool {
    &&& s.prices.len() <= SCALP_WINDOW
    &&& forall|k: int| 0 <= k < s.prices.len() ==> 0 < (#[trigger] s.prices[k]) < DEC_SCALE
}

/// History invariant: one window per market, prices are well-formed.
pub open spec fn scalp_history_wf(h: Seq<SeriesModel>) -> bool {
    &&& forall|i: int, j: int| 0 <= i < j < h.len() ==> h[i].id != h[j].id
    &&& forall|i: int| 0 <= i < h.len() ==> series_wf(#[trigger] h[i])
}

pub open spec fn has_series(h: Seq<SeriesModel>, id: Seq<char>) -> bool {
    exists|i: int| 0 <= i < h.len() && h[i].id == id
}

pub open spec fn series_index(h: Seq<SeriesModel>, id: Seq<char>) -> int {
    choose|i: int| 0 <= i < h.len() && h[i].id == id
}

/// Keep only the newest `SCALP_WINDOW` samples.
pub open spec fn trim_window(p: Seq<int>) -> Seq<int> {
    if p.len() > SCALP_WINDOW as int {
        p.drop_first()
    } else {
        p
    }
}

/// The window for `id` after appending sample `p`.
pub open spec fn scalp_prices_after(h: Seq<SeriesModel>, id: Seq<char>, p: int) -> Seq<int> {
    if has_series(h, id) {
        trim_window(h[series_index(h, id)].prices.push(p))
    } else {
        seq![p]
    }
}

/// The history after appending sample `p` for `id`.
pub open spec fn scalp_new_history(h: Seq<SeriesModel>, id: Seq<char>, p: int) -> Seq<
    SeriesModel,
> {
    if has_series(h, id) {
        h.update(series_index(h, id), SeriesModel { id, prices: scalp_prices_after(h, id, p) })
    } else {
        h.push(SeriesModel { id, prices: scalp_prices_after(h, id, p) })
    }
}

/// Scalping watches a market when it is tagged with the short-horizon
/// subcategory and has a YES token.
pub open spec fn scalp_applies(m: MarketModel) -> bool {
    m.subcategory == "15-min"@ && find_yes(m.tokens) is Some
}

/// Drop detection over a window: with at least `SCALP_LOOKBACK` samples,
/// the relative fall from the tenth-newest to the newest price exceeds the
/// threshold.
pub open spec fn scalp_fires(prices: Seq<int>, threshold: int) -> bool {
    &&& prices.len() >= SCALP_LOOKBACK as int
    &&& prices[prices.len() - 10] > prices[prices.len() - 1]
    &&& dec_div_down(
        prices[prices.len() - 10] - prices[prices.len() - 1],
        prices[prices.len() - 10],
    ) > threshold
}

pub open spec fn scalp_market_history(h: Seq<SeriesModel>, m: MarketModel) -> Seq<SeriesModel> {
    if scalp_applies(m) {
        scalp_new_history(h, m.id, find_yes(m.tokens)->Some_0.price)
    } else {
        h
    }
}

/// The plans one market contributes: a market buy of the full per-trade
/// ceiling at the current price when the drop fires, with a deferred exit at
/// 1.15 times the entry scheduled on success; accounting happens at exit
/// time, not here.
pub open spec fn scalp_market_plans(
    h: Seq<SeriesModel>,
    m: MarketModel,
    cfg: RiskConfig,
    now: int,
) -> Seq<PlanModel> {
    if scalp_applies(m) && scalp_fires(
        scalp_prices_after(h, m.id, find_yes(m.tokens)->Some_0.price),
        cfg.scalping_drop_threshold@,
    ) && cfg.max_risk_per_trade@ > 0 {
        seq![
            PlanModel {
                orders: seq![
                    OrderModel {
                        token_id: find_yes(m.tokens)->Some_0.token_id,
                        side: OrderSide::Buy,
                        price: find_yes(m.tokens)->Some_0.price,
                        size: cfg.max_risk_per_trade@,
                        order_type: OrderType::Market,
                        status: OrderStatus::Pending,
                        created_at_ms: now,
                    },
                ],
                pnl_delta: 0,
                trades_delta: 0,
                exit: Some(
                    ExitModel {
                        market_id: m.id,
                        token_id: find_yes(m.tokens)->Some_0.token_id,
                        entry_price: find_yes(m.tokens)->Some_0.price,
                        size: cfg.max_risk_per_trade@,
                        due_ms: now + SCALP_EXIT_DELAY_MS as int,
                    },
                ),
            },
        ]
    } else {
        seq![]
    }
}

pub open spec fn scalp_history_after(h: Seq<SeriesModel>, ms: Seq<MarketModel>) -> Seq<
    SeriesModel,
>
    decreases ms.len(),
{
    if ms.len() == 0 {
        h
    } else {
        scalp_history_after(scalp_market_history(h, ms[0]), ms.drop_first())
    }
}

pub open spec fn scalp_plans(h: Seq<SeriesModel>, ms: Seq<MarketModel>, cfg: RiskConfig, now: int)
    -> Seq<PlanModel>
    decreases ms.len(),
{
    if ms.len() == 0 {
        seq![]
    } else {
        scalp_market_plans(h, ms[0], cfg, now) + scalp_plans(
            scalp_market_history(h, ms[0]),
            ms.drop_first(),
            cfg,
            now,
        )
    }
}

/// Short-horizon scalping: watch for flash drops on 15-minute markets, buy
/// the dip, and schedule a deferred exit above the entry.
#[derive(Debug)]
pub struct ScalpingStrategy {
    pub name: &'static str,
    /// Rolling price windows, one per watched market.
    pub price_history: Vec<PriceSeries>,
}

impl ScalpingStrategy {
    pub fn new() -> (r: ScalpingStrategy)
        ensures
            r.name@ == "Scalping 15-min"@,
            series_models(r.price_history@) == Seq::<SeriesModel>::empty(),
            scalp_history_wf(series_models(r.price_history@)),
    {
        let r = ScalpingStrategy { name: "Scalping 15-min", price_history: Vec::new() };
        proof {
            assert(series_models(r.price_history@) =~= Seq::<SeriesModel>::empty());
        }
        r
    }

    pub fn name(&self) -> (r: &'static str)
        ensures
            r@ == self.name@,
    {
        self.name
    }

    /// Enabled exactly when code "C" is in the active set.
    pub fn is_enabled(&self, state: &BotState) -> (r: bool)
        ensures
            r == has_code(state@.active, "C"@),
    {
        state.contains_strategy("C")
    }

    /// The decision step: update every watched window with the fresh snapshot
    /// and emit an entry plan wherever the drop detector fires.
    pub fn evaluate(&mut self, markets: &Vec<Market>, cfg: &RiskConfig, now_ms: u64) -> (r: Vec<
        TradePlan,
    >)
        requires
            markets_wf(market_models(markets@)),
            risk_config_wf(*cfg),
            now_ms <= MAX_NOW_MS,
            scalp_history_wf(series_models(old(self).price_history@)),
        ensures
            series_models(final(self).price_history@) == scalp_history_after(
                series_models(old(self).price_history@),
                market_models(markets@),
            ),
            plan_models(r@) == scalp_plans(
                series_models(old(self).price_history@),
                market_models(markets@),
                *cfg,
                now_ms as int,
            ),
            scalp_history_wf(series_models(final(self).price_history@)),
            plans_safe(plan_models(r@), *cfg),
            final(self).name == old(self).name,
    {
        let ghost ms = market_models(markets@);
        let ghost h0 = series_models(self.price_history@);
        let n: usize = markets.len();
        let mut r: Vec<TradePlan> = Vec::new();
        proof {
            assert(ms.skip(0) =~= ms);
            assert(plan_models(r@) =~= Seq::<PlanModel>::empty());
            assert(plan_models(r@) + scalp_plans(h0, ms, *cfg, now_ms as int) =~= scalp_plans(
                h0,
                ms,
                *cfg,
                now_ms as int,
            ));
        }
        let mut i: usize = 0;
        while i < n
            invariant
                0 <= i <= n,
                n == markets@.len(),
                ms == market_models(markets@),
                markets_wf(ms),
                risk_config_wf(*cfg),
                now_ms <= MAX_NOW_MS,
                self.name == old(self).name,
                scalp_history_wf(series_models(self.price_history@)),
                scalp_history_after(h0, ms) == scalp_history_after(
                    series_models(self.price_history@),
                    ms.skip(i as int),
                ),
                scalp_plans(h0, ms, *cfg, now_ms as int) == plan_models(r@) + scalp_plans(
                    series_models(self.price_history@),
                    ms.skip(i as int),
                    *cfg,
                    now_ms as int,
                ),
                plans_safe(plan_models(r@), *cfg),
            decreases n - i,
        {
            let ghost pre_plans = plan_models(r@);
            let ghost h_pre = series_models(self.price_history@);
            let m: &Market = &markets[i];
            proof {
                assert(market_wf(ms[i as int]));
                assert(m@ == ms[i as int]);
                assert(ms.skip(i as int)[0] == ms[i as int]);
                assert(ms.skip(i as int).drop_first() =~= ms.skip(i as int + 1));
            }
            let mut emitted: bool = false;
            if str_eq(m.subcategory.as_str(), "15-min") {
                if let Some(k) = find_label_index(m, "YES") {
                    proof {
                        assert(scalp_applies(m@));
                    }
                    let t: &crate::types::OutcomeToken = &m.outcome_tokens[k];
                    let p: Dec = t.price;
                    proof {
                        assert(t@ == m@.tokens[k as int]);
                        assert(find_yes(m@.tokens)->Some_0 == m@.tokens[k as int]);
                        assert(0 < p@ < DEC_SCALE);
                    }
                    let si_opt: Option<usize> = find_series_index(&self.price_history, m.id.as_str());
                    let mut series: PriceSeries = match si_opt {
                        Some(si) => {
                            proof {
                                assert(h_pre[si as int].id == m@.id);
                                assert(has_series(h_pre, m@.id));
                                let ci = series_index(h_pre, m@.id);
                                if ci != si as int {
                                    assert(h_pre[ci].id == h_pre[si as int].id);
                                    assert(false);
                                }
                            }
                            self.price_history.remove(si)
                        },
                        None => {
                            proof {
                                assert(!has_series(h_pre, m@.id));
                            }
                            PriceSeries { market_id: m.id.clone(), prices: Vec::new() }
                        },
                    };
                    series.prices.push(p);
                    if series.prices.len() > SCALP_WINDOW {
                        series.prices.remove(0);
                        proof {
                            assert(series.prices@.map_values(|d: Dec| d@) =~= trim_window(
                                scalp_base_prices(h_pre, m@.id).push(p@),
                            ));
                        }
                    } else {
                        proof {
                            assert(series.prices@.map_values(|d: Dec| d@) =~= trim_window(
                                scalp_base_prices(h_pre, m@.id).push(p@),
                            ));
                        }
                    }
                    proof {
                        assert(series@.prices == scalp_prices_after(h_pre, m@.id, p@));
                        assert(series@.id == m@.id);
                    }
                    // Drop detection over the updated window.
                    let plen: usize = series.prices.len();
                    if plen >= SCALP_LOOKBACK {
                        let oldp: Dec = series.prices[plen - 10];
                        let cur: Dec = series.prices[plen - 1];
                        if cur.lt(oldp) {
                            proof {
                                assert(0 < oldp@ < DEC_SCALE);
                                lemma_div_down_part(oldp@ - cur@, oldp@);
                            }
                            let dr: Dec = oldp.sub(cur).div(oldp);
                            if dr.gt(cfg.scalping_drop_threshold) {
                                proof {
                                    assert(cur@ == p@) by {
                                        assert(series@.prices[plen - 1] == cur@);
                                    }
                                }
                                let mut orders: Vec<Order> = Vec::new();
                                orders.push(Order {
                                    id: crate::clob::fresh_order_id(),
                                    token_id: t.token_id.clone(),
                                    side: OrderSide::Buy,
                                    price: p,
                                    size: cfg.max_risk_per_trade,
                                    order_type: OrderType::Market,
                                    status: OrderStatus::Pending,
                                    created_at_ms: now_ms,
                                });
                                let plan = TradePlan {
                                    orders,
                                    pnl_delta: Dec::zero(),
                                    trades_delta: 0,
                                    exit: Some(ScheduledExit {
                                        market_id: m.id.clone(),
                                        token_id: t.token_id.clone(),
                                        entry_price: p,
                                        size: cfg.max_risk_per_trade,
                                        due_ms: now_ms + SCALP_EXIT_DELAY_MS,
                                    }),
                                };
                                proof {
                                    assert(scalp_fires(
                                        scalp_prices_after(h_pre, m@.id, p@),
                                        cfg.scalping_drop_threshold@,
                                    ));
                                    assert(order_models(plan.orders@) =~= scalp_market_plans(
                                        h_pre,
                                        ms[i as int],
                                        *cfg,
                                        now_ms as int,
                                    )[0].orders);
                                    assert(plan@ == scalp_market_plans(
                                        h_pre,
                                        ms[i as int],
                                        *cfg,
                                        now_ms as int,
                                    )[0]);
                                }
                                r.push(plan);
                                emitted = true;
                                proof {
                                    assert(plan_models(r@) =~= pre_plans + scalp_market_plans(
                                        h_pre,
                                        ms[i as int],
                                        *cfg,
                                        now_ms as int,
                                    ));
                                }
                            }
                        }
                    }
                    // Write the updated window back.
                    match si_opt {
                        Some(si) => {
                            let ghost midvec = self.price_history@;
                            self.price_history.insert(si, series);
                            proof {
                                let ghost prevec_models = h_pre;
                                midvec.insert_ensures(si as int, series);
                                prevec_models.remove_ensures(si as int);
                                assert forall|j: int|
                                    0 <= j < series_models(self.price_history@).len()
                                    implies series_models(self.price_history@)[j]
                                    == scalp_market_history(h_pre, ms[i as int])[j] by {
                                    assert(scalp_market_history(h_pre, ms[i as int])
                                        == h_pre.update(si as int, series@));
                                    if j < si as int {
                                        assert(self.price_history@[j] == midvec[j]);
                                    } else if j == si as int {
                                        assert(self.price_history@[j] == series);
                                    } else {
                                        assert(self.price_history@[j] == midvec[j - 1]);
                                    }
                                }
                                assert(series_models(self.price_history@)
                                    =~= scalp_market_history(h_pre, ms[i as int]));
                            }
                        },
                        None => {
                            self.price_history.push(series);
                            proof {
                                assert(series_models(self.price_history@)
                                    =~= scalp_market_history(h_pre, ms[i as int]));
                            }
                        },
                    }
                    proof {
                        lemma_scalp_step_wf(h_pre, ms[i as int]);
                    }
                } else {
                    proof {
                        assert(!scalp_applies(ms[i as int]));
                    }
                }
            } else {
                proof {
                    assert(m@.subcategory != "15-min"@);
                    assert(!scalp_applies(ms[i as int]));
                }
            }
            proof {
                if !emitted {
                    assert(scalp_market_plans(h_pre, ms[i as int], *cfg, now_ms as int)
                        =~= Seq::<PlanModel>::empty());
                    assert(plan_models(r@) =~= pre_plans + scalp_market_plans(
                        h_pre,
                        ms[i as int],
                        *cfg,
                        now_ms as int,
                    ));
                }
                assert(scalp_market_history(h_pre, ms[i as int]) == series_models(
                    self.price_history@,
                ));
            }
            i = i + 1;
        }
        proof {
            assert(ms.skip(n as int) =~= Seq::<MarketModel>::empty());
        }
        r
    }
}

/// The window `id` held before the new sample: its stored prices, or empty.
pub open spec fn scalp_base_prices(h: Seq<SeriesModel>, id: Seq<char>) -> Seq<int> {
    if has_series(h, id) {
        h[series_index(h, id)].prices
    } else {
        Seq::<int>::empty()
    }
}

/// One scalping step preserves the history invariant.
pub proof fn lemma_scalp_step_wf(h: Seq<SeriesModel>, m: MarketModel)
    requires
        scalp_history_wf(h),
        market_wf(m),
        scalp_applies(m),
    ensures
        scalp_history_wf(scalp_market_history(h, m)),
{
    let p = find_yes(m.tokens)->Some_0.price;
    lemma_find_yes_wf(m);
    let h2 = scalp_market_history(h, m);
    if has_series(h, m.id) {
        let ci = series_index(h, m.id);
        assert(series_wf(h[ci]));
        let newp = scalp_prices_after(h, m.id, p);
        assert(series_wf(SeriesModel { id: m.id, prices: newp })) by {
            let pushed = h[ci].prices.push(p);
            assert(forall|k: int| 0 <= k < pushed.len() ==> 0 < (#[trigger] pushed[k]) < DEC_SCALE);
            if pushed.len() > SCALP_WINDOW {
                assert forall|k: int| 0 <= k < newp.len() implies 0 < (#[trigger] newp[k])
                    < DEC_SCALE by {
                    assert(newp[k] == pushed[k + 1]);
                }
            }
        }
        assert forall|i: int, j: int| 0 <= i < j < h2.len() implies h2[i].id != h2[j].id by {
            assert(h2[i] == if i == ci {
                SeriesModel { id: m.id, prices: newp }
            } else {
                h[i]
            });
            assert(h2[j] == if j == ci {
                SeriesModel { id: m.id, prices: newp }
            } else {
                h[j]
            });
            assert(h[ci].id == m.id);
        }
        assert forall|i: int| 0 <= i < h2.len() implies series_wf(#[trigger] h2[i]) by {
            if i != ci {
                assert(h2[i] == h[i]);
            }
        }
    } else {
        assert(series_wf(SeriesModel { id: m.id, prices: seq![p] })) by {
            assert(seq![p].len() == 1);
            assert(seq![p][0] == p);
        }
        assert forall|i: int, j: int| 0 <= i < j < h2.len() implies h2[i].id != h2[j].id by {
            if j == h.len() {
                assert(h2[i] == h[i]);
                assert(h2[j].id == m.id);
                assert(!has_series(h, m.id));
            }
        }
        assert forall|i: int| 0 <= i < h2.len() implies series_wf(#[trigger] h2[i]) by {
            if i < h.len() {
                assert(h2[i] == h[i]);
            }
        }
    }
}

/// On a well-formed market, any YES token found is well-formed.
pub proof fn lemma_find_yes_wf(m: MarketModel)
    requires
        market_wf(m),
        find_yes(m.tokens) is Some,
    ensures
        0 < find_yes(m.tokens)->Some_0.price < DEC_SCALE,
{
    lemma_find_yes_is_element(m.tokens);
}

pub proof fn lemma_find_yes_is_element(tokens: Seq<TokenModel>)
    requires
        find_yes(tokens) is Some,
    ensures
        exists|i: int|
            0 <= i < tokens.len() && tokens[i] == find_yes(tokens)->Some_0,
    decreases tokens.len(),
{
    if tokens.len() == 0 {
    } else if tokens[0].outcome == "YES"@ {
        assert(tokens[0] == find_yes(tokens)->Some_0);
    } else {
        lemma_find_yes_is_element(tokens.drop_first());
        let i = choose|i: int|
            0 <= i < tokens.drop_first().len() && tokens.drop_first()[i] == find_yes(
                tokens.drop_first(),
            )->Some_0;
        assert(tokens[i + 1] == find_yes(tokens)->Some_0);
    }
}

/// The index of the window kept for `id`, if one exists: the first (and by
/// the invariant only) series with that market id.
fn find_series_index(h: &Vec<PriceSeries>, id: &str) -> (r: Option<usize>)
    ensures
        (r matches Some(si) ==> 0 <= si < h@.len() && series_models(h@)[si as int].id == id@),
        (r is None ==> forall|l: int|
            0 <= l < h@.len() ==> (#[trigger] series_models(h@)[l]).id != id@),
{
    let n: usize = h.len();
    let mut j: usize = 0;
    while j < n
        invariant
            0 <= j <= n,
            n == h@.len(),
            forall|l: int| 0 <= l < j ==> (#[trigger] series_models(h@)[l]).id != id@,
        decreases n - j,
    {
        if str_eq(h[j].market_id.as_str(), id) {
            proof {
                assert(series_models(h@)[j as int].id == id@);
            }
            return Some(j);
        }
        proof {
            assert(series_models(h@)[j as int].id != id@);
        }
        j = j + 1;
    }
    None
}

// ---------------------------------------------------------------------------
// Market making
// ---------------------------------------------------------------------------
/// Half of the symmetric spread around a mid price: half of 2% of it.
pub open spec fn mm_half_spread(mid: int) -> int {
    dec_mul_down(mid, MM_SPREAD_FRACTION as int) / 2
}

/// The mirrored pair one token contributes: a post-only bid below and ask
/// above the quote, each at half the per-trade ceiling, sides flipped for a
/// non-YES token (buying NO is economically sell pressure on YES). No
/// accounting happens at submission time.
pub open spec fn mm_token_plans(t: TokenModel, cfg: RiskConfig, now: int) -> Seq<PlanModel> {
    if cfg.max_risk_per_trade@ / 2 > 0 {
        seq![
            PlanModel {
                orders: seq![
                    OrderModel {
                        token_id: t.token_id,
                        side: if t.outcome == "YES"@ {
                            OrderSide::Buy
                        } else {
                            OrderSide::Sell
                        },
                        price: t.price - mm_half_spread(t.price),
                        size: cfg.max_risk_per_trade@ / 2,
                        order_type: OrderType::PostOnly,
                        status: OrderStatus::Pending,
                        created_at_ms: now,
                    },
                    OrderModel {
                        token_id: t.token_id,
                        side: if t.outcome == "YES"@ {
                            OrderSide::Sell
                        } else {
                            OrderSide::Buy
                        },
                        price: t.price + mm_half_spread(t.price),
                        size: cfg.max_risk_per_trade@ / 2,
                        order_type: OrderType::PostOnly,
                        status: OrderStatus::Pending,
                        created_at_ms: now,
                    },
                ],
                pnl_delta: 0,
                trades_delta: 0,
                exit: None,
            },
        ]
    } else {
        seq![]
    }
}

pub open spec fn mm_market_plans_from(m: MarketModel, cfg: RiskConfig, now: int, j: int) -> Seq<
    PlanModel,
>
    decreases m.tokens.len() - j,
{
    if j >= m.tokens.len() {
        seq![]
    } else {
        mm_token_plans(m.tokens[j], cfg, now) + mm_market_plans_from(m, cfg, now, j + 1)
    }
}

/// Markets below the volume floor are skipped entirely.
pub open spec fn mm_plans(ms: Seq<MarketModel>, cfg: RiskConfig, now: int) -> Seq<PlanModel>
    decreases ms.len(),
{
    if ms.len() == 0 {
        seq![]
    } else {
        (if ms[0].volume >= MM_VOLUME_FLOOR as int {
            mm_market_plans_from(ms[0], cfg, now, 0)
        } else {
            seq![]
        }) + mm_plans(ms.drop_first(), cfg, now)
    }
}

/// Market making: mirrored post-only bid/ask spreads on high-volume markets.
#[derive(Debug)]
pub struct MarketMakingStrategy {
    pub name: &'static str,
}

impl MarketMakingStrategy {
    pub fn new() -> (r: MarketMakingStrategy)
        ensures
            r.name@ == "Market Making"@,
    {
        MarketMakingStrategy { name: "Market Making" }
    }

    pub fn name(&self) -> (r: &'static str)
        ensures
            r@ == self.name@,
    {
        self.name
    }

    /// Enabled exactly when code "D" is in the active set.
    pub fn is_enabled(&self, state: &BotState) -> (r: bool)
        ensures
            r == has_code(state@.active, "D"@),
    {
        state.contains_strategy("D")
    }

    /// The pure decision: the market-making plans for a snapshot.
    pub fn evaluate(&self, markets: &Vec<Market>, cfg: &RiskConfig, now_ms: u64) -> (r: Vec<
        TradePlan,
    >)
        requires
            markets_wf(market_models(markets@)),
            risk_config_wf(*cfg),
            now_ms <= MAX_NOW_MS,
        ensures
            plan_models(r@) == mm_plans(market_models(markets@), *cfg, now_ms as int),
            plans_safe(plan_models(r@), *cfg),
    {
        let ghost ms = market_models(markets@);
        let n: usize = markets.len();
        let mut r: Vec<TradePlan> = Vec::new();
        proof {
            assert(ms.skip(0) =~= ms);
            assert(plan_models(r@) =~= Seq::<PlanModel>::empty());
            assert(plan_models(r@) + mm_plans(ms, *cfg, now_ms as int) =~= mm_plans(
                ms,
                *cfg,
                now_ms as int,
            ));
        }
        let size: Dec = cfg.max_risk_per_trade.halve();
        let mut i: usize = 0;
        while i < n
            invariant
                0 <= i <= n,
                n == markets@.len(),
                ms == market_models(markets@),
                markets_wf(ms),
                risk_config_wf(*cfg),
                now_ms <= MAX_NOW_MS,
                size@ == cfg.max_risk_per_trade@ / 2,
                mm_plans(ms, *cfg, now_ms as int) == plan_models(r@) + mm_plans(
                    ms.skip(i as int),
                    *cfg,
                    now_ms as int,
                ),
                plans_safe(plan_models(r@), *cfg),
            decreases n - i,
        {
            let m: &Market = &markets[i];
            proof {
                assert(market_wf(ms[i as int]));
                assert(m@ == ms[i as int]);
                assert(ms.skip(i as int)[0] == ms[i as int]);
                assert(ms.skip(i as int).drop_first() =~= ms.skip(i as int + 1));
            }
            if m.volume.units >= MM_VOLUME_FLOOR {
                let tn: usize = m.outcome_tokens.len();
                let mut j: usize = 0;
                while j < tn
                    invariant
                        0 <= j <= tn,
                        tn == m.outcome_tokens@.len(),
                        ms == market_models(markets@),
                        0 <= i < n,
                        n == markets@.len(),
                        m == &markets@[i as int],
                        m@ == ms[i as int],
                        market_wf(ms[i as int]),
                        markets_wf(ms),
                        risk_config_wf(*cfg),
                        now_ms <= MAX_NOW_MS,
                        size@ == cfg.max_risk_per_trade@ / 2,
                        ms[i as int].volume >= MM_VOLUME_FLOOR as int,
                        mm_plans(ms, *cfg, now_ms as int) == plan_models(r@)
                            + mm_market_plans_from(ms[i as int], *cfg, now_ms as int, j as int)
                            + mm_plans(ms.skip(i as int + 1), *cfg, now_ms as int),
                        plans_safe(plan_models(r@), *cfg),
                    decreases tn - j,
                {
                    let ghost pre_plans = plan_models(r@);
                    let t: &crate::types::OutcomeToken = &m.outcome_tokens[j];
                    proof {
                        assert(t@ == m@.tokens[j as int]);
                        assert(0 < t@.price < DEC_SCALE);
                        lemma_mul_down_le_left(t.price@, MM_SPREAD_FRACTION as int);
                    }
                    let mid: Dec = t.price;
                    let half_spread: Dec = mid.mul(Dec::new(MM_SPREAD_FRACTION)).halve();
                    let bid_price: Dec = mid.sub(half_spread);
                    let ask_price: Dec = mid.add(half_spread);
                    if size.is_positive() {
                        let is_yes: bool = str_eq(t.outcome.as_str(), "YES");
                        let bid_side: OrderSide = if is_yes {
                            OrderSide::Buy
                        } else {
                            OrderSide::Sell
                        };
                        let ask_side: OrderSide = if is_yes {
                            OrderSide::Sell
                        } else {
                            OrderSide::Buy
                        };
                        let mut orders: Vec<Order> = Vec::new();
                        orders.push(Order {
                            id: crate::clob::fresh_order_id(),
                            token_id: t.token_id.clone(),
                            side: bid_side,
                            price: bid_price,
                            size,
                            order_type: OrderType::PostOnly,
                            status: OrderStatus::Pending,
                            created_at_ms: now_ms,
                        });
                        orders.push(Order {
                            id: crate::clob::fresh_order_id(),
                            token_id: t.token_id.clone(),
                            side: ask_side,
                            price: ask_price,
                            size,
                            order_type: OrderType::PostOnly,
                            status: OrderStatus::Pending,
                            created_at_ms: now_ms,
                        });
                        let plan = TradePlan {
                            orders,
                            pnl_delta: Dec::zero(),
                            trades_delta: 0,
                            exit: None,
                        };
                        proof {
                            assert(order_models(plan.orders@) =~= mm_token_plans(
                                ms[i as int].tokens[j as int],
                                *cfg,
                                now_ms as int,
                            )[0].orders);
                            assert(plan@ == mm_token_plans(
                                ms[i as int].tokens[j as int],
                                *cfg,
                                now_ms as int,
                            )[0]);
                        }
                        r.push(plan);
                        proof {
                            assert(plan_models(r@) =~= pre_plans + mm_token_plans(
                                ms[i as int].tokens[j as int],
                                *cfg,
                                now_ms as int,
                            ));
                        }
                    } else {
                        proof {
                            assert(mm_token_plans(ms[i as int].tokens[j as int], *cfg, now_ms as int)
                                =~= Seq::<PlanModel>::empty());
                            assert(plan_models(r@) =~= pre_plans + mm_token_plans(
                                ms[i as int].tokens[j as int],
                                *cfg,
                                now_ms as int,
                            ));
                        }
                    }
                    j = j + 1;
                }
                proof {
                    assert(mm_market_plans_from(ms[i as int], *cfg, now_ms as int, tn as int)
                        =~= Seq::<PlanModel>::empty());
                }
            } else {
                proof {
                    assert(ms[i as int].volume < MM_VOLUME_FLOOR as int);
                }
            }
            i = i + 1;
        }
        proof {
            assert(ms.skip(n as int) =~= Seq::<MarketModel>::empty());
        }
        r
    }
}

// ---------------------------------------------------------------------------
// Executing a strategy against the gateway and the shared state
// ---------------------------------------------------------------------------
/// What one strategy's `execute` does: nothing when disabled; otherwise it
/// fetches the snapshot `m` (refreshing the gateway cache), computes `all`,
/// returns it, and — in paper mode only — applies the owed accounting to the
/// shared state at once.
pub open spec fn strategy_execute_post(
    s0: StateModel,
    s1: StateModel,
    c0: ClobModel,
    c1: ClobModel,
    plans: Seq<PlanModel>,
    all: Seq<PlanModel>,
    enabled: bool,
    m: Seq<MarketModel>,
) -> bool {
    if !enabled {
        &&& s1 == s0
        &&& c1 == c0
        &&& plans == Seq::<PlanModel>::empty()
    } else {
        &&& c1 == (ClobModel { cache: m, ..c0 })
        &&& plans == all
        &&& (c0.paper ==> s1 == (StateModel {
            total_pnl: s0.total_pnl + plans_pnl(all),
            total_trades: s0.total_trades + plans_trades(all),
            ..s0
        }))
        &&& (!c0.paper ==> s1 == s0)
    }
}

/// Place every order of every plan on the simulated gateway and apply the
/// owed accounting, plan by plan.
fn apply_plans_paper(clob: &PolymarketClob, state: &mut BotState, plans: &Vec<TradePlan>)
    requires
        clob@.paper,
        plans_deltas_nonneg(plan_models(plans@)),
        old(state)@.total_pnl + plans_pnl(plan_models(plans@)) <= u64::MAX,
        old(state)@.total_trades + plans_trades(plan_models(plans@)) <= u64::MAX,
    ensures
        final(state)@ == (StateModel {
            total_pnl: old(state)@.total_pnl + plans_pnl(plan_models(plans@)),
            total_trades: old(state)@.total_trades + plans_trades(plan_models(plans@)),
            ..old(state)@
        }),
{
    let ghost ps = plan_models(plans@);
    let ghost s0 = old(state)@;
    let n: usize = plans.len();
    proof {
        assert(ps.skip(0) =~= ps);
    }
    let mut i: usize = 0;
    while i < n
        invariant
            0 <= i <= n,
            n == plans@.len(),
            ps == plan_models(plans@),
            s0 == old(state)@,
            clob@.paper,
            plans_deltas_nonneg(ps),
            s0.total_pnl + plans_pnl(ps) <= u64::MAX,
            s0.total_trades + plans_trades(ps) <= u64::MAX,
            state@ == (StateModel {
                total_pnl: s0.total_pnl + plans_pnl(ps) - plans_pnl(ps.skip(i as int)),
                total_trades: s0.total_trades + plans_trades(ps) - plans_trades(
                    ps.skip(i as int),
                ),
                ..s0
            }),
        decreases n - i,
    {
        let plan: &TradePlan = &plans[i];
        proof {
            assert(plan@ == ps[i as int]);
            lemma_plans_sum_step(ps, i as int);
            assert(plans_deltas_nonneg(ps.skip(i as int + 1))) by {
                assert forall|l: int|
                    0 <= l < ps.skip(i as int + 1).len() implies 0 <= (#[trigger] ps.skip(
                    i as int + 1,
                )[l]).pnl_delta && 0 <= ps.skip(i as int + 1)[l].trades_delta by {
                    assert(ps.skip(i as int + 1)[l] == ps[i as int + 1 + l]);
                }
            }
            lemma_plans_sums_nonneg(ps.skip(i as int + 1));
        }
        let on: usize = plan.orders.len();
        let mut k: usize = 0;
        while k < on
            invariant
                0 <= k <= on,
                on == plan.orders@.len(),
            decreases on - k,
        {
            match clob.place_order(&plan.orders[k]) {
                Ok(_) => {},
                Err(_) => {},
            }
            k = k + 1;
        }
        state.total_pnl = state.total_pnl.add(plan.pnl_delta);
        state.total_trades = state.total_trades + plan.trades_delta;
        i = i + 1;
    }
    proof {
        assert(ps.skip(n as int) =~= Seq::<PlanModel>::empty());
    }
}

impl ArbitrageStrategy {
    /// One arbitrage pass: early-return when disabled, else fetch a fresh
    /// snapshot, compute the plans, and in paper mode place and book them.
    /// The returned plans are what a live host must submit and confirm.
    pub fn execute(&self, clob: &mut PolymarketClob, state: &mut BotState, now_ms: u64) -> (r:
        Vec<TradePlan>)
        requires
            clob_wf(old(clob)@),
            now_ms <= MAX_NOW_MS,
            risk_config_wf(old(state)@.risk_config),
            0 <= old(state)@.balance <= AMOUNT_CAP,
            old(clob)@.paper && has_code(old(state)@.active, "A"@) ==> old(
                state,
            )@.total_pnl + plans_pnl(
                arb_plans(
                    spec_fetched(old(clob)@, now_ms),
                    old(state)@.risk_config,
                    old(state)@.balance,
                    now_ms as int,
                ),
            ) <= u64::MAX,
            old(clob)@.paper && has_code(old(state)@.active, "A"@) ==> old(
                state,
            )@.total_trades + plans_trades(
                arb_plans(
                    spec_fetched(old(clob)@, now_ms),
                    old(state)@.risk_config,
                    old(state)@.balance,
                    now_ms as int,
                ),
            ) <= u64::MAX,
        ensures
            strategy_execute_post(
                old(state)@,
                final(state)@,
                old(clob)@,
                final(clob)@,
                plan_models(r@),
                arb_plans(
                    spec_fetched(old(clob)@, now_ms),
                    old(state)@.risk_config,
                    old(state)@.balance,
                    now_ms as int,
                ),
                has_code(old(state)@.active, "A"@),
                spec_fetched(old(clob)@, now_ms),
            ),
            plans_safe(plan_models(r@), old(state)@.risk_config),
            clob_wf(final(clob)@),
    {
        if !self.is_enabled(state) {
            let r: Vec<TradePlan> = Vec::new();
            proof {
                assert(plan_models(r@) =~= Seq::<PlanModel>::empty());
            }
            return r;
        }
        let markets: Vec<Market> = clob.fetch_markets(now_ms);
        let cfg: RiskConfig = state.risk_config;
        let balance: Dec = state.balance;
        let plans: Vec<TradePlan> = self.evaluate(&markets, &cfg, balance, now_ms);
        if clob.is_paper() {
            apply_plans_paper(clob, state, &plans);
        }
        plans
    }
}

impl LowProbStrategy {
    /// One low-probability pass; same shape as the arbitrage pass.
    pub fn execute(&self, clob: &mut PolymarketClob, state: &mut BotState, now_ms: u64) -> (r:
        Vec<TradePlan>)
        requires
            clob_wf(old(clob)@),
            now_ms <= MAX_NOW_MS,
            risk_config_wf(old(state)@.risk_config),
            0 <= old(state)@.balance <= AMOUNT_CAP,
            old(clob)@.paper && has_code(old(state)@.active, "B"@) ==> old(
                state,
            )@.total_pnl + plans_pnl(
                lowprob_plans(
                    spec_fetched(old(clob)@, now_ms),
                    old(state)@.risk_config,
                    old(state)@.balance,
                    now_ms as int,
                ),
            ) <= u64::MAX,
            old(clob)@.paper && has_code(old(state)@.active, "B"@) ==> old(
                state,
            )@.total_trades + plans_trades(
                lowprob_plans(
                    spec_fetched(old(clob)@, now_ms),
                    old(state)@.risk_config,
                    old(state)@.balance,
                    now_ms as int,
                ),
            ) <= u64::MAX,
        ensures
            strategy_execute_post(
                old(state)@,
                final(state)@,
                old(clob)@,
                final(clob)@,
                plan_models(r@),
                lowprob_plans(
                    spec_fetched(old(clob)@, now_ms),
                    old(state)@.risk_config,
                    old(state)@.balance,
                    now_ms as int,
                ),
                has_code(old(state)@.active, "B"@),
                spec_fetched(old(clob)@, now_ms),
            ),
            plans_safe(plan_models(r@), old(state)@.risk_config),
            clob_wf(final(clob)@),
    {
        if !self.is_enabled(state) {
            let r: Vec<TradePlan> = Vec::new();
            proof {
                assert(plan_models(r@) =~= Seq::<PlanModel>::empty());
            }
            return r;
        }
        let markets: Vec<Market> = clob.fetch_markets(now_ms);
        let cfg: RiskConfig = state.risk_config;
        let balance: Dec = state.balance;
        let plans: Vec<TradePlan> = self.evaluate(&markets, &cfg, balance, now_ms);
        if clob.is_paper() {
            apply_plans_paper(clob, state, &plans);
        }
        plans
    }
}

impl ScalpingStrategy {
    /// One scalping pass: besides the shared shape, the rolling windows move
    /// forward by the fetched snapshot whenever the strategy is enabled.
    pub fn execute(&mut self, clob: &mut PolymarketClob, state: &mut BotState, now_ms: u64) -> (r:
        Vec<TradePlan>)
        requires
            clob_wf(old(clob)@),
            now_ms <= MAX_NOW_MS,
            risk_config_wf(old(state)@.risk_config),
            scalp_history_wf(series_models(old(self).price_history@)),
            old(clob)@.paper && has_code(old(state)@.active, "C"@) ==> old(
                state,
            )@.total_pnl + plans_pnl(
                scalp_plans(
                    series_models(old(self).price_history@),
                    spec_fetched(old(clob)@, now_ms),
                    old(state)@.risk_config,
                    now_ms as int,
                ),
            ) <= u64::MAX,
            old(clob)@.paper && has_code(old(state)@.active, "C"@) ==> old(
                state,
            )@.total_trades + plans_trades(
                scalp_plans(
                    series_models(old(self).price_history@),
                    spec_fetched(old(clob)@, now_ms),
                    old(state)@.risk_config,
                    now_ms as int,
                ),
            ) <= u64::MAX,
        ensures
            strategy_execute_post(
                old(state)@,
                final(state)@,
                old(clob)@,
                final(clob)@,
                plan_models(r@),
                scalp_plans(
                    series_models(old(self).price_history@),
                    spec_fetched(old(clob)@, now_ms),
                    old(state)@.risk_config,
                    now_ms as int,
                ),
                has_code(old(state)@.active, "C"@),
                spec_fetched(old(clob)@, now_ms),
            ),
            series_models(final(self).price_history@) == (if has_code(old(state)@.active, "C"@) {
                scalp_history_after(
                    series_models(old(self).price_history@),
                    spec_fetched(old(clob)@, now_ms),
                )
            } else {
                series_models(old(self).price_history@)
            }),
            scalp_history_wf(series_models(final(self).price_history@)),
            plans_safe(plan_models(r@), old(state)@.risk_config),
            final(self).name == old(self).name,
            clob_wf(final(clob)@),
    {
        if !self.is_enabled(state) {
            let r: Vec<TradePlan> = Vec::new();
            proof {
                assert(plan_models(r@) =~= Seq::<PlanModel>::empty());
            }
            return r;
        }
        let markets: Vec<Market> = clob.fetch_markets(now_ms);
        let cfg: RiskConfig = state.risk_config;
        let plans: Vec<TradePlan> = self.evaluate(&markets, &cfg, now_ms);
        if clob.is_paper() {
            apply_plans_paper(clob, state, &plans);
        }
        plans
    }
}

impl MarketMakingStrategy {
    /// One market-making pass; same shape as the arbitrage pass.
    pub fn execute(&self, clob: &mut PolymarketClob, state: &mut BotState, now_ms: u64) -> (r:
        Vec<TradePlan>)
        requires
            clob_wf(old(clob)@),
            now_ms <= MAX_NOW_MS,
            risk_config_wf(old(state)@.risk_config),
            old(clob)@.paper && has_code(old(state)@.active, "D"@) ==> old(
                state,
            )@.total_pnl + plans_pnl(
                mm_plans(spec_fetched(old(clob)@, now_ms), old(state)@.risk_config, now_ms as int),
            ) <= u64::MAX,
            old(clob)@.paper && has_code(old(state)@.active, "D"@) ==> old(
                state,
            )@.total_trades + plans_trades(
                mm_plans(spec_fetched(old(clob)@, now_ms), old(state)@.risk_config, now_ms as int),
            ) <= u64::MAX,
        ensures
            strategy_execute_post(
                old(state)@,
                final(state)@,
                old(clob)@,
                final(clob)@,
                plan_models(r@),
                mm_plans(spec_fetched(old(clob)@, now_ms), old(state)@.risk_config, now_ms as int),
                has_code(old(state)@.active, "D"@),
                spec_fetched(old(clob)@, now_ms),
            ),
            plans_safe(plan_models(r@), old(state)@.risk_config),
            clob_wf(final(clob)@),
    {
        if !self.is_enabled(state) {
            let r: Vec<TradePlan> = Vec::new();
            proof {
                assert(plan_models(r@) =~= Seq::<PlanModel>::empty());
            }
            return r;
        }
        let markets: Vec<Market> = clob.fetch_markets(now_ms);
        let cfg: RiskConfig = state.risk_config;
        let plans: Vec<TradePlan> = self.evaluate(&markets, &cfg, now_ms);
        if clob.is_paper() {
            apply_plans_paper(clob, state, &plans);
        }
        plans
    }
}

// ---------------------------------------------------------------------------
// The engine
// ---------------------------------------------------------------------------
pub open spec fn exit_models(v: Seq<ScheduledExit>) -> Seq<ExitModel> {
    v.map_values(|e: ScheduledExit| e@)
}

/// The deferred exits a list of plans schedules, in order.
pub open spec fn plans_exits(ps: Seq<PlanModel>) -> Seq<ExitModel>
    decreases ps.len(),
{
    if ps.len() == 0 {
        seq![]
    } else {
        (match ps[0].exit {
            Some(e) => seq![e],
            None => seq![],
        }) + plans_exits(ps.drop_first())
    }
}

pub proof fn lemma_plans_exits_step(ps: Seq<PlanModel>, i: int)
    requires
        0 <= i < ps.len(),
    ensures
        plans_exits(ps.skip(i)) == (match ps[i].exit {
            Some(e) => seq![e],
            None => Seq::<ExitModel>::empty(),
        }) + plans_exits(ps.skip(i + 1)),
{
    assert(ps.skip(i)[0] == ps[i]);
    assert(ps.skip(i).drop_first() =~= ps.skip(i + 1));
}

pub open spec fn pending_wf(p: Seq<ExitModel>) -> bool {
    forall|i: int| 0 <= i < p.len() ==> exit_wf(#[trigger] p[i])
}

pub open spec fn engine_wf(e: EngineModel) -> bool {
    &&& scalp_history_wf(e.history)
    &&& pending_wf(e.pending)
}

pub ghost struct EngineModel {
    pub history: Seq<SeriesModel>,
    pub pending: Seq<ExitModel>,
}

/// The scheduler: owns the four strategies and the deferred-exit queue, and
/// drives one scan cycle at a time. The host loop around it supplies the
/// clock and the sleeping.
#[derive(Debug)]
pub struct StrategyEngine {
    pub arbitrage: ArbitrageStrategy,
    pub low_prob: LowProbStrategy,
    pub scalping: ScalpingStrategy,
    pub market_making: MarketMakingStrategy,
    /// Scheduled scalping exits not yet fired.
    pub pending_exits: Vec<ScheduledExit>,
}

impl View for StrategyEngine {
    type V = EngineModel;

    open spec fn view(&self) -> EngineModel {
        EngineModel {
            history: series_models(self.scalping.price_history@),
            pending: exit_models(self.pending_exits@),
        }
    }
}

pub open spec fn any_enabled(s: StateModel) -> bool {
    ||| has_code(s.active, "A"@)
    ||| has_code(s.active, "B"@)
    ||| has_code(s.active, "C"@)
    ||| has_code(s.active, "D"@)
}

pub open spec fn cycle_plans_a(s: StateModel, c: ClobModel, now: u64) -> Seq<PlanModel> {
    if has_code(s.active, "A"@) {
        arb_plans(spec_fetched(c, now), s.risk_config, s.balance, now as int)
    } else {
        seq![]
    }
}

pub open spec fn cycle_plans_b(s: StateModel, c: ClobModel, now: u64) -> Seq<PlanModel> {
    if has_code(s.active, "B"@) {
        lowprob_plans(spec_fetched(c, now), s.risk_config, s.balance, now as int)
    } else {
        seq![]
    }
}

pub open spec fn cycle_plans_c(s: StateModel, c: ClobModel, e: EngineModel, now: u64) -> Seq<
    PlanModel,
> {
    if has_code(s.active, "C"@) {
        scalp_plans(e.history, spec_fetched(c, now), s.risk_config, now as int)
    } else {
        seq![]
    }
}

pub open spec fn cycle_plans_d(s: StateModel, c: ClobModel, now: u64) -> Seq<PlanModel> {
    if has_code(s.active, "D"@) {
        mm_plans(spec_fetched(c, now), s.risk_config, now as int)
    } else {
        seq![]
    }
}

/// Everything one active scan cycle would plan, strategy by strategy in
/// registration order.
pub open spec fn cycle_plans(s: StateModel, c: ClobModel, e: EngineModel, now: u64) -> Seq<
    PlanModel,
> {
    cycle_plans_a(s, c, now) + cycle_plans_b(s, c, now) + cycle_plans_c(s, c, e, now)
        + cycle_plans_d(s, c, now)
}

/// Room in the counters for each strategy's booking, applied in order.
pub open spec fn cycle_headroom(s: StateModel, c: ClobModel, e: EngineModel, now: u64) -> bool {
    let pa = plans_pnl(cycle_plans_a(s, c, now));
    let pb = plans_pnl(cycle_plans_b(s, c, now));
    let pc = plans_pnl(cycle_plans_c(s, c, e, now));
    let pd = plans_pnl(cycle_plans_d(s, c, now));
    let ta = plans_trades(cycle_plans_a(s, c, now));
    let tb = plans_trades(cycle_plans_b(s, c, now));
    let tc = plans_trades(cycle_plans_c(s, c, e, now));
    let td = plans_trades(cycle_plans_d(s, c, now));
    &&& c.paper ==> {
        &&& s.total_pnl + pa <= u64::MAX
        &&& s.total_pnl + pa + pb <= u64::MAX
        &&& s.total_pnl + pa + pb + pc <= u64::MAX
        &&& s.total_pnl + pa + pb + pc + pd <= u64::MAX
        &&& s.total_trades + ta <= u64::MAX
        &&& s.total_trades + ta + tb <= u64::MAX
        &&& s.total_trades + ta + tb + tc <= u64::MAX
        &&& s.total_trades + ta + tb + tc + td <= u64::MAX
    }
}

/// What one scan cycle does. While stopped, nothing. While active: every
/// strategy runs in registration order against the same snapshot (each one
/// gates itself on its own enablement), the emitted plans are returned, in
/// paper mode their accounting is already applied and their deferred exits
/// are queued, and in live mode state is untouched — the host submits the
/// plans and reports back through `apply_plan_outcome`.
pub open spec fn cycle_post(
    s0: StateModel,
    s1: StateModel,
    c0: ClobModel,
    c1: ClobModel,
    e0: EngineModel,
    e1: EngineModel,
    plans: Seq<PlanModel>,
    now: u64,
) -> bool {
    if s0.status is Stopped {
        &&& s1 == s0
        &&& c1 == c0
        &&& e1 == e0
        &&& plans == Seq::<PlanModel>::empty()
    } else {
        let all = cycle_plans(s0, c0, e0, now);
        &&& plans == all
        &&& c1 == (if any_enabled(s0) {
            ClobModel { cache: spec_fetched(c0, now), ..c0 }
        } else {
            c0
        })
        &&& e1.history == (if has_code(s0.active, "C"@) {
            scalp_history_after(e0.history, spec_fetched(c0, now))
        } else {
            e0.history
        })
        &&& e1.pending == (if c0.paper {
            e0.pending + plans_exits(all)
        } else {
            e0.pending
        })
        &&& (c0.paper ==> s1 == (StateModel {
            total_pnl: s0.total_pnl + plans_pnl(all),
            total_trades: s0.total_trades + plans_trades(all),
            ..s0
        }))
        &&& (!c0.paper ==> s1 == s0)
    }
}

impl StrategyEngine {
    pub fn new() -> (r: StrategyEngine)
        ensures
            r@ == (EngineModel {
                history: Seq::<SeriesModel>::empty(),
                pending: Seq::<ExitModel>::empty(),
            }),
            engine_wf(r@),
    {
        let r = StrategyEngine {
            arbitrage: ArbitrageStrategy::new(),
            low_prob: LowProbStrategy::new(),
            scalping: ScalpingStrategy::new(),
            market_making: MarketMakingStrategy::new(),
            pending_exits: Vec::new(),
        };
        proof {
            assert(r@.pending =~= Seq::<ExitModel>::empty());
        }
        r
    }

    /// One scan cycle; see `cycle_post`.
    #[verifier::rlimit(100)]
    pub fn run_cycle(&mut self, clob: &mut PolymarketClob, state: &mut BotState, now_ms: u64)
        -> (r: Vec<TradePlan>)
        requires
            clob_wf(old(clob)@),
            now_ms <= MAX_NOW_MS,
            risk_config_wf(old(state)@.risk_config),
            0 <= old(state)@.balance <= AMOUNT_CAP,
            engine_wf(old(self)@),
            cycle_headroom(old(state)@, old(clob)@, old(self)@, now_ms),
        ensures
            cycle_post(
                old(state)@,
                final(state)@,
                old(clob)@,
                final(clob)@,
                old(self)@,
                final(self)@,
                plan_models(r@),
                now_ms,
            ),
            engine_wf(final(self)@),
            clob_wf(final(clob)@),
            plans_safe(plan_models(r@), old(state)@.risk_config),
    {
        let ghost s0 = state@;
        let ghost c0 = clob@;
        let ghost e0 = self@;
        let stopped: bool = match &state.status {
            BotStatus::Stopped => true,
            _ => false,
        };
        if stopped {
            let r: Vec<TradePlan> = Vec::new();
            proof {
                assert(plan_models(r@) =~= Seq::<PlanModel>::empty());
            }
            return r;
        }
        let ghost pa = cycle_plans_a(s0, c0, now_ms);
        let ghost pb = cycle_plans_b(s0, c0, now_ms);
        let ghost pc = cycle_plans_c(s0, c0, e0, now_ms);
        let ghost pd = cycle_plans_d(s0, c0, now_ms);
        let mut all: Vec<TradePlan> = self.arbitrage.execute(clob, state, now_ms);
        proof {
            if !has_code(s0.active, "A"@) {
                assert(pa =~= Seq::<PlanModel>::empty());
            }
            assert(plan_models(all@) == pa);
            assert(spec_fetched(clob@, now_ms) == spec_fetched(c0, now_ms));
        }
        let mut more_b: Vec<TradePlan> = self.low_prob.execute(clob, state, now_ms);
        proof {
            if !has_code(s0.active, "B"@) {
                assert(pb =~= Seq::<PlanModel>::empty());
            }
            assert(plan_models(more_b@) == pb);
            assert(spec_fetched(clob@, now_ms) == spec_fetched(c0, now_ms));
        }
        all.append(&mut more_b);
        proof {
            assert(plan_models(all@) =~= pa + pb);
        }
        let mut more_c: Vec<TradePlan> = self.scalping.execute(clob, state, now_ms);
        proof {
            if !has_code(s0.active, "C"@) {
                assert(pc =~= Seq::<PlanModel>::empty());
            }
            assert(plan_models(more_c@) == pc);
            assert(spec_fetched(clob@, now_ms) == spec_fetched(c0, now_ms));
        }
        all.append(&mut more_c);
        proof {
            assert(plan_models(all@) =~= (pa + pb) + pc);
        }
        let mut more_d: Vec<TradePlan> = self.market_making.execute(clob, state, now_ms);
        proof {
            if !has_code(s0.active, "D"@) {
                assert(pd =~= Seq::<PlanModel>::empty());
            }
            assert(plan_models(more_d@) == pd);
        }
        all.append(&mut more_d);
        proof {
            assert(plan_models(all@) =~= ((pa + pb) + pc) + pd);
            assert(cycle_plans(s0, c0, e0, now_ms) =~= ((pa + pb) + pc) + pd);
            lemma_plans_sum_concat(pa, pb);
            lemma_plans_sum_concat(pa + pb, pc);
            lemma_plans_sum_concat((pa + pb) + pc, pd);
        }
        // In paper mode every entry leg has been placed and booked, so queue
        // the deferred exits now; a live host queues its own on confirmation.
        if clob.is_paper() {
            let ghost ps = plan_models(all@);
            let ghost hist_mid = series_models(self.scalping.price_history@);
            let n: usize = all.len();
            proof {
                assert(ps.skip(0) =~= ps);
                assert(exit_models(self.pending_exits@) + plans_exits(ps.skip(0))
                    =~= e0.pending + plans_exits(ps));
            }
            let mut i: usize = 0;
            while i < n
                invariant
                    0 <= i <= n,
                    n == all@.len(),
                    ps == plan_models(all@),
                    plans_safe(ps, s0.risk_config),
                    pending_wf(exit_models(self.pending_exits@)),
                    series_models(self.scalping.price_history@) == hist_mid,
                    scalp_history_wf(hist_mid),
                    exit_models(self.pending_exits@) + plans_exits(ps.skip(i as int)) == e0.pending
                        + plans_exits(ps),
                decreases n - i,
            {
                proof {
                    lemma_plans_exits_step(ps, i as int);
                    assert(plan_safe(ps[i as int], s0.risk_config));
                }
                let plan: &TradePlan = &all[i];
                match &plan.exit {
                    Some(e) => {
                        let ghost pre = exit_models(self.pending_exits@);
                        self.pending_exits.push(clone_exit(e));
                        proof {
                            assert(exit_models(self.pending_exits@) =~= pre.push(e@));
                            assert(pre.push(e@) =~= pre + seq![e@]);
                        }
                    },
                    None => {
                        proof {
                            assert(plans_exits(ps.skip(i as int)) =~= plans_exits(
                                ps.skip(i as int + 1),
                            ));
                        }
                    },
                }
                i = i + 1;
            }
            proof {
                assert(ps.skip(n as int) =~= Seq::<PlanModel>::empty());
                assert(plans_exits(Seq::<PlanModel>::empty()) =~= Seq::<ExitModel>::empty());
                assert(exit_models(self.pending_exits@) =~= e0.pending + plans_exits(ps));
            }
        }
        all
    }
}

/// The limit-sell target of a deferred exit: 1.15 times the entry price.
pub open spec fn exit_target(e: ExitModel) -> int {
    dec_mul_down(e.entry_price, SCALP_EXIT_TARGET as int)
}

/// The profit booked when an exit is placed: `(target - entry) * size`.
pub open spec fn exit_profit(e: ExitModel) -> int {
    dec_mul_down(exit_target(e) - e.entry_price, e.size)
}

/// The plan a due exit fires: one limit sell at the target, the realized
/// profit credited and two trades counted.
pub open spec fn exit_plan_model(e: ExitModel, now: int) -> PlanModel {
    PlanModel {
        orders: seq![
            OrderModel {
                token_id: e.token_id,
                side: OrderSide::Sell,
                price: exit_target(e),
                size: e.size,
                order_type: OrderType::Limit,
                status: OrderStatus::Pending,
                created_at_ms: now,
            },
        ],
        pnl_delta: exit_profit(e),
        trades_delta: 2,
        exit: None,
    }
}

pub open spec fn exit_plan_models(es: Seq<ExitModel>, now: int) -> Seq<PlanModel> {
    es.map_values(|e: ExitModel| exit_plan_model(e, now))
}

/// The queued exits that have come due by `now`, in order.
pub open spec fn exits_due(p: Seq<ExitModel>, now: u64) -> Seq<ExitModel>
    decreases p.len(),
{
    if p.len() == 0 {
        seq![]
    } else {
        (if p[0].due_ms <= now as int {
            seq![p[0]]
        } else {
            seq![]
        }) + exits_due(p.drop_first(), now)
    }
}

/// The queued exits not yet due by `now`, in order.
pub open spec fn exits_remaining(p: Seq<ExitModel>, now: u64) -> Seq<ExitModel>
    decreases p.len(),
{
    if p.len() == 0 {
        seq![]
    } else {
        (if p[0].due_ms > now as int {
            seq![p[0]]
        } else {
            seq![]
        }) + exits_remaining(p.drop_first(), now)
    }
}

pub proof fn lemma_exits_split_step(p: Seq<ExitModel>, now: u64, i: int)
    requires
        0 <= i < p.len(),
    ensures
        exits_due(p.skip(i), now) == (if p[i].due_ms <= now as int {
            seq![p[i]]
        } else {
            Seq::<ExitModel>::empty()
        }) + exits_due(p.skip(i + 1), now),
        exits_remaining(p.skip(i), now) == (if p[i].due_ms > now as int {
            seq![p[i]]
        } else {
            Seq::<ExitModel>::empty()
        }) + exits_remaining(p.skip(i + 1), now),
{
    assert(p.skip(i)[0] == p[i]);
    assert(p.skip(i).drop_first() =~= p.skip(i + 1));
}

impl StrategyEngine {
    /// Book the accounting a plan owes once the host reports that every one
    /// of its legs was submitted, and queue its deferred exit; a failed or
    /// partial submission books nothing (the opportunity is simply abandoned
    /// for this cycle, never retried from here).
    pub fn apply_plan_outcome(
        &mut self,
        state: &mut BotState,
        plan: &TradePlan,
        all_legs_placed: bool,
    )
        requires
            all_legs_placed ==> old(state)@.total_pnl + plan@.pnl_delta <= u64::MAX,
            all_legs_placed ==> old(state)@.total_trades + plan@.trades_delta <= u64::MAX,
            pending_wf(old(self)@.pending),
            plan@.exit matches Some(e) ==> exit_wf(e),
        ensures
            all_legs_placed ==> final(state)@ == (StateModel {
                total_pnl: old(state)@.total_pnl + plan@.pnl_delta,
                total_trades: old(state)@.total_trades + plan@.trades_delta,
                ..old(state)@
            }),
            all_legs_placed ==> final(self)@.pending == old(self)@.pending + plans_exits(
                seq![plan@],
            ),
            !all_legs_placed ==> final(state)@ == old(state)@ && final(self)@ == old(self)@,
            final(self)@.history == old(self)@.history,
            pending_wf(final(self)@.pending),
    {
        if all_legs_placed {
            state.total_pnl = state.total_pnl.add(plan.pnl_delta);
            state.total_trades = state.total_trades + plan.trades_delta;
            let ghost pre = exit_models(self.pending_exits@);
            match &plan.exit {
                Some(e) => {
                    self.pending_exits.push(clone_exit(e));
                    proof {
                        assert(exit_models(self.pending_exits@) =~= pre.push(e@));
                        assert(plans_exits(seq![plan@].drop_first())
                            =~= Seq::<ExitModel>::empty());
                        assert(pre.push(e@) =~= pre + plans_exits(seq![plan@]));
                    }
                },
                None => {
                    proof {
                        assert(plans_exits(seq![plan@].drop_first())
                            =~= Seq::<ExitModel>::empty());
                        assert(plans_exits(seq![plan@]) =~= Seq::<ExitModel>::empty());
                        assert(exit_models(self.pending_exits@) =~= pre + plans_exits(
                            seq![plan@],
                        ));
                    }
                },
            }
        }
    }

    /// Fire every deferred exit that has come due: place its limit sell at
    /// 1.15 times the entry and, in paper mode, book the realized profit and
    /// two trades at once. Exits not yet due stay queued; stopping the bot
    /// never cancels them. In live mode the returned plans go to the host
    /// transport like any others.
    pub fn process_due_exits(
        &mut self,
        clob: &PolymarketClob,
        state: &mut BotState,
        now_ms: u64,
    ) -> (r: Vec<TradePlan>)
        requires
            engine_wf(old(self)@),
            clob@.paper ==> old(state)@.total_pnl + plans_pnl(
                exit_plan_models(exits_due(old(self)@.pending, now_ms), now_ms as int),
            ) <= u64::MAX,
            clob@.paper ==> old(state)@.total_trades + plans_trades(
                exit_plan_models(exits_due(old(self)@.pending, now_ms), now_ms as int),
            ) <= u64::MAX,
        ensures
            plan_models(r@) == exit_plan_models(
                exits_due(old(self)@.pending, now_ms),
                now_ms as int,
            ),
            final(self)@.pending == exits_remaining(old(self)@.pending, now_ms),
            final(self)@.history == old(self)@.history,
            engine_wf(final(self)@),
            clob@.paper ==> final(state)@ == (StateModel {
                total_pnl: old(state)@.total_pnl + plans_pnl(plan_models(r@)),
                total_trades: old(state)@.total_trades + plans_trades(plan_models(r@)),
                ..old(state)@
            }),
            !clob@.paper ==> final(state)@ == old(state)@,
    {
        let ghost p0 = exit_models(self.pending_exits@);
        let n: usize = self.pending_exits.len();
        let mut due_plans: Vec<TradePlan> = Vec::new();
        let mut remaining: Vec<ScheduledExit> = Vec::new();
        proof {
            assert(p0.skip(0) =~= p0);
            assert(plan_models(due_plans@) =~= Seq::<PlanModel>::empty());
            assert(exit_models(remaining@) =~= Seq::<ExitModel>::empty());
            assert(plan_models(due_plans@) + exit_plan_models(
                exits_due(p0.skip(0), now_ms),
                now_ms as int,
            ) =~= exit_plan_models(exits_due(p0, now_ms), now_ms as int));
            assert(exit_models(remaining@) + exits_remaining(p0.skip(0), now_ms)
                =~= exits_remaining(p0, now_ms));
        }
        let mut i: usize = 0;
        while i < n
            invariant
                0 <= i <= n,
                n == self.pending_exits@.len(),
                *self == *old(self),
                p0 == exit_models(self.pending_exits@),
                pending_wf(p0),
                plan_models(due_plans@) + exit_plan_models(
                    exits_due(p0.skip(i as int), now_ms),
                    now_ms as int,
                ) == exit_plan_models(exits_due(p0, now_ms), now_ms as int),
                exit_models(remaining@) + exits_remaining(p0.skip(i as int), now_ms)
                    == exits_remaining(p0, now_ms),
                plans_deltas_nonneg(plan_models(due_plans@)),
                pending_wf(exit_models(remaining@)),
            decreases n - i,
        {
            let ghost pre_due = plan_models(due_plans@);
            let ghost pre_rem = exit_models(remaining@);
            proof {
                lemma_exits_split_step(p0, now_ms, i as int);
                assert(exit_wf(p0[i as int]));
            }
            let e: &ScheduledExit = &self.pending_exits[i];
            proof {
                assert(e@ == p0[i as int]);
            }
            if e.due_ms <= now_ms {
                proof {
                    lemma_mul_down_ge_one_factor(e.entry_price@, SCALP_EXIT_TARGET as int);
                    lemma_mul_down_le_double(
                        dec_mul_down(e.entry_price@, SCALP_EXIT_TARGET as int) - e.entry_price@,
                        e.size@,
                    );
                    assert(dec_mul_down(e.entry_price@, SCALP_EXIT_TARGET as int) <= 2
                        * DEC_SCALE) by {
                        assert((e.entry_price@ * (SCALP_EXIT_TARGET as int)) / (
                        DEC_SCALE as int) <= 2 * DEC_SCALE) by (nonlinear_arith)
                            requires
                                0 <= e.entry_price@ < DEC_SCALE as int,
                        ;
                    }
                }
                let target: Dec = e.entry_price.mul(Dec::new(SCALP_EXIT_TARGET));
                let profit: Dec = target.sub(e.entry_price).mul(e.size);
                let mut orders: Vec<Order> = Vec::new();
                orders.push(Order {
                    id: crate::clob::fresh_order_id(),
                    token_id: e.token_id.clone(),
                    side: OrderSide::Sell,
                    price: target,
                    size: e.size,
                    order_type: OrderType::Limit,
                    status: OrderStatus::Pending,
                    created_at_ms: now_ms,
                });
                let plan = TradePlan {
                    orders,
                    pnl_delta: profit,
                    trades_delta: 2,
                    exit: None,
                };
                proof {
                    assert(order_models(plan.orders@) =~= exit_plan_model(
                        p0[i as int],
                        now_ms as int,
                    ).orders);
                    assert(plan@ == exit_plan_model(p0[i as int], now_ms as int));
                }
                due_plans.push(plan);
                proof {
                    assert(plan_models(due_plans@) =~= pre_due.push(
                        exit_plan_model(p0[i as int], now_ms as int),
                    ));
                    assert(pre_due.push(exit_plan_model(p0[i as int], now_ms as int))
                        =~= pre_due + exit_plan_models(seq![p0[i as int]], now_ms as int));
                    assert(exit_plan_models(
                        exits_due(p0.skip(i as int), now_ms),
                        now_ms as int,
                    ) =~= exit_plan_models(seq![p0[i as int]], now_ms as int)
                        + exit_plan_models(exits_due(p0.skip(i as int + 1), now_ms), now_ms as int));
                }
            } else {
                remaining.push(clone_exit(e));
                proof {
                    assert(exit_models(remaining@) =~= pre_rem.push(p0[i as int]));
                    assert(pre_rem.push(p0[i as int]) =~= pre_rem + seq![p0[i as int]]);
                    assert(exit_plan_models(
                        exits_due(p0.skip(i as int), now_ms),
                        now_ms as int,
                    ) =~= exit_plan_models(exits_due(p0.skip(i as int + 1), now_ms), now_ms as int));
                }
            }
            i = i + 1;
        }
        proof {
            assert(p0.skip(n as int) =~= Seq::<ExitModel>::empty());
            assert(exits_due(Seq::<ExitModel>::empty(), now_ms) =~= Seq::<ExitModel>::empty());
            assert(exits_remaining(Seq::<ExitModel>::empty(), now_ms)
                =~= Seq::<ExitModel>::empty());
            assert(exit_plan_models(Seq::<ExitModel>::empty(), now_ms as int)
                =~= Seq::<PlanModel>::empty());
            assert(plan_models(due_plans@) =~= exit_plan_models(
                exits_due(p0, now_ms),
                now_ms as int,
            ));
            assert(exit_models(remaining@) =~= exits_remaining(p0, now_ms));
        }
        self.pending_exits = remaining;
        if clob.is_paper() {
            apply_plans_paper(clob, state, &due_plans);
        }
        due_plans
    }
}

/// Copy a scheduled exit value for value.
fn clone_exit(e: &ScheduledExit) -> (r: ScheduledExit)
    ensures
        r@ == e@,
{
    ScheduledExit {
        market_id: e.market_id.clone(),
        token_id: e.token_id.clone(),
        entry_price: e.entry_price,
        size: e.size,
        due_ms: e.due_ms,
    }
}

// ---------------------------------------------------------------------------
// Laws
// ---------------------------------------------------------------------------
/// On a well-formed market with exactly two outcome tokens, with a balance
/// large enough that the computed size is positive, arbitrage fires —
/// produces exactly one two-leg plan — if and only if the two prices sum
/// below the threshold; and the profit credited is exactly
/// `(1 - total_cost) * size`. A market with any other number of outcome
/// tokens never fires at all (`arb_fires` demands exactly two).
pub proof fn lemma_arbitrage_fires_iff(m: MarketModel, cfg: RiskConfig, balance: int, now: int)
    requires
        market_wf(m),
        m.tokens.len() == 2,
        risk_config_wf(cfg),
        dec_mul_down(balance, cfg.max_position_size@) >= 1,
        cfg.max_risk_per_trade@ >= 1,
    ensures
        arb_market_plans(m, cfg, balance, now).len() > 0 <==> m.tokens[0].price + m.tokens[1].price
            < cfg.arb_threshold@,
        arb_fires(m, cfg) ==> arb_market_plans(m, cfg, balance, now)[0].pnl_delta == dec_mul_down(
            DEC_SCALE - arb_total_cost(m),
            arb_size(m, cfg, balance),
        ),
{
    if arb_fires(m, cfg) {
        let x = dec_mul_down(balance, cfg.max_position_size@);
        let t = arb_total_cost(m);
        assert(0 < t < DEC_SCALE);
        assert(dec_div_down(x, t) >= 1) by {
            assert(x * (DEC_SCALE as int) >= t) by (nonlinear_arith)
                requires
                    x >= 1,
                    0 < t < DEC_SCALE as int,
            ;
            assert((x * (DEC_SCALE as int)) / t >= 1) by (nonlinear_arith)
                requires
                    x * (DEC_SCALE as int) >= t,
                    t > 0,
            ;
        }
        assert(arb_size(m, cfg, balance) >= 1);
    }
}

/// Scalping drop detection: a window shorter than the lookback never fires;
/// and whenever the newest price has fallen below
/// `oldest_of_window * (1 - threshold)`, the detector does fire.
pub proof fn lemma_scalping_drop_detection(prices: Seq<int>, threshold: int)
    requires
        0 < threshold < DEC_SCALE,
        prices.len() >= SCALP_LOOKBACK as int ==> 0 < prices[prices.len() - 10] < DEC_SCALE && 0
            <= prices[prices.len() - 1],
    ensures
        prices.len() < SCALP_LOOKBACK as int ==> !scalp_fires(prices, threshold),
        prices.len() >= SCALP_LOOKBACK as int && prices[prices.len() - 1] < dec_mul_down(
            prices[prices.len() - 10],
            DEC_SCALE - threshold,
        ) ==> scalp_fires(prices, threshold),
{
    if prices.len() >= SCALP_LOOKBACK as int {
        let p0 = prices[prices.len() - 10];
        let p9 = prices[prices.len() - 1];
        let sc = DEC_SCALE as int;
        let t = threshold;
        if p9 < dec_mul_down(p0, sc - t) {
            let a = (p0 * (sc - t)) / sc;
            assert(a * sc <= p0 * (sc - t)) by (nonlinear_arith)
                requires
                    a == (p0 * (sc - t)) / sc,
                    sc > 0,
                    p0 >= 0,
                    sc - t >= 0,
            ;
            assert(p9 <= a - 1);
            assert(p9 * sc <= a * sc - sc) by (nonlinear_arith)
                requires
                    p9 <= a - 1,
                    sc > 0,
            ;
            assert((p0 - p9) * sc >= p0 * t + sc) by (nonlinear_arith)
                requires
                    p9 * sc <= p0 * (sc - t) - sc,
            ;
            assert((p0 - p9) * sc >= (t + 1) * p0) by (nonlinear_arith)
                requires
                    (p0 - p9) * sc >= p0 * t + sc,
                    sc >= p0,
            ;
            assert(((p0 - p9) * sc) / p0 >= t + 1) by (nonlinear_arith)
                requires
                    (p0 - p9) * sc >= (t + 1) * p0,
                    p0 > 0,
                    t + 1 >= 0,
            ;
            assert(p9 < p0) by (nonlinear_arith)
                requires
                    p9 * sc <= p0 * (sc - t) - sc,
                    p9 >= 0,
                    0 < t < sc,
                    0 < p0,
            ;
            assert(dec_div_down(p0 - p9, p0) > t);
            assert(scalp_fires(prices, threshold));
        }
    }
}

/// Position sizing never exceeds the per-trade ceiling, or the documented
/// strategy-specific multiple of it: arbitrage stays at or below the
/// ceiling, low-probability entries at or below twice it, a scalping entry
/// is exactly the ceiling, and each market-making side is half of it. A
/// non-positive computed size never becomes an order at all: every emitted
/// plan carries only positive sizes (see `plans_safe` on each `evaluate`).
pub proof fn lemma_position_sizing_bounded(
    h: Seq<SeriesModel>,
    m: MarketModel,
    t: TokenModel,
    cfg: RiskConfig,
    balance: int,
    now: int,
)
    requires
        risk_config_wf(cfg),
        0 <= balance,
    ensures
        arb_size(m, cfg, balance) <= cfg.max_risk_per_trade@,
        lowprob_size(cfg, balance) <= 2 * cfg.max_risk_per_trade@,
        forall|p: PlanModel, k: int|
            scalp_market_plans(h, m, cfg, now).contains(p) && 0 <= k < p.orders.len()
                ==> (#[trigger] p.orders[k]).size == cfg.max_risk_per_trade@,
        forall|p: PlanModel, k: int|
            mm_token_plans(t, cfg, now).contains(p) && 0 <= k < p.orders.len() ==> (
            #[trigger] p.orders[k]).size == cfg.max_risk_per_trade@ / 2,
{
    assert forall|p: PlanModel, k: int|
        scalp_market_plans(h, m, cfg, now).contains(p) && 0 <= k < p.orders.len() implies (
    #[trigger] p.orders[k]).size == cfg.max_risk_per_trade@ by {
        let ps = scalp_market_plans(h, m, cfg, now);
        let i = choose|i: int| 0 <= i < ps.len() && ps[i] == p;
        assert(ps.len() <= 1);
        assert(p == ps[0]);
    }
    assert forall|p: PlanModel, k: int|
        mm_token_plans(t, cfg, now).contains(p) && 0 <= k < p.orders.len() implies (
    #[trigger] p.orders[k]).size == cfg.max_risk_per_trade@ / 2 by {
        let ps = mm_token_plans(t, cfg, now);
        let i = choose|i: int| 0 <= i < ps.len() && ps[i] == p;
        assert(ps.len() <= 1);
        assert(p == ps[0]);
    }
}

} // verus!
