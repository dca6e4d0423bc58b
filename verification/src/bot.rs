//! The bot: the execution gateway, the shared state and the strategy engine
//! under one roof, with the synchronous control surface a host calls between
//! scan cycles (start, stop, toggle, reset, mode switch, reporting).
//!
//! A host wraps a bot in its own exclusion lock and alternates engine cycles
//! with control calls; every operation here leaves the state consistent, so
//! a snapshot taken between any two calls is never torn.

use vstd::prelude::*;
use vstd::string::*;

use crate::clob::{
    clob_wf, key_acceptable, spec_fetched, ClobModel, PolymarketClob, MAX_NOW_MS,
    PAPER_BALANCE_UNITS,
};
use crate::errors::{ConfigError, ExecutionError};
use crate::fixed::{dec_div_down, int_min, Dec};
use crate::strategies::{
    cycle_headroom, cycle_post, engine_wf, exit_plan_models, exits_due, exits_remaining,
    plan_models, plans_pnl, plans_trades, EngineModel, StrategyEngine, TradePlan,
};
use crate::text::{dec_string, spec_dec_string, spec_digits, str_eq, u64_string};
use crate::types::{
    codes_unique, has_code, market_models, markets_wf, risk_config_wf, spec_default_risk_config,
    state_wf, toggle_rel, BotMode, BotState, BotStatus, Market, RiskConfig, StateModel,
    StatusModel, AMOUNT_CAP,
};

verus! {

/// Paper mode is everything but an explicit "live".
pub open spec fn wants_paper(mode: Seq<char>) -> bool {
    mode != "live"@
}

pub ghost struct BotModel {
    pub clob: ClobModel,
    pub state: StateModel,
    pub engine: EngineModel,
}

pub open spec fn bot_wf(b: BotModel) -> bool {
    &&& clob_wf(b.clob)
    &&& state_wf(b.state)
    &&& engine_wf(b.engine)
}

/// The freshly initialized state for a mode and an opening balance.
pub open spec fn initial_state(paper: bool, balance: int) -> StateModel {
    StateModel {
        mode: if paper {
            BotMode::Paper
        } else {
            BotMode::Live
        },
        balance: balance,
        starting_balance: balance,
        total_pnl: 0,
        total_trades: 0,
        active: Seq::<Seq<char>>::empty(),
        status: StatusModel::Stopped,
        risk_config: spec_default_risk_config(),
    }
}

/// The trading bot.
#[derive(Debug)]
pub struct PolymarketBot {
    clob: PolymarketClob,
    state: BotState,
    engine: StrategyEngine,
}

impl View for PolymarketBot {
    type V = BotModel;

    closed spec fn view(&self) -> BotModel {
        BotModel { clob: self.clob@, state: self.state@, engine: self.engine@ }
    }
}

impl PolymarketBot {
    /// Build a bot. A signing key is demanded in either mode, since the
    /// signed live path must be able to come up at any time; entering live
    /// mode additionally demands the confirmed live balance from the host,
    /// since only its transport can query the account.
    pub fn new(mode: &str, private_key: Option<String>, live_balance: Option<Dec>) -> (r: Result<
        PolymarketBot,
        ConfigError,
    >)
        requires
            live_balance is Some ==> 0 <= live_balance->0@ <= AMOUNT_CAP,
        ensures
            r is Ok <==> (private_key is Some && key_acceptable(private_key->0@) && (
            wants_paper(mode@) || live_balance is Some)),
            private_key is None ==> r == Result::<PolymarketBot, ConfigError>::Err(
                ConfigError::MissingPrivateKey,
            ),
            private_key is Some && !key_acceptable(private_key->0@) ==> r == Result::<
                PolymarketBot,
                ConfigError,
            >::Err(ConfigError::InvalidPrivateKey),
            private_key is Some && key_acceptable(private_key->0@) && !wants_paper(mode@)
                && live_balance is None ==> r == Result::<PolymarketBot, ConfigError>::Err(
                ConfigError::LiveBalanceUnavailable,
            ),
            r matches Ok(bot) ==> bot@.state == initial_state(
                wants_paper(mode@),
                if wants_paper(mode@) {
                    PAPER_BALANCE_UNITS as int
                } else {
                    live_balance->0@
                },
            ),
            r matches Ok(bot) ==> bot@.clob == (ClobModel {
                paper: wants_paper(mode@),
                fixture: None,
                cache: Seq::<crate::types::MarketModel>::empty(),
            }),
            r matches Ok(bot) ==> bot@.engine == (EngineModel {
                history: Seq::<crate::strategies::SeriesModel>::empty(),
                pending: Seq::<crate::strategies::ExitModel>::empty(),
            }),
            r matches Ok(bot) ==> bot_wf(bot@),
    {
        let key: String = match private_key {
            Some(k) => k,
            None => {
                return Err(ConfigError::MissingPrivateKey);
            },
        };
        let paper: bool = !str_eq(mode, "live");
        let clob: PolymarketClob = match PolymarketClob::new(key.as_str(), paper) {
            Ok(c) => c,
            Err(e) => {
                return Err(e);
            },
        };
        let balance: Dec = if paper {
            Dec::new(PAPER_BALANCE_UNITS)
        } else {
            match live_balance {
                Some(b) => b,
                None => {
                    return Err(ConfigError::LiveBalanceUnavailable);
                },
            }
        };
        let state = BotState {
            mode: if paper {
                BotMode::Paper
            } else {
                BotMode::Live
            },
            balance,
            starting_balance: balance,
            total_pnl: Dec::zero(),
            total_trades: 0,
            active_strategies: Vec::new(),
            status: BotStatus::Stopped,
            risk_config: RiskConfig::default(),
        };
        let bot = PolymarketBot { clob, state, engine: StrategyEngine::new() };
        proof {
            assert(bot@.state.active =~= Seq::<Seq<char>>::empty());
            assert(bot@.state == initial_state(wants_paper(mode@), balance@));
        }
        Ok(bot)
    }

    /// Mark the engine loop as running; the host then drives `run_cycle`.
    pub fn start(&mut self)
        ensures
            final(self)@ == (BotModel {
                state: StateModel { status: StatusModel::Running, ..old(self)@.state },
                ..old(self)@
            }),
    {
        self.state.set_status(BotStatus::Running);
    }

    /// Halt new scan cycles; deferred exits already scheduled stay queued.
    pub fn stop(&mut self)
        ensures
            final(self)@ == (BotModel {
                state: StateModel { status: StatusModel::Stopped, ..old(self)@.state },
                ..old(self)@
            }),
    {
        self.state.set_status(BotStatus::Stopped);
    }

    /// Flip a strategy's membership in the active set; the new membership
    /// comes back.
    pub fn toggle_strategy(&mut self, code: &str) -> (added: bool)
        requires
            codes_unique(old(self)@.state.active),
        ensures
            toggle_rel(old(self)@.state, final(self)@.state, code@, added),
            codes_unique(final(self)@.state.active),
            added == has_code(final(self)@.state.active, code@),
            final(self)@.clob == old(self)@.clob,
            final(self)@.engine == old(self)@.engine,
    {
        self.state.toggle_strategy(code)
    }

    /// Replace the whole risk configuration.
    pub fn update_risk_config(&mut self, config: RiskConfig)
        requires
            risk_config_wf(config),
        ensures
            final(self)@ == (BotModel {
                state: StateModel { risk_config: config, ..old(self)@.state },
                ..old(self)@
            }),
    {
        self.state.update_risk_config(config);
    }

    /// A full, consistent snapshot of the shared state.
    pub fn get_state(&self) -> (r: BotState)
        ensures
            r@ == self@.state,
    {
        self.state.snapshot()
    }

    /// The current market snapshot, from the gateway's data source.
    pub fn get_markets(&mut self, now_ms: u64) -> (r: Vec<Market>)
        requires
            now_ms <= MAX_NOW_MS,
            clob_wf(old(self)@.clob),
        ensures
            market_models(r@) == spec_fetched(old(self)@.clob, now_ms),
            markets_wf(market_models(r@)),
            final(self)@ == (BotModel {
                clob: ClobModel { cache: market_models(r@), ..old(self)@.clob },
                ..old(self)@
            }),
    {
        self.clob.fetch_markets(now_ms)
    }

    /// The account balance as the gateway sees it.
    pub fn get_balance(&self) -> (r: Result<Dec, ExecutionError>)
        ensures
            self@.clob.paper ==> r is Ok && r->Ok_0@ == PAPER_BALANCE_UNITS,
            !self@.clob.paper ==> r is Err && r->Err_0
                == ExecutionError::RequiresLiveTransport,
    {
        self.clob.get_balance()
    }

    /// Plug in a market snapshot for the data source (a fixture or a feed
    /// adapter supplied by the host).
    pub fn set_market_fixture(&mut self, markets: Vec<Market>)
        requires
            markets_wf(market_models(markets@)),
        ensures
            final(self)@ == (BotModel {
                clob: ClobModel {
                    fixture: Some(market_models(markets@)),
                    ..old(self)@.clob
                },
                ..old(self)@
            }),
            clob_wf(final(self)@.clob),
    {
        self.clob.set_market_fixture(markets);
    }

    /// Switch between paper and live. Entering live demands a signing key
    /// and the confirmed live balance; on any failure nothing is applied and
    /// the mode stays what it was. The gateway is rebuilt in the new mode;
    /// statistics and the active set carry over.
    pub fn switch_mode(
        &mut self,
        new_mode: &str,
        private_key: Option<String>,
        live_balance: Option<Dec>,
    ) -> (r: Result<(), ConfigError>)
        requires
            live_balance is Some ==> 0 <= live_balance->0@ <= AMOUNT_CAP,
        ensures
            !wants_paper(new_mode@) && private_key is None ==> r == Result::<
                (),
                ConfigError,
            >::Err(ConfigError::MissingPrivateKey) && final(self)@ == old(self)@,
            !wants_paper(new_mode@) && private_key is Some && !key_acceptable(private_key->0@)
                ==> r == Result::<(), ConfigError>::Err(ConfigError::InvalidPrivateKey)
                && final(self)@ == old(self)@,
            !wants_paper(new_mode@) && private_key is Some && key_acceptable(private_key->0@)
                && live_balance is None ==> r == Result::<(), ConfigError>::Err(
                ConfigError::LiveBalanceUnavailable,
            ) && final(self)@ == old(self)@,
            !wants_paper(new_mode@) && private_key is Some && key_acceptable(private_key->0@)
                && live_balance is Some ==> r is Ok && final(self)@ == (BotModel {
                clob: ClobModel { paper: false, ..old(self)@.clob },
                state: StateModel {
                    mode: BotMode::Live,
                    balance: live_balance->0@,
                    ..old(self)@.state
                },
                ..old(self)@
            }),
            wants_paper(new_mode@) ==> r is Ok && final(self)@ == (BotModel {
                clob: ClobModel { paper: true, ..old(self)@.clob },
                state: StateModel {
                    mode: BotMode::Paper,
                    balance: PAPER_BALANCE_UNITS as int,
                    ..old(self)@.state
                },
                ..old(self)@
            }),
    {
        if !str_eq(new_mode, "live") {
            self.clob.set_paper(true);
            self.state.mode = BotMode::Paper;
            self.state.balance = Dec::new(PAPER_BALANCE_UNITS);
            return Ok(());
        }
        let key: String = match private_key {
            Some(k) => k,
            None => {
                return Err(ConfigError::MissingPrivateKey);
            },
        };
        match crate::clob::validate_private_key(key.as_str()) {
            Ok(_) => {},
            Err(e) => {
                return Err(e);
            },
        }
        let balance: Dec = match live_balance {
            Some(b) => b,
            None => {
                return Err(ConfigError::LiveBalanceUnavailable);
            },
        };
        // The live balance is confirmed reachable; only now flip the mode.
        self.clob.set_paper(false);
        self.state.mode = BotMode::Live;
        self.state.balance = balance;
        Ok(())
    }

    /// Re-baseline the statistics; active strategies and mode are untouched.
    pub fn reset_stats(&mut self)
        ensures
            final(self)@ == (BotModel {
                state: crate::types::reset_model(old(self)@.state),
                ..old(self)@
            }),
    {
        self.state.reset_stats();
    }

    /// One scan cycle of the engine against the shared state.
    pub fn run_cycle(&mut self, now_ms: u64) -> (r: Vec<TradePlan>)
        requires
            now_ms <= MAX_NOW_MS,
            bot_wf(old(self)@),
            cycle_headroom(old(self)@.state, old(self)@.clob, old(self)@.engine, now_ms),
        ensures
            cycle_post(
                old(self)@.state,
                final(self)@.state,
                old(self)@.clob,
                final(self)@.clob,
                old(self)@.engine,
                final(self)@.engine,
                plan_models(r@),
                now_ms,
            ),
            engine_wf(final(self)@.engine),
            clob_wf(final(self)@.clob),
    {
        self.engine.run_cycle(&mut self.clob, &mut self.state, now_ms)
    }

    /// Fire the deferred exits that are due, whatever the run status; the
    /// rest stay queued.
    pub fn process_due_exits(&mut self, now_ms: u64) -> (r: Vec<TradePlan>)
        requires
            engine_wf(old(self)@.engine),
            old(self)@.clob.paper ==> old(self)@.state.total_pnl + plans_pnl(
                exit_plan_models(exits_due(old(self)@.engine.pending, now_ms), now_ms as int),
            ) <= u64::MAX,
            old(self)@.clob.paper ==> old(self)@.state.total_trades + plans_trades(
                exit_plan_models(exits_due(old(self)@.engine.pending, now_ms), now_ms as int),
            ) <= u64::MAX,
        ensures
            plan_models(r@) == exit_plan_models(
                exits_due(old(self)@.engine.pending, now_ms),
                now_ms as int,
            ),
            final(self)@.engine.pending == exits_remaining(old(self)@.engine.pending, now_ms),
            final(self)@.engine.history == old(self)@.engine.history,
            final(self)@.clob == old(self)@.clob,
            engine_wf(final(self)@.engine),
            old(self)@.clob.paper ==> final(self)@.state == (StateModel {
                total_pnl: old(self)@.state.total_pnl + plans_pnl(plan_models(r@)),
                total_trades: old(self)@.state.total_trades + plans_trades(plan_models(r@)),
                ..old(self)@.state
            }),
            !old(self)@.clob.paper ==> final(self)@.state == old(self)@.state,
    {
        self.engine.process_due_exits(&self.clob, &mut self.state, now_ms)
    }

    /// Report a live submission outcome for one plan: book its accounting
    /// and queue its deferred exit when every leg went through, else nothing.
    pub fn apply_plan_outcome(&mut self, plan: &TradePlan, all_legs_placed: bool)
        requires
            all_legs_placed ==> old(self)@.state.total_pnl + plan@.pnl_delta <= u64::MAX,
            all_legs_placed ==> old(self)@.state.total_trades + plan@.trades_delta <= u64::MAX,
            engine_wf(old(self)@.engine),
            plan@.exit matches Some(e) ==> crate::strategies::exit_wf(e),
        ensures
            all_legs_placed ==> final(self)@.state == (StateModel {
                total_pnl: old(self)@.state.total_pnl + plan@.pnl_delta,
                total_trades: old(self)@.state.total_trades + plan@.trades_delta,
                ..old(self)@.state
            }),
            all_legs_placed ==> final(self)@.engine.pending == old(self)@.engine.pending
                + crate::strategies::plans_exits(seq![plan@]),
            !all_legs_placed ==> final(self)@.state == old(self)@.state && final(self)@.engine
                == old(self)@.engine,
            final(self)@.engine.history == old(self)@.engine.history,
            final(self)@.clob == old(self)@.clob,
            engine_wf(final(self)@.engine),
    {
        self.engine.apply_plan_outcome(&mut self.state, plan, all_legs_placed)
    }

    /// How many deferred exits are queued; hosts use it to bound the
    /// accounting a `process_due_exits` batch can book.
    pub fn pending_exit_count(&self) -> (r: usize)
        ensures
            r as int == self@.engine.pending.len() as int,
    {
        self.engine.pending_exits.len()
    }

    /// A textual account of the session: balance, profit-and-loss (absolute
    /// and as a percentage of the starting balance), trade count, active
    /// strategies, mode and status.
    pub fn get_performance_summary(&self) -> (r: String)
        ensures
            r@ == spec_performance_summary(self@.state),
    {
        let percent: Dec = if self.state.starting_balance.is_positive() {
            self.state.total_pnl.percent_ratio(self.state.starting_balance)
        } else {
            Dec::zero()
        };
        let mode_label: &'static str = match self.state.mode {
            BotMode::Paper => "PAPER",
            BotMode::Live => "LIVE",
        };
        let status_label: String = match &self.state.status {
            BotStatus::Stopped => String::from_str("Stopped"),
            BotStatus::Running => String::from_str("Running"),
            BotStatus::Error(msg) => String::from_str("Error: ").concat(msg.as_str()),
        };
        let mut out: String = String::from_str("Performance:\nBalance: ");
        out.append(dec_string(self.state.balance, 2).as_str());
        out.append(" USDC\nP&L: ");
        out.append(dec_string(self.state.total_pnl, 4).as_str());
        out.append(" USDC (");
        out.append(dec_string(percent, 2).as_str());
        out.append("%)\nTrades: ");
        out.append(u64_string(self.state.total_trades).as_str());
        out.append("\nActive strategies: ");
        out.append(u64_string(self.state.active_strategies.len() as u64).as_str());
        out.append("\nMode: ");
        out.append(mode_label);
        out.append("\nStatus: ");
        out.append(status_label.as_str());
        proof {
            assert(out@ =~= spec_performance_summary(self@.state));
        }
        out
    }
}

/// The profit-and-loss percentage reported by the summary.
pub open spec fn spec_pnl_percent(s: StateModel) -> int {
    if s.starting_balance > 0 {
        int_min(dec_div_down(s.total_pnl, s.starting_balance) * 100, u64::MAX as int)
    } else {
        0
    }
}

pub open spec fn spec_mode_label(m: BotMode) -> Seq<char> {
    match m {
        BotMode::Paper => "PAPER"@,
        BotMode::Live => "LIVE"@,
    }
}

pub open spec fn spec_status_label(s: StatusModel) -> Seq<char> {
    match s {
        StatusModel::Stopped => "Stopped"@,
        StatusModel::Running => "Running"@,
        StatusModel::Error(msg) => "Error: "@ + msg,
    }
}

/// The exact text of the performance summary.
pub open spec fn spec_performance_summary(s: StateModel) -> Seq<char> {
    "Performance:\nBalance: "@ + spec_dec_string(s.balance, 2) + " USDC\nP&L: "@
        + spec_dec_string(s.total_pnl, 4) + " USDC ("@ + spec_dec_string(spec_pnl_percent(s), 2)
        + "%)\nTrades: "@ + spec_digits(s.total_trades) + "\nActive strategies: "@ + spec_digits(
        s.active.len() as int,
    ) + "\nMode: "@ + spec_mode_label(s.mode) + "\nStatus: "@ + spec_status_label(s.status)
}

} // verus!
