use vstd::prelude::*;

use crate::chain::Chain;
use crate::error::AppError;
use crate::rng;
use crate::task::{Task, TaskState};
use crate::token::TokenInfo;
use crate::trade::{
    direction_admissible, direction_for, direction_spec, plan_post, plan_with, TradeDirection,
    TradeIntent, TradeMode,
};

verus! {

/// One concurrent execution lane of a task: an immutable snapshot of the
/// task's trade configuration, captured when the worker was spawned.
/// Later edits to the task do not reach a running worker.
#[derive(Debug)]
pub struct Worker {
    pub id: u32,
    pub task_id: String,
    pub win_label: String,
    pub chain: Chain,
    pub agg_api_url: String,
    pub agg_api_key: Option<String>,
    pub token: TokenInfo,
    pub trade_mode: TradeMode,
    pub percetage: (u32, u32),
    pub slippage: u16,
    pub gas_price: u32,
    pub use_jito: bool,
    pub jito_url: Option<String>,
}

/// The worker carries exactly the task's configuration, its own lane
/// index and the window label events are addressed to.
pub open spec fn worker_matches_task(w: Worker, t: Task, idx: u32) -> bool {
    &&& w.id == idx
    &&& w.task_id == t.id
    &&& w.win_label@ == "task_"@ + t.id@
    &&& w.chain == t.chain
    &&& w.agg_api_url == t.agg_api_url
    &&& w.agg_api_key == t.agg_api_key
    &&& w.token == t.token
    &&& w.trade_mode == t.trade_mode
    &&& w.percetage == t.percetage
    &&& w.slippage == t.slippage
    &&& w.gas_price == t.gas_price
    &&& w.use_jito == t.use_jito
    &&& w.jito_url == t.jito_url
}

/// What a worker does after reading the task state at the top of its
/// loop.
#[derive(Debug, Clone, Copy, PartialEq, Eq, Structural)]
pub enum WorkerAction {
    /// The task is `Created` or `Stopped`: terminate defensively.
    Exit,
    /// The task is `Running`: run one trade cycle, then sleep.
    Trade,
    /// The task is `Stopping`: finish this worker's stopping transition.
    FinishStopping,
}

/// The worker loop's reaction to each task state.
pub fn worker_step(state: TaskState) -> (r: WorkerAction)
    ensures
        state == TaskState::Created || state == TaskState::Stopped ==> r == WorkerAction::Exit,
        state == TaskState::Running ==> r == WorkerAction::Trade,
        state == TaskState::Stopping ==> r == WorkerAction::FinishStopping,
{
    match state {
        TaskState::Created => WorkerAction::Exit,
        TaskState::Stopped => WorkerAction::Exit,
        TaskState::Running => WorkerAction::Trade,
        TaskState::Stopping => WorkerAction::FinishStopping,
    }
}

impl Worker {
    /// Decides the direction for one cycle.  The one-sided modes and the
    /// forced cases of mixed mode are fully determined; between them a
    /// coin flip decides, so only admissibility is promised there.
    pub fn get_trade_direction(&self, native_bal: u128, token_bal: u128) -> (d: TradeDirection)
        ensures
            direction_admissible(self.trade_mode, native_bal, token_bal, d),
            self.trade_mode == TradeMode::BuyOnly ==> d == TradeDirection::Buy,
            self.trade_mode == TradeMode::SellOnly ==> d == TradeDirection::Sell,
            self.trade_mode == TradeMode::Both && token_bal == 0 ==> d == TradeDirection::Buy,
            self.trade_mode == TradeMode::Both && token_bal != 0 && native_bal
                < crate::trade::DUST_THRESHOLD ==> d == TradeDirection::Sell,
    {
        let sell_coin = rng::rand_bool();
        let d = direction_for(self.trade_mode, native_bal, token_bal, sell_coin);
        proof {
            assert(d == direction_spec(self.trade_mode, native_bal, token_bal, sell_coin));
        }
        d
    }

    /// Draws the percentage of the balance this cycle trades, uniformly
    /// from the configured inclusive range.
    pub fn get_percentage(&self) -> (r: u64)
        requires
            self.percetage.0 <= self.percetage.1,
        ensures
            self.percetage.0 <= r <= self.percetage.1,
    {
        let (min, max) = self.percetage;
        rng::rand_range_inclusive_u32(min, max) as u64
    }

    /// Plans one trade cycle from the wallet's live balances: picks a
    /// direction, draws a percentage and computes the input amount.  The
    /// result is the planning outcome for some admissible direction and
    /// some percentage in the configured range.
    pub fn plan_cycle(&self, native_bal: u128, token_bal: u128) -> (r: Result<
        TradeIntent,
        AppError,
    >)
        requires
            self.percetage.0 <= self.percetage.1,
        ensures
            exists|d: TradeDirection, pct: u64|
                #![auto]
                direction_admissible(self.trade_mode, native_bal, token_bal, d)
                    && self.percetage.0 <= pct <= self.percetage.1 && plan_post(
                    self.chain,
                    d,
                    pct,
                    native_bal,
                    token_bal,
                    r,
                ),
    {
        let direction = self.get_trade_direction(native_bal, token_bal);
        let percentage = self.get_percentage();
        let r = plan_with(self.chain, direction, percentage, native_bal, token_bal);
        proof {
            assert(direction_admissible(self.trade_mode, native_bal, token_bal, direction)
                && self.percetage.0 <= percentage <= self.percetage.1 && plan_post(
                self.chain,
                direction,
                percentage,
                native_bal,
                token_bal,
                r,
            ));
        }
        r
    }

    /// Finishes this worker's stopping transition: one fewer running
    /// worker, and the worker that brings the count to zero flips the
    /// task to `Stopped`.  Returns whether the task is now stopped.
    pub fn stop(&self, task: &mut Task) -> (task_stopped: bool)
        requires
            old(task).running_workers > 0,
        ensures
            *final(task) == crate::task::spec_finish_worker(*old(task)),
            task_stopped == (final(task).running_workers == 0),
    {
        task.running_workers = task.running_workers - 1;
        if task.running_workers == 0 {
            task.task_state = TaskState::Stopped;
            true
        } else {
            false
        }
    }
}

} // verus!
