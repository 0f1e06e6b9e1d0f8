use vstd::prelude::*;

use crate::chain::Chain;
use crate::error::AppError;
use crate::pool::{all_leased, release_post, take_post, unique_keys, KeyLeasePool};
use crate::project::{clone_opt_string, Project};
use crate::token::TokenInfo;
use crate::trade::TradeMode;
use crate::wallet::{clone_string, PrivateKey};
use crate::worker::{worker_matches_task, Worker};

verus! {

/// Lifecycle of a task: created, running its workers, draining them after
/// a stop request, and stopped.  Within one run the state only moves
/// forward; a fresh start after `Stopped` begins a new worker set.
#[derive(Debug, Clone, Copy, PartialEq, Eq, Structural)]
pub enum TaskState {
    Created,
    Running,
    Stopping,
    Stopped,
}

/// What a caller asks for when creating a task: how many workers, which
/// wallet group to freeze keys from, and the trade parameters.
#[derive(Debug)]
pub struct CreateTaskReq {
    pub workers_cnt: u32,
    pub wallet_grp_id: String,
    pub token: TokenInfo,
    pub trade_mode: TradeMode,
    pub percetage: (u32, u32),
    pub slippage: u16,
    pub use_jito: bool,
    pub gas_price: u32,
    pub interval_secs: u64,
}

/// One automated-trading unit: its configuration, lifecycle state, the
/// count of workers still running, and the key pool frozen from the bound
/// wallet group at creation time.
#[derive(Debug)]
pub struct Task {
    pub id: String,
    pub workers_cnt: u32,
    pub running_workers: u32,
    pub task_state: TaskState,
    pub chain: Chain,
    pub agg_api_url: String,
    pub agg_api_key: Option<String>,
    pub token: TokenInfo,
    pub trade_mode: TradeMode,
    pub percetage: (u32, u32),
    pub slippage: u16,
    pub use_jito: bool,
    pub jito_url: Option<String>,
    pub gas_price: u32,
    pub interval_secs: u64,
    pub wallet_states: KeyLeasePool,
}

/// The two tasks agree on everything but the key pool.
pub open spec fn same_config(a: Task, b: Task) -> bool {
    &&& a.id == b.id
    &&& a.workers_cnt == b.workers_cnt
    &&& a.running_workers == b.running_workers
    &&& a.task_state == b.task_state
    &&& a.chain == b.chain
    &&& a.agg_api_url == b.agg_api_url
    &&& a.agg_api_key == b.agg_api_key
    &&& a.token == b.token
    &&& a.trade_mode == b.trade_mode
    &&& a.percetage == b.percetage
    &&& a.slippage == b.slippage
    &&& a.use_jito == b.use_jito
    &&& a.jito_url == b.jito_url
    &&& a.gas_price == b.gas_price
    &&& a.interval_secs == b.interval_secs
}

/// The first wallet group whose id matches; lookups take the earliest
/// such group.
pub open spec fn first_grp_match(grps: Seq<crate::wallet::WalletGrp>, id: Seq<char>, gi: int) -> bool {
    &&& 0 <= gi < grps.len()
    &&& grps[gi].id@ == id
    &&& forall|j: int| 0 <= j < gi ==> (#[trigger] grps[j]).id@ != id
}

/// What a freshly created task holds: the request's trade parameters, the
/// project's endpoints, a `Created` state with no running workers, and a
/// free key slot per wallet of group `gi`.
pub open spec fn task_init_post(t: Task, req: CreateTaskReq, project: Project, gi: int) -> bool {
    let grp = project.wallet_grps[gi];
    &&& t.id == grp.id
    &&& t.workers_cnt == req.workers_cnt
    &&& t.running_workers == 0
    &&& t.task_state == TaskState::Created
    &&& t.chain == grp.chain
    &&& t.agg_api_url == project.agg_api_url
    &&& t.agg_api_key == project.agg_api_key
    &&& t.token == req.token
    &&& t.trade_mode == req.trade_mode
    &&& t.percetage == req.percetage
    &&& t.slippage == req.slippage
    &&& t.use_jito == req.use_jito
    &&& t.jito_url == project.jito_url
    &&& t.gas_price == req.gas_price
    &&& t.interval_secs == req.interval_secs
    &&& t.wallet_states@.len() == grp.pks@.len()
    &&& forall|k: int|
        0 <= k < grp.pks@.len() ==> t.wallet_states@[k] == ((#[trigger] grp.pks@[k])@, false)
}

/// One worker's stopping transition: one fewer running worker, and the
/// task flips to `Stopped` exactly when the count reaches zero.
pub open spec fn spec_finish_worker(t: Task) -> Task {
    Task {
        running_workers: (t.running_workers - 1) as u32,
        task_state: if t.running_workers == 1 {
            TaskState::Stopped
        } else {
            t.task_state
        },
        ..t
    }
}

/// `n` workers' stopping transitions, one after the other.
pub open spec fn finish_n(t: Task, n: nat) -> Task
    decreases n,
{
    if n == 0 {
        t
    } else {
        spec_finish_worker(finish_n(t, (n - 1) as nat))
    }
}

/// Law: the running-worker counter counts exactly the spawned workers
/// that have not yet finished their stopping transition, and the task
/// becomes `Stopped` exactly when the last one finishes: after `j` of the
/// `running_workers` workers finish, the counter has dropped by `j`, and
/// the state has changed only if `j` was all of them.
pub proof fn lemma_worker_accounting(t: Task, j: nat)
    requires
        t.running_workers > 0,
        t.task_state == TaskState::Running || t.task_state == TaskState::Stopping,
        j <= t.running_workers,
    ensures
        finish_n(t, j).running_workers == t.running_workers - j,
        finish_n(t, j).task_state == (if j == t.running_workers {
            TaskState::Stopped
        } else {
            t.task_state
        }),
    decreases j,
{
    if j > 0 {
        lemma_worker_accounting(t, (j - 1) as nat);
    }
}

impl Task {
    /// The task's bookkeeping invariant: never more running workers than
    /// configured, none at all before a start or after a stop, and no
    /// duplicate keys in the pool.
    pub open spec fn wf(&self) -> bool {
        &&& self.running_workers <= self.workers_cnt
        &&& (self.task_state == TaskState::Created || self.task_state == TaskState::Stopped)
            ==> self.running_workers == 0
        &&& unique_keys(self.wallet_states@)
    }

    /// Creates a task from a request: finds the wallet group the request
    /// names, freezes one free key slot per wallet, and copies the trade
    /// parameters.  Fails exactly when no group has that id.
    pub fn create_from_req(req: &CreateTaskReq, project: &Project) -> (r: Result<Task, AppError>)
        requires
            project.wf(),
        ensures
            r is Ok <==> exists|gi: int|
                0 <= gi < project.wallet_grps@.len() && (#[trigger] project.wallet_grps@[gi]).id@
                    == req.wallet_grp_id@,
            r matches Ok(t) ==> exists|gi: int|
                #![auto]
                first_grp_match(project.wallet_grps@, req.wallet_grp_id@, gi) && task_init_post(
                    t,
                    *req,
                    *project,
                    gi,
                ) && t.wf(),
            r matches Err(e) ==> e.err_msg@ == "No wallet group find"@,
    {
        let n = project.wallet_grps.len();
        let mut gi: usize = 0;
        while gi < n
            invariant
                project.wf(),
                n == project.wallet_grps@.len(),
                gi <= n,
                forall|j: int|
                    0 <= j < gi ==> (#[trigger] project.wallet_grps@[j]).id@
                        != req.wallet_grp_id@,
            decreases n - gi,
        {
            if project.wallet_grps[gi].id == req.wallet_grp_id {
                let grp = &project.wallet_grps[gi];
                let wallet_states = KeyLeasePool::from_keys(&grp.pks);
                let t = Task {
                    id: clone_string(&grp.id),
                    workers_cnt: req.workers_cnt,
                    running_workers: 0,
                    task_state: TaskState::Created,
                    chain: grp.chain,
                    agg_api_url: clone_string(&project.agg_api_url),
                    agg_api_key: clone_opt_string(&project.agg_api_key),
                    token: req.token.clone(),
                    trade_mode: req.trade_mode,
                    percetage: req.percetage,
                    slippage: req.slippage,
                    use_jito: req.use_jito,
                    jito_url: clone_opt_string(&project.jito_url),
                    gas_price: req.gas_price,
                    interval_secs: req.interval_secs,
                    wallet_states,
                };
                proof {
                    assert(project.wallet_grps@[gi as int].wf());
                    assert forall|a: int, b: int|
                        0 <= a < t.wallet_states@.len() && 0 <= b < t.wallet_states@.len() && a != b
                            implies (#[trigger] t.wallet_states@[a]).0 != (
                        #[trigger] t.wallet_states@[b]).0 by {
                        assert(t.wallet_states@[a] == (grp.pks@[a]@, false));
                        assert(t.wallet_states@[b] == (grp.pks@[b]@, false));
                    }
                    assert(first_grp_match(project.wallet_grps@, req.wallet_grp_id@, gi as int));
                    assert(task_init_post(t, *req, *project, gi as int));
                }
                return Ok(t);
            }
            gi += 1;
        }
        Err(AppError::new("No wallet group find"))
    }

    /// Builds one worker snapshot per configured lane, each carrying this
    /// task's current configuration.
    pub fn create_workers(&self) -> (r: Vec<Worker>)
        ensures
            r@.len() == self.workers_cnt,
            forall|i: int|
                0 <= i < r@.len() ==> worker_matches_task(#[trigger] r@[i], *self, i as u32),
    {
        let mut workers: Vec<Worker> = Vec::new();
        let cnt = self.workers_cnt;
        let mut idx: u32 = 0;
        while idx < cnt
            invariant
                cnt == self.workers_cnt,
                idx <= cnt,
                workers@.len() == idx,
                forall|i: int|
                    0 <= i < workers@.len() ==> worker_matches_task(
                        #[trigger] workers@[i],
                        *self,
                        i as u32,
                    ),
            decreases cnt - idx,
        {
            let win_label = "task_".to_string().concat(self.id.as_str());
            workers.push(
                Worker {
                    id: idx,
                    task_id: clone_string(&self.id),
                    win_label,
                    chain: self.chain,
                    agg_api_url: clone_string(&self.agg_api_url),
                    agg_api_key: clone_opt_string(&self.agg_api_key),
                    token: self.token.clone(),
                    trade_mode: self.trade_mode,
                    percetage: self.percetage,
                    slippage: self.slippage,
                    gas_price: self.gas_price,
                    use_jito: self.use_jito,
                    jito_url: clone_opt_string(&self.jito_url),
                },
            );
            idx += 1;
        }
        workers
    }

    /// Leases a free key from the task's pool, picked uniformly at
    /// random; `None` exactly when every key is leased out.  Everything
    /// but the pool is untouched.
    pub fn take_private_key(&mut self) -> (r: Option<PrivateKey>)
        ensures
            same_config(*final(self), *old(self)),
            match r {
                None => *final(self) == *old(self) && all_leased(old(self).wallet_states@),
                Some(k) => take_post(old(self).wallet_states@, final(self).wallet_states@, k@),
            },
            !all_leased(old(self).wallet_states@) ==> r is Some,
    {
        self.wallet_states.take()
    }

    /// Returns a leased key to the pool; a no-op for a key the pool does
    /// not track.  Everything but the pool is untouched.
    pub fn return_private_key(&mut self, private_key: PrivateKey)
        ensures
            same_config(*final(self), *old(self)),
            release_post(old(self).wallet_states@, final(self).wallet_states@, private_key@),
    {
        self.wallet_states.release(private_key)
    }
}

} // verus!
