use vstd::prelude::*;

use crate::error::AppError;
use crate::pool::{all_leased, release_post, take_post, unique_keys};
use crate::project::Project;
use crate::task::{same_config, spec_finish_worker, CreateTaskReq, Task, TaskState};
use crate::wallet::PrivateKey;
use crate::worker::{worker_matches_task, Worker};

verus! {

/// No two tasks carry the same id.
pub open spec fn unique_ids(tasks: Seq<Task>) -> bool {
    forall|i: int, j: int|
        0 <= i < tasks.len() && 0 <= j < tasks.len() && i != j ==> (#[trigger] tasks[i]).id@ != (
        #[trigger] tasks[j]).id@
}

/// A started task: running, with the full configured worker count.
pub open spec fn spec_started(t: Task) -> Task {
    Task { task_state: TaskState::Running, running_workers: t.workers_cnt, ..t }
}

/// What a worker finds when it reads its task under the registry's lock.
#[derive(Debug, Clone, Copy, PartialEq, Eq, Structural)]
pub enum WorkerStepOutcome {
    /// The task vanished from the registry: terminate at once.
    Missing,
    /// The task is not running: terminate defensively.
    Exit,
    /// Run one trade cycle, then sleep this many seconds.
    Trade { interval_secs: u64 },
    /// This worker's stopping transition was taken; `task_stopped` says
    /// whether it was the last one and the task is now stopped.
    Stopping { task_stopped: bool },
}

/// The process-wide table of tasks: the single place where control
/// operations and worker bookkeeping mutate shared state.  The embedding
/// program guards it with one exclusive lock.
#[derive(Debug)]
pub struct TaskRegistry {
    pub tasks: Vec<Task>,
}

impl TaskRegistry {
    pub open spec fn wf(&self) -> bool {
        &&& unique_ids(self.tasks@)
        &&& forall|i: int| 0 <= i < self.tasks@.len() ==> (#[trigger] self.tasks@[i]).wf()
    }

    pub open spec fn has_task(&self, id: Seq<char>) -> bool {
        exists|i: int| 0 <= i < self.tasks@.len() && (#[trigger] self.tasks@[i]).id@ == id
    }

    /// An empty registry.
    pub fn new() -> (r: Self)
        ensures
            r.wf(),
            r.tasks@.len() == 0,
    {
        TaskRegistry { tasks: Vec::new() }
    }

    /// Index of the task with this id, when one exists.
    fn find_idx(&self, id: &String) -> (r: Option<usize>)
        ensures
            match r {
                Some(i) => 0 <= i < self.tasks@.len() && self.tasks@[i as int].id@ == id@,
                None => !self.has_task(id@),
            },
    {
        let n = self.tasks.len();
        let mut i: usize = 0;
        while i < n
            invariant
                n == self.tasks@.len(),
                i <= n,
                forall|j: int| 0 <= j < i ==> (#[trigger] self.tasks@[j]).id@ != id@,
            decreases n - i,
        {
            if self.tasks[i].id == *id {
                return Some(i);
            }
            i += 1;
        }
        None
    }

    /// Creates and registers a task.  Fails when the request names an
    /// unknown wallet group, or when a task with that id already exists
    /// and has been started; re-creating a still-`Created` task is a
    /// silent no-op.
    pub fn create_trade_task(&mut self, req: &CreateTaskReq, project: &Project) -> (r: Result<
        (),
        AppError,
    >)
        requires
            old(self).wf(),
            project.wf(),
        ensures
            final(self).wf(),
            (!exists|gi: int|
                0 <= gi < project.wallet_grps@.len() && (#[trigger] project.wallet_grps@[gi]).id@
                    == req.wallet_grp_id@) ==> (r matches Err(e) && e.err_msg@
                == "No wallet group find"@ && *final(self) == *old(self)),
            (exists|gi: int|
                0 <= gi < project.wallet_grps@.len() && (#[trigger] project.wallet_grps@[gi]).id@
                    == req.wallet_grp_id@) ==> {
                if !old(self).has_task(req.wallet_grp_id@) {
                    &&& r is Ok
                    &&& final(self).tasks@.len() == old(self).tasks@.len() + 1
                    &&& exists|gi: int|
                        #![auto]
                        crate::task::first_grp_match(project.wallet_grps@, req.wallet_grp_id@, gi)
                            && crate::task::task_init_post(
                            final(self).tasks@.last(),
                            *req,
                            *project,
                            gi,
                        )
                    &&& final(self).tasks@.drop_last() == old(self).tasks@
                } else {
                    exists|i: int|
                        #![auto]
                        {
                            &&& 0 <= i < old(self).tasks@.len()
                            &&& old(self).tasks@[i].id@ == req.wallet_grp_id@
                            &&& *final(self) == *old(self)
                            &&& if old(self).tasks@[i].task_state == TaskState::Created {
                                r is Ok
                            } else {
                                r matches Err(e) && e.err_msg@ == "task "@ + req.wallet_grp_id@
                                    + " is already running"@
                            }
                        }
                }
            },
    {
        let task = match Task::create_from_req(req, project) {
            Ok(t) => t,
            Err(e) => {
                return Err(e);
            }
        };
        proof {
            let gi = choose|gi: int|
                #![auto]
                crate::task::first_grp_match(project.wallet_grps@, req.wallet_grp_id@, gi)
                    && crate::task::task_init_post(task, *req, *project, gi) && task.wf();
            assert(task.id == project.wallet_grps@[gi].id);
            assert(task.id@ == req.wallet_grp_id@);
        }
        match self.find_idx(&task.id) {
            Some(i) => {
                if !matches!(self.tasks[i].task_state, TaskState::Created) {
                    let msg = "task ".to_string().concat(req.wallet_grp_id.as_str()).concat(
                        " is already running",
                    );
                    return Err(AppError { err_msg: msg });
                }
                Ok(())
            }
            None => {
                self.tasks.push(task);
                proof {
                    assert(final(self).tasks@.drop_last() =~= old(self).tasks@);
                    assert forall|a: int, b: int|
                        0 <= a < self.tasks@.len() && 0 <= b < self.tasks@.len() && a != b implies (
                    #[trigger] self.tasks@[a]).id@ != (#[trigger] self.tasks@[b]).id@ by {
                        let last = self.tasks@.len() - 1;
                        if a == last {
                            assert(self.tasks@[b].id@ != req.wallet_grp_id@);
                        } else if b == last {
                            assert(self.tasks@[a].id@ != req.wallet_grp_id@);
                        } else {
                            assert(self.tasks@[a] == old(self).tasks@[a]);
                            assert(self.tasks@[b] == old(self).tasks@[b]);
                        }
                    }
                }
                Ok(())
            }
        }
    }

    /// Starts a task: from `Created` or `Stopped` it becomes `Running`
    /// and exactly `workers_cnt` fresh worker snapshots are handed back
    /// to be spawned.  Starting an already-running task spawns nothing
    /// and is not an error.  Fails only when the id is unknown.
    pub fn start_trade_task(&mut self, id: &String) -> (r: Result<Vec<Worker>, AppError>)
        requires
            old(self).wf(),
        ensures
            final(self).wf(),
            !old(self).has_task(id@) ==> (r matches Err(e) && e.err_msg@ == "task "@ + id@
                + " not found"@ && *final(self) == *old(self)),
            old(self).has_task(id@) ==> exists|i: int|
                #![auto]
                {
                    &&& 0 <= i < old(self).tasks@.len()
                    &&& old(self).tasks@[i].id@ == id@
                    &&& if old(self).tasks@[i].task_state == TaskState::Created || old(
                        self,
                    ).tasks@[i].task_state == TaskState::Stopped {
                        &&& final(self).tasks@ == old(self).tasks@.update(
                            i,
                            spec_started(old(self).tasks@[i]),
                        )
                        &&& r matches Ok(ws) && ws@.len() == old(self).tasks@[i].workers_cnt
                            && forall|k: int|
                            0 <= k < ws@.len() ==> worker_matches_task(
                                #[trigger] ws@[k],
                                old(self).tasks@[i],
                                k as u32,
                            )
                    } else {
                        &&& *final(self) == *old(self)
                        &&& r matches Ok(ws) && ws@.len() == 0
                    }
                },
    {
        let i = match self.find_idx(id) {
            Some(i) => i,
            None => {
                let msg = "task ".to_string().concat(id.as_str()).concat(" not found");
                return Err(AppError { err_msg: msg });
            }
        };
        let started = matches!(
            self.tasks[i].task_state,
            TaskState::Created,
        ) || matches!(self.tasks[i].task_state, TaskState::Stopped);
        if started {
            let ghost pre = self.tasks@;
            let mut t = self.tasks.remove(i);
            let workers = t.create_workers();
            t.task_state = TaskState::Running;
            t.running_workers = t.workers_cnt;
            self.tasks.insert(i, t);
            proof {
                assert(self.tasks@ =~= pre.update(i as int, spec_started(pre[i as int])));
                assert forall|k: int| 0 <= k < workers@.len() implies worker_matches_task(
                    #[trigger] workers@[k],
                    pre[i as int],
                    k as u32,
                ) by {}
                assert(self.tasks@[i as int].wf());
                lemma_update_same_id_wf(pre, self.tasks@, i as int);
            }
            Ok(workers)
        } else {
            Ok(Vec::new())
        }
    }

    /// Requests a graceful stop: only a `Running` task moves to
    /// `Stopping`; in any other state the call changes nothing.  Fails
    /// only when the id is unknown.
    pub fn stop_trade_task(&mut self, id: &String) -> (r: Result<(), AppError>)
        requires
            old(self).wf(),
        ensures
            final(self).wf(),
            !old(self).has_task(id@) ==> (r matches Err(e) && e.err_msg@ == "task "@ + id@
                + " not found"@ && *final(self) == *old(self)),
            old(self).has_task(id@) ==> r is Ok && exists|i: int|
                #![auto]
                {
                    &&& 0 <= i < old(self).tasks@.len()
                    &&& old(self).tasks@[i].id@ == id@
                    &&& if old(self).tasks@[i].task_state == TaskState::Running {
                        final(self).tasks@ == old(self).tasks@.update(
                            i,
                            Task { task_state: TaskState::Stopping, ..old(self).tasks@[i] },
                        )
                    } else {
                        *final(self) == *old(self)
                    }
                },
    {
        let i = match self.find_idx(id) {
            Some(i) => i,
            None => {
                let msg = "task ".to_string().concat(id.as_str()).concat(" not found");
                return Err(AppError { err_msg: msg });
            }
        };
        if matches!(self.tasks[i].task_state, TaskState::Running) {
            let ghost pre = self.tasks@;
            let mut t = self.tasks.remove(i);
            t.task_state = TaskState::Stopping;
            self.tasks.insert(i, t);
            proof {
                assert(self.tasks@ =~= pre.update(
                    i as int,
                    Task { task_state: TaskState::Stopping, ..pre[i as int] },
                ));
                assert(self.tasks@[i as int].wf());
                lemma_update_same_id_wf(pre, self.tasks@, i as int);
            }
        }
        Ok(())
    }

    /// Removes a task.  Only permitted while it is `Created` or
    /// `Stopped`; a running or draining task is refused and left
    /// untouched.  Fails also when the id is unknown.
    pub fn remove_trade_task(&mut self, id: &String) -> (r: Result<(), AppError>)
        requires
            old(self).wf(),
        ensures
            final(self).wf(),
            !old(self).has_task(id@) ==> (r matches Err(e) && e.err_msg@ == "task "@ + id@
                + " not found"@ && *final(self) == *old(self)),
            old(self).has_task(id@) && r is Ok ==> exists|i: int|
                #![auto]
                {
                    &&& 0 <= i < old(self).tasks@.len()
                    &&& old(self).tasks@[i].id@ == id@
                    &&& (old(self).tasks@[i].task_state == TaskState::Created || old(
                        self,
                    ).tasks@[i].task_state == TaskState::Stopped)
                    &&& final(self).tasks@ == old(self).tasks@.remove(i)
                },
            old(self).has_task(id@) && r is Err ==> {
                &&& r matches Err(e) && e.err_msg@ == "task is running"@
                &&& *final(self) == *old(self)
                &&& exists|i: int|
                    #![auto]
                    {
                        &&& 0 <= i < old(self).tasks@.len()
                        &&& old(self).tasks@[i].id@ == id@
                        &&& !(old(self).tasks@[i].task_state == TaskState::Created || old(
                            self,
                        ).tasks@[i].task_state == TaskState::Stopped)
                    }
            },
    {
        let i = match self.find_idx(id) {
            Some(i) => i,
            None => {
                let msg = "task ".to_string().concat(id.as_str()).concat(" not found");
                return Err(AppError { err_msg: msg });
            }
        };
        let removable = matches!(
            self.tasks[i].task_state,
            TaskState::Created,
        ) || matches!(self.tasks[i].task_state, TaskState::Stopped);
        if removable {
            let ghost pre = self.tasks@;
            self.tasks.remove(i);
            proof {
                assert forall|a: int, b: int|
                    0 <= a < self.tasks@.len() && 0 <= b < self.tasks@.len() && a != b implies (
                #[trigger] self.tasks@[a]).id@ != (#[trigger] self.tasks@[b]).id@ by {
                    let a0 = if a < i as int {
                        a
                    } else {
                        a + 1
                    };
                    let b0 = if b < i as int {
                        b
                    } else {
                        b + 1
                    };
                    assert(self.tasks@[a] == pre[a0] && self.tasks@[b] == pre[b0]);
                }
                assert forall|j: int| 0 <= j < self.tasks@.len() implies (
                #[trigger] self.tasks@[j]).wf() by {
                    let j0 = if j < i as int {
                        j
                    } else {
                        j + 1
                    };
                    assert(self.tasks@[j] == pre[j0]);
                }
                assert((i as int) < old(self).tasks@.len() && old(self).tasks@[i as int].id@ == id@
                    && final(self).tasks@ == old(self).tasks@.remove(i as int));
                assert(exists|ii: int|
                    #![auto]
                    {
                        &&& 0 <= ii < old(self).tasks@.len()
                        &&& old(self).tasks@[ii].id@ == id@
                        &&& (old(self).tasks@[ii].task_state == TaskState::Created || old(
                            self,
                        ).tasks@[ii].task_state == TaskState::Stopped)
                        &&& final(self).tasks@ == old(self).tasks@.remove(ii)
                    }) by {
                    assert(old(self).tasks@[i as int].id@ == id@);
                }
            }
            Ok(())
        } else {
            let r = Err(AppError::new("task is running"));
            proof {
                assert((i as int) < old(self).tasks@.len() && old(self).tasks@[i as int].id@ == id@);
                assert(exists|ii: int|
                    #![auto]
                    {
                        &&& 0 <= ii < old(self).tasks@.len()
                        &&& old(self).tasks@[ii].id@ == id@
                        &&& !(old(self).tasks@[ii].task_state == TaskState::Created || old(
                            self,
                        ).tasks@[ii].task_state == TaskState::Stopped)
                    }) by {
                    assert(old(self).tasks@[i as int].id@ == id@);
                }
            }
            r
        }
    }

    /// One worker-loop observation under the lock: reads the task's
    /// state; on `Stopping` it also takes this worker's stopping
    /// transition.  A `Stopping` task that no worker is running is left
    /// as it is and treated as an exit.
    pub fn step_worker(&mut self, id: &String) -> (r: WorkerStepOutcome)
        requires
            old(self).wf(),
        ensures
            final(self).wf(),
            !old(self).has_task(id@) ==> (r == WorkerStepOutcome::Missing && *final(self) == *old(
                self,
            )),
            old(self).has_task(id@) ==> exists|i: int|
                #![auto]
                {
                    &&& 0 <= i < old(self).tasks@.len()
                    &&& old(self).tasks@[i].id@ == id@
                    &&& {
                        let t = old(self).tasks@[i];
                        match t.task_state {
                            TaskState::Created => r == WorkerStepOutcome::Exit && *final(self)
                                == *old(self),
                            TaskState::Stopped => r == WorkerStepOutcome::Exit && *final(self)
                                == *old(self),
                            TaskState::Running => r == (WorkerStepOutcome::Trade {
                                interval_secs: t.interval_secs,
                            }) && *final(self) == *old(self),
                            TaskState::Stopping => {
                                if t.running_workers > 0 {
                                    &&& final(self).tasks@ == old(self).tasks@.update(
                                        i,
                                        spec_finish_worker(t),
                                    )
                                    &&& r == (WorkerStepOutcome::Stopping {
                                        task_stopped: t.running_workers == 1,
                                    })
                                } else {
                                    r == WorkerStepOutcome::Exit && *final(self) == *old(self)
                                }
                            }
                        }
                    }
                },
    {
        let i = match self.find_idx(id) {
            Some(i) => i,
            None => {
                return WorkerStepOutcome::Missing;
            }
        };
        match self.tasks[i].task_state {
            TaskState::Created => WorkerStepOutcome::Exit,
            TaskState::Stopped => WorkerStepOutcome::Exit,
            TaskState::Running => WorkerStepOutcome::Trade {
                interval_secs: self.tasks[i].interval_secs,
            },
            TaskState::Stopping => {
                if self.tasks[i].running_workers == 0 {
                    return WorkerStepOutcome::Exit;
                }
                let ghost pre = self.tasks@;
                let mut t = self.tasks.remove(i);
                let last = t.running_workers == 1;
                t.running_workers = t.running_workers - 1;
                if t.running_workers == 0 {
                    t.task_state = TaskState::Stopped;
                }
                self.tasks.insert(i, t);
                proof {
                    assert(self.tasks@ =~= pre.update(i as int, spec_finish_worker(pre[i as int])));
                    assert(self.tasks@[i as int].wf());
                    lemma_update_same_id_wf(pre, self.tasks@, i as int);
                }
                WorkerStepOutcome::Stopping { task_stopped: last }
            }
        }
    }

    /// Leases a key from the named task's pool for one trade cycle;
    /// `None` without any change exactly when no key is free.  Fails only
    /// when the task vanished from the registry.
    pub fn take_key_for_task(&mut self, id: &String) -> (r: Result<Option<PrivateKey>, AppError>)
        requires
            old(self).wf(),
        ensures
            final(self).wf(),
            !old(self).has_task(id@) ==> (r matches Err(e) && e.err_msg@ == "no task "@ + id@
                + " found"@ && *final(self) == *old(self)),
            old(self).has_task(id@) ==> r is Ok && exists|i: int|
                #![auto]
                {
                    &&& 0 <= i < old(self).tasks@.len()
                    &&& old(self).tasks@[i].id@ == id@
                    &&& final(self).tasks@.len() == old(self).tasks@.len()
                    &&& forall|j: int|
                        0 <= j < old(self).tasks@.len() && j != i
                            ==> #[trigger] final(self).tasks@[j] == old(self).tasks@[j]
                    &&& same_config(final(self).tasks@[i], old(self).tasks@[i])
                    &&& match r {
                        Ok(Some(k)) => take_post(
                            old(self).tasks@[i].wallet_states@,
                            final(self).tasks@[i].wallet_states@,
                            k@,
                        ),
                        Ok(None) => final(self).tasks@ == old(self).tasks@ && all_leased(
                            old(self).tasks@[i].wallet_states@,
                        ),
                        Err(_) => false,
                    }
                },
    {
        let i = match self.find_idx(id) {
            Some(i) => i,
            None => {
                let msg = "no task ".to_string().concat(id.as_str()).concat(" found");
                return Err(AppError { err_msg: msg });
            }
        };
        let ghost pre = self.tasks@;
        let mut t = self.tasks.remove(i);
        let key = t.take_private_key();
        self.tasks.insert(i, t);
        proof {
            assert(self.tasks@.len() == pre.len());
            assert forall|j: int| 0 <= j < pre.len() && j != i as int implies #[trigger] self.tasks@[j]
                == pre[j] by {}
            if key is Some {
                crate::pool::lemma_take_post_effect(
                    pre[i as int].wallet_states@,
                    self.tasks@[i as int].wallet_states@,
                    key->0@,
                );
            }
            assert(self.tasks@[i as int].wf());
            lemma_update_same_id_wf(pre, self.tasks@, i as int);
            assert((i as int) < old(self).tasks@.len() && old(self).tasks@[i as int].id@ == id@
                && final(self).tasks@.len() == old(self).tasks@.len() && same_config(
                final(self).tasks@[i as int],
                old(self).tasks@[i as int],
            ));
            if key is None {
                assert(final(self).tasks@ =~= old(self).tasks@);
            }
        }
        Ok(key)
    }

    /// Returns a leased key to the named task's pool; a no-op for a key
    /// the pool does not track.  Fails only when the task vanished from
    /// the registry.
    pub fn return_key_for_task(&mut self, id: &String, private_key: PrivateKey) -> (r: Result<
        (),
        AppError,
    >)
        requires
            old(self).wf(),
        ensures
            final(self).wf(),
            !old(self).has_task(id@) ==> (r matches Err(e) && e.err_msg@ == "no task "@ + id@
                + " found"@ && *final(self) == *old(self)),
            old(self).has_task(id@) ==> r is Ok && exists|i: int|
                #![auto]
                {
                    &&& 0 <= i < old(self).tasks@.len()
                    &&& old(self).tasks@[i].id@ == id@
                    &&& final(self).tasks@.len() == old(self).tasks@.len()
                    &&& forall|j: int|
                        0 <= j < old(self).tasks@.len() && j != i
                            ==> #[trigger] final(self).tasks@[j] == old(self).tasks@[j]
                    &&& same_config(final(self).tasks@[i], old(self).tasks@[i])
                    &&& release_post(
                        old(self).tasks@[i].wallet_states@,
                        final(self).tasks@[i].wallet_states@,
                        private_key@,
                    )
                },
    {
        let i = match self.find_idx(id) {
            Some(i) => i,
            None => {
                let msg = "no task ".to_string().concat(id.as_str()).concat(" found");
                return Err(AppError { err_msg: msg });
            }
        };
        let ghost pre = self.tasks@;
        let mut t = self.tasks.remove(i);
        t.return_private_key(private_key);
        self.tasks.insert(i, t);
        proof {
            assert forall|j: int| 0 <= j < pre.len() && j != i as int implies #[trigger] self.tasks@[j]
                == pre[j] by {}
            crate::pool::lemma_release_post_preserves_unique(
                pre[i as int].wallet_states@,
                self.tasks@[i as int].wallet_states@,
                private_key@,
            );
            assert(self.tasks@[i as int].wf());
            lemma_update_same_id_wf(pre, self.tasks@, i as int);
        }
        Ok(())
    }
}

/// When one task is replaced by another with the same id whose own
/// invariant holds, the registry's invariant is preserved.
proof fn lemma_update_same_id_wf(pre: Seq<Task>, post: Seq<Task>, i: int)
    requires
        0 <= i < pre.len(),
        post.len() == pre.len(),
        forall|j: int| 0 <= j < pre.len() && j != i ==> #[trigger] post[j] == pre[j],
        post[i].id == pre[i].id,
        unique_ids(pre),
        forall|j: int| 0 <= j < pre.len() ==> (#[trigger] pre[j]).wf(),
        post[i].wf(),
    ensures
        unique_ids(post),
        forall|j: int| 0 <= j < post.len() ==> (#[trigger] post[j]).wf(),
{
    assert forall|a: int, b: int|
        0 <= a < post.len() && 0 <= b < post.len() && a != b implies (#[trigger] post[a]).id@ != (
    #[trigger] post[b]).id@ by {
        assert(post[a].id@ == pre[a].id@);
        assert(post[b].id@ == pre[b].id@);
    }
    assert forall|j: int| 0 <= j < post.len() implies (#[trigger] post[j]).wf() by {
        if j != i {
            assert(post[j] == pre[j]);
        }
    }
}

} // verus!
