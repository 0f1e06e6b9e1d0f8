use vstd::prelude::*;

use crate::wallet::clone_string;
use crate::worker::Worker;

verus! {

/// The two kinds of event a task broadcasts: a trade cycle's progress and
/// a worker's or the task's stop.
#[derive(Debug, Clone, Copy, PartialEq, Eq, Structural)]
pub enum TradeTaskEventType {
    Executed,
    Stopped,
}

/// One best-effort progress event: which task and, for worker events,
/// which lane it comes from, what happened, a human-readable message and
/// a wall-clock timestamp in milliseconds.
#[derive(Debug)]
pub struct TradeTaskEventPayload {
    pub task_id: String,
    pub worker_id: Option<u32>,
    pub kind: TradeTaskEventType,
    pub msg: String,
    pub ts: i64,
}

/// Relies on chrono's `Utc::now().timestamp_millis()`: the wall clock;
/// nothing can be promised of its value.
#[verifier::external_body]
fn now_millis() -> i64 {
    chrono::Utc::now().timestamp_millis()
}

impl TradeTaskEventPayload {
    /// An event about the task as a whole, stamped with the current time.
    pub fn new_task_event(task_id: &String, kind: TradeTaskEventType, msg: String) -> (r: Self)
        ensures
            r.task_id == *task_id,
            r.worker_id is None,
            r.kind == kind,
            r.msg == msg,
    {
        TradeTaskEventPayload {
            task_id: clone_string(task_id),
            worker_id: None,
            kind,
            msg,
            ts: now_millis(),
        }
    }

    /// An event about one worker lane, stamped with the current time.
    pub fn new_worker_event(worker: &Worker, kind: TradeTaskEventType, msg: String) -> (r: Self)
        ensures
            r.task_id == worker.task_id,
            r.worker_id == Some(worker.id),
            r.kind == kind,
            r.msg == msg,
    {
        TradeTaskEventPayload {
            task_id: clone_string(&worker.task_id),
            worker_id: Some(worker.id),
            kind,
            msg,
            ts: now_millis(),
        }
    }
}

} // verus!
