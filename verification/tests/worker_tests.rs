use mootrade::task::Task;
use mootrade::pool::KeyLeasePool;
use mootrade::chain::Chain;
use mootrade::events::{TradeTaskEventPayload, TradeTaskEventType};
use mootrade::task::TaskState;
use mootrade::token::TokenInfo;
use mootrade::trade::{TradeDirection, TradeMode};
use mootrade::worker::{worker_step, Worker, WorkerAction};

fn test_worker(trade_mode: TradeMode, percetage: (u32, u32)) -> Worker {
    Worker {
        id: 7,
        task_id: "grp-1".to_string(),
        win_label: "task_grp-1".to_string(),
        chain: Chain::Solana,
        agg_api_url: "https://agg.example".to_string(),
        agg_api_key: None,
        token: TokenInfo {
            chain: Chain::Solana,
            addr: "So11111111111111111111111111111111111111112".to_string(),
            name: "Wrapped SOL".to_string(),
            symbol: "SOL".to_string(),
            decimals: 9,
        },
        trade_mode,
        percetage,
        slippage: 50,
        gas_price: 1000,
        use_jito: false,
        jito_url: None,
    }
}

#[test]
fn worker_step_maps_every_state() {
    assert_eq!(worker_step(TaskState::Created), WorkerAction::Exit);
    assert_eq!(worker_step(TaskState::Stopped), WorkerAction::Exit);
    assert_eq!(worker_step(TaskState::Running), WorkerAction::Trade);
    assert_eq!(worker_step(TaskState::Stopping), WorkerAction::FinishStopping);
}

#[test]
fn percentage_stays_in_the_configured_range() {
    let w = test_worker(TradeMode::Both, (10, 20));
    for _ in 0..50 {
        let p = w.get_percentage();
        assert!((10..=20).contains(&p));
    }
}

#[test]
fn degenerate_percentage_range_is_deterministic() {
    let w = test_worker(TradeMode::Both, (15, 15));
    assert_eq!(w.get_percentage(), 15);
}

#[test]
fn trade_direction_forced_cases_are_deterministic() {
    let w = test_worker(TradeMode::Both, (10, 20));
    for _ in 0..20 {
        assert_eq!(w.get_trade_direction(123, 0), TradeDirection::Buy);
        assert_eq!(w.get_trade_direction(5000, 100), TradeDirection::Sell);
    }
    let buy_only = test_worker(TradeMode::BuyOnly, (10, 20));
    assert_eq!(buy_only.get_trade_direction(0, 0), TradeDirection::Buy);
    let sell_only = test_worker(TradeMode::SellOnly, (10, 20));
    assert_eq!(sell_only.get_trade_direction(0, 0), TradeDirection::Sell);
}

#[test]
fn planned_cycle_amount_follows_the_percentage_range() {
    let w = test_worker(TradeMode::BuyOnly, (10, 20));
    let intent = w.plan_cycle(1000, 0).expect("plan");
    assert_eq!(intent.direction, TradeDirection::Buy);
    assert!(intent.amount >= 100 && intent.amount <= 200);
}

#[test]
fn planned_cycle_with_empty_wallet_skips() {
    let w = test_worker(TradeMode::BuyOnly, (10, 20));
    let err = w.plan_cycle(0, 0).unwrap_err();
    assert_eq!(err.err_msg, "input is 0, skip this trade ......");
}

#[test]
fn task_events_carry_their_origin() {
    let w = test_worker(TradeMode::Both, (10, 20));
    let evt = TradeTaskEventPayload::new_worker_event(
        &w,
        TradeTaskEventType::Executed,
        "working".to_string(),
    );
    assert_eq!(evt.task_id, "grp-1");
    assert_eq!(evt.worker_id, Some(7));
    assert_eq!(evt.kind, TradeTaskEventType::Executed);
    assert_eq!(evt.msg, "working");

    let evt = TradeTaskEventPayload::new_task_event(
        &"grp-1".to_string(),
        TradeTaskEventType::Stopped,
        "task grp-1 stop successed".to_string(),
    );
    assert_eq!(evt.task_id, "grp-1");
    assert_eq!(evt.worker_id, None);
    assert_eq!(evt.kind, TradeTaskEventType::Stopped);
}

#[test]
fn worker_stop_decrements_and_last_one_flips_to_stopped() {
    let w = test_worker(TradeMode::Both, (10, 20));
    let mut task = Task {
        id: "grp-1".to_string(),
        workers_cnt: 2,
        running_workers: 2,
        task_state: TaskState::Stopping,
        chain: Chain::Solana,
        agg_api_url: "https://agg.example".to_string(),
        agg_api_key: None,
        token: w.token.clone(),
        trade_mode: TradeMode::Both,
        percetage: (10, 20),
        slippage: 50,
        use_jito: false,
        jito_url: None,
        gas_price: 1000,
        interval_secs: 1,
        wallet_states: KeyLeasePool::from_keys(&vec![vec![1u8; 64]]),
    };
    assert!(!w.stop(&mut task));
    assert_eq!(task.running_workers, 1);
    assert_eq!(task.task_state, TaskState::Stopping);
    assert!(w.stop(&mut task));
    assert_eq!(task.running_workers, 0);
    assert_eq!(task.task_state, TaskState::Stopped);
}
