use mootrade::trade::{plan_with, TradeDirection};
use mootrade::chain::Chain;
use mootrade::project::Project;
use mootrade::registry::{TaskRegistry, WorkerStepOutcome};
use mootrade::task::{CreateTaskReq, TaskState};
use mootrade::token::TokenInfo;
use mootrade::trade::TradeMode;
use mootrade::wallet::WalletGrp;

fn test_token() -> TokenInfo {
    TokenInfo {
        chain: Chain::Solana,
        addr: "So11111111111111111111111111111111111111112".to_string(),
        name: "Wrapped SOL".to_string(),
        symbol: "SOL".to_string(),
        decimals: 9,
    }
}

fn test_project() -> Project {
    Project {
        id: "proj".to_string(),
        name: "test project".to_string(),
        chain: Chain::Solana,
        main_wallet: vec![0u8; 64],
        rpc: "https://rpc.example".to_string(),
        jito_url: None,
        agg_api_url: "https://agg.example".to_string(),
        agg_api_key: None,
        proxy_urls: vec!["http://proxy.example".to_string()],
        wallet_grps: vec![WalletGrp {
            id: "grp-1".to_string(),
            name: "wallets".to_string(),
            chain: Chain::Solana,
            pks: vec![vec![1u8; 64], vec![2u8; 64]],
        }],
    }
}

fn test_req(workers_cnt: u32) -> CreateTaskReq {
    CreateTaskReq {
        workers_cnt,
        wallet_grp_id: "grp-1".to_string(),
        token: test_token(),
        trade_mode: TradeMode::Both,
        percetage: (10, 20),
        slippage: 50,
        use_jito: false,
        gas_price: 1000,
        interval_secs: 1,
    }
}

fn registry_with_task(workers_cnt: u32) -> TaskRegistry {
    let mut reg = TaskRegistry::new();
    reg.create_trade_task(&test_req(workers_cnt), &test_project())
        .expect("create");
    reg
}

#[test]
fn create_registers_task_in_created_state() {
    let reg = registry_with_task(3);
    assert_eq!(reg.tasks.len(), 1);
    assert_eq!(reg.tasks[0].id, "grp-1");
    assert_eq!(reg.tasks[0].task_state, TaskState::Created);
    assert_eq!(reg.tasks[0].running_workers, 0);
    assert_eq!(reg.tasks[0].wallet_states.slots.len(), 2);
}

#[test]
fn create_with_unknown_wallet_group_fails() {
    let mut reg = TaskRegistry::new();
    let mut req = test_req(1);
    req.wallet_grp_id = "missing".to_string();
    let err = reg.create_trade_task(&req, &test_project()).unwrap_err();
    assert_eq!(err.err_msg, "No wallet group find");
    assert_eq!(reg.tasks.len(), 0);
}

#[test]
fn create_twice_while_created_is_a_no_op() {
    let mut reg = registry_with_task(3);
    reg.create_trade_task(&test_req(3), &test_project()).expect("no-op");
    assert_eq!(reg.tasks.len(), 1);
}

#[test]
fn create_again_after_start_is_rejected() {
    let mut reg = registry_with_task(3);
    reg.start_trade_task(&"grp-1".to_string()).expect("start");
    let err = reg
        .create_trade_task(&test_req(3), &test_project())
        .unwrap_err();
    assert_eq!(err.err_msg, "task grp-1 is already running");
}

#[test]
fn start_spawns_configured_worker_count() {
    let mut reg = registry_with_task(3);
    let workers = reg.start_trade_task(&"grp-1".to_string()).expect("start");
    assert_eq!(workers.len(), 3);
    assert_eq!(reg.tasks[0].task_state, TaskState::Running);
    assert_eq!(reg.tasks[0].running_workers, 3);
    for (i, w) in workers.iter().enumerate() {
        assert_eq!(w.id, i as u32);
        assert_eq!(w.task_id, "grp-1");
        assert_eq!(w.win_label, "task_grp-1");
        assert_eq!(w.percetage, (10, 20));
    }
}

#[test]
fn start_while_running_spawns_nothing_and_is_ok() {
    let mut reg = registry_with_task(3);
    reg.start_trade_task(&"grp-1".to_string()).expect("first start");
    let again = reg.start_trade_task(&"grp-1".to_string()).expect("second start");
    assert_eq!(again.len(), 0);
    assert_eq!(reg.tasks[0].running_workers, 3);
    assert_eq!(reg.tasks[0].task_state, TaskState::Running);
}

#[test]
fn start_unknown_task_fails() {
    let mut reg = TaskRegistry::new();
    let err = reg.start_trade_task(&"nope".to_string()).unwrap_err();
    assert_eq!(err.err_msg, "task nope not found");
}

#[test]
fn stop_on_created_task_is_a_no_op() {
    let mut reg = registry_with_task(3);
    reg.stop_trade_task(&"grp-1".to_string()).expect("stop");
    assert_eq!(reg.tasks[0].task_state, TaskState::Created);
}

#[test]
fn stop_moves_running_task_to_stopping() {
    let mut reg = registry_with_task(2);
    reg.start_trade_task(&"grp-1".to_string()).expect("start");
    reg.stop_trade_task(&"grp-1".to_string()).expect("stop");
    assert_eq!(reg.tasks[0].task_state, TaskState::Stopping);
    assert_eq!(reg.tasks[0].running_workers, 2);
}

#[test]
fn remove_running_task_fails_and_leaves_it_unchanged() {
    let mut reg = registry_with_task(2);
    reg.start_trade_task(&"grp-1".to_string()).expect("start");
    let err = reg.remove_trade_task(&"grp-1".to_string()).unwrap_err();
    assert_eq!(err.err_msg, "task is running");
    assert_eq!(reg.tasks.len(), 1);
    assert_eq!(reg.tasks[0].task_state, TaskState::Running);
    assert_eq!(reg.tasks[0].running_workers, 2);
}

#[test]
fn remove_created_task_succeeds() {
    let mut reg = registry_with_task(2);
    reg.remove_trade_task(&"grp-1".to_string()).expect("remove");
    assert_eq!(reg.tasks.len(), 0);
}

#[test]
fn workers_drain_stopping_task_until_stopped() {
    let mut reg = registry_with_task(2);
    reg.start_trade_task(&"grp-1".to_string()).expect("start");
    reg.stop_trade_task(&"grp-1".to_string()).expect("stop");
    let id = "grp-1".to_string();
    match reg.step_worker(&id) {
        WorkerStepOutcome::Stopping { task_stopped } => assert!(!task_stopped),
        other => panic!("unexpected outcome: {:?}", other),
    }
    assert_eq!(reg.tasks[0].running_workers, 1);
    assert_eq!(reg.tasks[0].task_state, TaskState::Stopping);
    match reg.step_worker(&id) {
        WorkerStepOutcome::Stopping { task_stopped } => assert!(task_stopped),
        other => panic!("unexpected outcome: {:?}", other),
    }
    assert_eq!(reg.tasks[0].running_workers, 0);
    assert_eq!(reg.tasks[0].task_state, TaskState::Stopped);
    assert!(matches!(reg.step_worker(&id), WorkerStepOutcome::Exit));
}

#[test]
fn step_worker_reports_trade_with_interval_while_running() {
    let mut reg = registry_with_task(1);
    reg.start_trade_task(&"grp-1".to_string()).expect("start");
    match reg.step_worker(&"grp-1".to_string()) {
        WorkerStepOutcome::Trade { interval_secs } => assert_eq!(interval_secs, 1),
        other => panic!("unexpected outcome: {:?}", other),
    }
}

#[test]
fn step_worker_on_missing_task_reports_missing() {
    let mut reg = TaskRegistry::new();
    assert!(matches!(
        reg.step_worker(&"gone".to_string()),
        WorkerStepOutcome::Missing
    ));
}

#[test]
fn three_workers_share_two_keys() {
    // workers_cnt = 3 but the group has only 2 wallets: a third concurrent
    // lease finds no key, which is a skipped cycle and not an error.
    let mut reg = registry_with_task(3);
    reg.start_trade_task(&"grp-1".to_string()).expect("start");
    let id = "grp-1".to_string();
    let k1 = reg.take_key_for_task(&id).expect("registry ok");
    let k2 = reg.take_key_for_task(&id).expect("registry ok");
    let k3 = reg.take_key_for_task(&id).expect("registry ok");
    let k1 = k1.expect("first lease");
    let k2 = k2.expect("second lease");
    assert_ne!(k1, k2);
    assert!(k3.is_none());
    reg.return_key_for_task(&id, k1).expect("return");
    assert!(reg.take_key_for_task(&id).expect("registry ok").is_some());
}

#[test]
fn zero_amount_cycle_skips_and_still_releases_its_key() {
    let mut reg = registry_with_task(1);
    reg.start_trade_task(&"grp-1".to_string()).expect("start");
    let id = "grp-1".to_string();
    let key = reg.take_key_for_task(&id).expect("registry ok").expect("lease");
    // The wallet turns out to hold nothing: the plan fails fast as a skip.
    let plan = plan_with(Chain::Solana, TradeDirection::Buy, 15, 0, 0);
    assert_eq!(plan.unwrap_err().err_msg, "input is 0, skip this trade ......");
    // The key is released on the error path all the same.
    reg.return_key_for_task(&id, key).expect("return");
    assert!(reg.tasks[0].wallet_states.slots.iter().all(|s| !s.in_use));
}

#[test]
fn take_key_for_unknown_task_fails() {
    let mut reg = TaskRegistry::new();
    let err = reg.take_key_for_task(&"gone".to_string()).unwrap_err();
    assert_eq!(err.err_msg, "no task gone found");
}
