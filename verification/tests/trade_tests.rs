use mootrade::chain::Chain;
use mootrade::consts::SOL_CONFIRM_TIMEOUT_SECS;
use mootrade::error::AppError;
use mootrade::trade::{
    classify_confirmation, direction_for, evm_preflight_check, needs_allowance_approval, plan_with,
    ConfirmOutcome, TradeDirection, TradeMode,
};

#[test]
fn direction_both_empty_token_balance_buys() {
    for coin in [false, true] {
        assert_eq!(
            direction_for(TradeMode::Both, 123_456, 0, coin),
            TradeDirection::Buy
        );
        assert_eq!(direction_for(TradeMode::Both, 0, 0, coin), TradeDirection::Buy);
    }
}

#[test]
fn direction_both_dust_native_balance_sells() {
    for coin in [false, true] {
        assert_eq!(
            direction_for(TradeMode::Both, 5000, 100, coin),
            TradeDirection::Sell
        );
    }
}

#[test]
fn direction_both_follows_coin_above_dust() {
    assert_eq!(
        direction_for(TradeMode::Both, 10_000, 100, true),
        TradeDirection::Sell
    );
    assert_eq!(
        direction_for(TradeMode::Both, 10_000, 100, false),
        TradeDirection::Buy
    );
}

#[test]
fn direction_one_sided_modes_ignore_balances() {
    for coin in [false, true] {
        assert_eq!(
            direction_for(TradeMode::BuyOnly, 0, 0, coin),
            TradeDirection::Buy
        );
        assert_eq!(
            direction_for(TradeMode::SellOnly, u128::MAX, u128::MAX, coin),
            TradeDirection::Sell
        );
    }
}

#[test]
fn plan_buy_takes_percentage_of_native_balance() {
    let intent = plan_with(Chain::Solana, TradeDirection::Buy, 50, 1000, 7).unwrap();
    assert_eq!(intent.direction, TradeDirection::Buy);
    assert_eq!(intent.amount, 500);
}

#[test]
fn plan_sell_takes_percentage_of_token_balance() {
    let intent = plan_with(Chain::Base, TradeDirection::Sell, 25, 7, 2000).unwrap();
    assert_eq!(intent.direction, TradeDirection::Sell);
    assert_eq!(intent.amount, 500);
}

#[test]
fn plan_zero_amount_skips_with_chain_message() {
    let sol: Result<_, AppError> = plan_with(Chain::Solana, TradeDirection::Buy, 50, 1, 0);
    assert_eq!(sol.unwrap_err().err_msg, "input is 0, skip this trade ......");
    let evm: Result<_, AppError> = plan_with(Chain::Base, TradeDirection::Buy, 50, 1, 0);
    assert_eq!(evm.unwrap_err().err_msg, "input amount too small, skip it...");
}

#[test]
fn plan_sol_amount_over_u64_is_refused() {
    let r = plan_with(Chain::Solana, TradeDirection::Buy, 200, u64::MAX as u128, 0);
    assert_eq!(r.unwrap_err().err_msg, "trade amount overflow");
}

#[test]
fn classify_confirmation_covers_all_outcomes() {
    assert!(matches!(
        classify_confirmation(None, SOL_CONFIRM_TIMEOUT_SECS),
        ConfirmOutcome::StillPending
    ));
    assert!(matches!(
        classify_confirmation(None, SOL_CONFIRM_TIMEOUT_SECS + 1),
        ConfirmOutcome::Dropped
    ));
    assert!(matches!(
        classify_confirmation(Some(None), 3),
        ConfirmOutcome::LandedSuccess
    ));
    match classify_confirmation(Some(Some("custom program error".to_string())), 3) {
        ConfirmOutcome::LandedFailed(msg) => assert_eq!(msg, "custom program error"),
        other => panic!("unexpected outcome: {:?}", other),
    }
}

#[test]
fn allowance_approval_only_for_uncovered_sells() {
    assert!(needs_allowance_approval(TradeDirection::Sell, 99, 100));
    assert!(!needs_allowance_approval(TradeDirection::Sell, 100, 100));
    assert!(!needs_allowance_approval(TradeDirection::Buy, 0, 100));
}

#[test]
fn evm_preflight_compares_total_cost_to_balance() {
    // gas_price * gas + value == 10 * 21000 + 5 == 210005
    assert!(evm_preflight_check(210_005, 10, 21_000, 5).is_ok());
    let short = evm_preflight_check(210_004, 10, 21_000, 5);
    assert_eq!(short.unwrap_err().err_msg, "wallet balance too low");
    let overflow = evm_preflight_check(u128::MAX, u128::MAX, 2, 0);
    assert!(overflow.is_err());
}
