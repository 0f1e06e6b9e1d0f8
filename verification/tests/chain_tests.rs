use mootrade::utils::TrimZeroChar;
use mootrade::chain::Chain;
use mootrade::consts::{BASE_WETH_ADDR, SOL_TX_BASE_FEE};
use mootrade::jito::get_tip_account;
use mootrade::token::TokenInfo;
use mootrade::transfer::{
    airdrop_required_value, check_balance_covers, check_batch_transfer, evm_transfer_value,
    sol_max_transfer_amount, TransferAmount, EVM_GAS_PRICE_BUMP, TRANSFER_L1_GAS_PRICE,
    WITHDRAW_L1_GAS_PRICE,
};

#[test]
fn evm_chain_config_matches_the_chain() {
    assert!(Chain::Solana.evm_chain_config().is_none());
    let base = Chain::Base.evm_chain_config().unwrap();
    assert_eq!(base.chain_id, 8453);
    assert_eq!(base.native_symbol, "ETH");
    assert_eq!(base.wrapped_native_addr, BASE_WETH_ADDR);
    let bsc = Chain::Bsc.evm_chain_config().unwrap();
    assert_eq!(bsc.chain_id, 56);
    assert_eq!(bsc.native_symbol, "BNB");
}

#[test]
fn sol_max_transfer_keeps_the_base_fee() {
    assert_eq!(sol_max_transfer_amount(10_000).unwrap(), 10_000 - SOL_TX_BASE_FEE);
    assert_eq!(sol_max_transfer_amount(SOL_TX_BASE_FEE).unwrap(), 0);
    let err = sol_max_transfer_amount(SOL_TX_BASE_FEE - 1).unwrap_err();
    assert_eq!(err.err_msg, "insufficient balance");
}

#[test]
fn batch_transfer_needs_the_full_total() {
    assert_eq!(check_batch_transfer(100, 30, 3).unwrap(), 90);
    let err = check_batch_transfer(89, 30, 3).unwrap_err();
    assert_eq!(err.err_msg, "balance not enough, balance is: 89, need: 90");
    let overflow = check_batch_transfer(u64::MAX, u64::MAX, 2).unwrap_err();
    assert_eq!(
        overflow.err_msg,
        "balance not enough, balance is: 18446744073709551615, need: 36893488147419103230"
    );
}

#[test]
fn evm_max_transfer_subtracts_both_fees() {
    // fee = (1000 + bump) * 21000 + 1600 * l1_price
    let gas_price: u128 = 1000;
    let fee = (gas_price + EVM_GAS_PRICE_BUMP) * 21_000 + 1600 * TRANSFER_L1_GAS_PRICE;
    let balance = fee + 5;
    let (value, bumped) =
        evm_transfer_value(balance, gas_price, TRANSFER_L1_GAS_PRICE, TransferAmount::Max)
            .unwrap();
    assert_eq!(value, 5);
    assert_eq!(bumped, gas_price + EVM_GAS_PRICE_BUMP);
    let err = evm_transfer_value(fee - 1, gas_price, TRANSFER_L1_GAS_PRICE, TransferAmount::Max)
        .unwrap_err();
    assert_eq!(err.err_msg, "insufficient balance");
}

#[test]
fn evm_exact_transfer_checks_the_balance() {
    let ok = evm_transfer_value(100, 7, WITHDRAW_L1_GAS_PRICE, TransferAmount::Exact(100));
    assert_eq!(ok.unwrap().0, 100);
    let err = evm_transfer_value(99, 7, WITHDRAW_L1_GAS_PRICE, TransferAmount::Exact(100));
    assert_eq!(err.unwrap_err().err_msg, "insufficient balance");
}

#[test]
fn airdrop_value_multiplies_per_recipient_amounts() {
    assert_eq!(airdrop_required_value(10, 5, 4), Some(60));
    assert_eq!(airdrop_required_value(10, 5, 0), Some(0));
    assert_eq!(airdrop_required_value(u128::MAX, 1, 1), None);
    assert!(check_balance_covers(60, 60).is_ok());
    assert_eq!(
        check_balance_covers(59, 60).unwrap_err().err_msg,
        "insufficient balance"
    );
}

#[test]
fn tip_account_is_one_of_the_known_eight() {
    let known = [
        "Cw8CFyM9FkoMi7K7Crf6HNQqf4uEMzpKw6QNghXLvLkY",
        "ADuUkR4vqLUMWXxW9gh6D6L8pMSawimctcNZ5pGwDcEt",
        "96gYZGLnJYVFmbjzopPSU6QiEV5fGqZNyN9nmNhvrZU5",
        "HFqU5x63VTqvQss8hp11i4wVV8bD44PvwucfZ2bU7gRe",
        "ADaUMid9yfUytqMBgopwjb2DTLSokTSzL1zt6iGPaS49",
        "DfXygSm4jCyNCybVYYK6DwvWqjKee8pbDmJGcLWNDXjh",
        "DttWaMuVvTiduZRnguLF7jNxTgiMBZ1hyAumKUiL2KRL",
        "3AVi9Tg9Uo68tJfuvoKvqKNWKkC5wPdSSdeBnizKZ6jT",
    ];
    for _ in 0..20 {
        let tip = get_tip_account();
        assert!(known.contains(&tip));
    }
}

#[test]
fn sol_token_metadata_is_nul_trimmed() {
    let info = TokenInfo::from_sol_parts(
        "So11111111111111111111111111111111111111112",
        Some(("\0\0Wrapped SOL\0\0\0".to_string(), "SOL\0\0\0\0".to_string())),
        9,
    );
    assert_eq!(info.name, "Wrapped SOL");
    assert_eq!(info.symbol, "SOL");
    assert_eq!(info.decimals, 9);
    assert_eq!(info.chain, Chain::Solana);
}

#[test]
fn sol_token_without_metadata_is_unknown() {
    let info = TokenInfo::from_sol_parts("Mint1111111111111111111111111111111111111111", None, 6);
    assert_eq!(info.name, "Unknown");
    assert_eq!(info.symbol, "Unknown");
}

#[test]
fn evm_token_info_keeps_contract_fields() {
    let info = TokenInfo::from_evm_parts(
        Chain::Base,
        "0x4200000000000000000000000000000000000006",
        "Wrapped Ether".to_string(),
        "WETH".to_string(),
        18,
    );
    assert_eq!(info.chain, Chain::Base);
    assert_eq!(info.symbol, "WETH");
}

#[test]
fn trim_zero_char_strips_only_the_padding() {
    assert_eq!("\0\0abc\0".to_string().trim_zero_char(), "abc");
    assert_eq!("abc".to_string().trim_zero_char(), "abc");
    assert_eq!("\0\0\0".to_string().trim_zero_char(), "");
    assert_eq!("".to_string().trim_zero_char(), "");
    assert_eq!("a\0b".to_string().trim_zero_char(), "a\0b");
}
