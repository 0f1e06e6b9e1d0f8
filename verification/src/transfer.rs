use vstd::prelude::*;

use crate::consts::SOL_TX_BASE_FEE;
use crate::error::AppError;

verus! {

/// Gas limit of a plain native transfer on the EVM chains.
pub const EVM_TRANSFER_GAS_LIMIT: u128 = 21000;

/// Flat bump added to the reported gas price so transfers land faster.
pub const EVM_GAS_PRICE_BUMP: u128 = 100_000;

/// Data-availability gas units a rollup transfer is charged on L1.
pub const L1_GAS_UNITS: u128 = 1600;

/// Assumed L1 gas price for a plain transfer, in wei.
pub const TRANSFER_L1_GAS_PRICE: u128 = 10_000_000_000;

/// Assumed L1 gas price for a wallet-group withdrawal, in wei.
pub const WITHDRAW_L1_GAS_PRICE: u128 = 1_000_000_000;

/// A balance listing for one address: the raw base-unit amount and its
/// human-readable form, both as text.
#[derive(Debug)]
pub struct AddrBalanceResp {
    pub addr: String,
    pub bal_ui: String,
    pub bal: String,
}

/// A request to move native funds from one wallet to an address; the
/// amount is `"max"` or a number in the asset's display unit.
#[derive(Debug)]
pub struct TransferNativeReq {
    pub chain: crate::chain::Chain,
    pub from_pk: String,
    pub addr: String,
    pub amount: String,
}

/// The most a Solana wallet can send in one transfer: its balance less
/// the base fee.  A balance below the fee is refused.
pub fn sol_max_transfer_amount(balance: u64) -> (r: Result<u64, AppError>)
    ensures
        balance >= SOL_TX_BASE_FEE ==> r == Ok::<u64, AppError>((balance - SOL_TX_BASE_FEE) as u64),
        balance < SOL_TX_BASE_FEE ==> (r matches Err(e) && e.err_msg@ == "insufficient balance"@),
{
    if SOL_TX_BASE_FEE > balance {
        return Err(AppError::new("insufficient balance"));
    }
    Ok(balance - SOL_TX_BASE_FEE)
}

/// The total a batch transfer needs: the per-recipient amount times the
/// recipient count.  Refused when the total cannot be carried in 64 bits
/// or exceeds the sender's balance; the refusal names the balance and the
/// required total.
pub fn check_batch_transfer(balance: u64, per_amount: u64, count: usize) -> (r: Result<
    u64,
    AppError,
>)
    ensures
        (per_amount * count <= u64::MAX && balance >= per_amount * count) ==> r == Ok::<
            u64,
            AppError,
        >((per_amount * count) as u64),
        (per_amount * count > u64::MAX || balance < per_amount * count) ==> (r matches Err(e)
            && e.err_msg@ == "balance not enough, balance is: "@ + crate::utils::dec_str_of(
            balance as nat,
        ) + ", need: "@ + crate::utils::dec_str_of((per_amount * count) as nat)),
{
    proof {
        assert((per_amount as int) * (count as int) <= u128::MAX) by (nonlinear_arith)
            requires
                per_amount <= u64::MAX,
                count <= u64::MAX,
        ;
    }
    let total = (per_amount as u128) * (count as u128);
    if total > u64::MAX as u128 || (balance as u128) < total {
        let msg = "balance not enough, balance is: ".to_string().concat(
            crate::utils::u128_to_dec_str(balance as u128).as_str(),
        ).concat(", need: ").concat(crate::utils::u128_to_dec_str(total).as_str());
        return Err(AppError { err_msg: msg });
    }
    Ok(total as u64)
}

/// How the caller states the amount of a native transfer.
#[derive(Debug, Clone, Copy, PartialEq, Eq, Structural)]
pub enum TransferAmount {
    /// Send everything the fees leave over.
    Max,
    /// Send exactly this many base units.
    Exact(u128),
}

/// The total fee an EVM transfer pays: the bumped gas price over the
/// transfer gas limit, plus the assumed L1 data fee.
pub open spec fn evm_transfer_fee(gas_price: int, l1_gas_price: int) -> int {
    (gas_price + EVM_GAS_PRICE_BUMP) * EVM_TRANSFER_GAS_LIMIT + L1_GAS_UNITS * l1_gas_price
}

/// Decides the value and gas price of one EVM native transfer.  `Max`
/// sends the balance less the total fee; an exact amount must be covered
/// by the balance.  Returns the value to send and the bumped gas price.
pub fn evm_transfer_value(
    balance: u128,
    gas_price: u128,
    l1_gas_price: u128,
    amount: TransferAmount,
) -> (r: Result<(u128, u128), AppError>)
    requires
        gas_price + EVM_GAS_PRICE_BUMP <= u128::MAX / EVM_TRANSFER_GAS_LIMIT,
        L1_GAS_UNITS * l1_gas_price + (gas_price + EVM_GAS_PRICE_BUMP) * EVM_TRANSFER_GAS_LIMIT
            <= u128::MAX,
    ensures
        amount is Max ==> {
            if balance >= evm_transfer_fee(gas_price as int, l1_gas_price as int) {
                r == Ok::<(u128, u128), AppError>(
                    (
                        (balance - evm_transfer_fee(gas_price as int, l1_gas_price as int)) as u128,
                        (gas_price + EVM_GAS_PRICE_BUMP) as u128,
                    ),
                )
            } else {
                r matches Err(e) && e.err_msg@ == "insufficient balance"@
            }
        },
        amount matches TransferAmount::Exact(v) ==> {
            if balance >= v {
                r == Ok::<(u128, u128), AppError>((v, (gas_price + EVM_GAS_PRICE_BUMP) as u128))
            } else {
                r matches Err(e) && e.err_msg@ == "insufficient balance"@
            }
        },
{
    let bumped = gas_price + EVM_GAS_PRICE_BUMP;
    match amount {
        TransferAmount::Max => {
            let total_fee = bumped * EVM_TRANSFER_GAS_LIMIT + L1_GAS_UNITS * l1_gas_price;
            if total_fee > balance {
                return Err(AppError::new("insufficient balance"));
            }
            Ok((balance - total_fee, bumped))
        }
        TransferAmount::Exact(v) => {
            if balance < v {
                return Err(AppError::new("insufficient balance"));
            }
            Ok((v, bumped))
        }
    }
}

/// The total an airdrop deposit must send: native plus wrapped amount,
/// per recipient.  `None` when the total cannot be carried in 128 bits.
pub fn airdrop_required_value(per_amount: u128, per_w_amount: u128, count: usize) -> (r: Option<
    u128,
>)
    ensures
        (per_amount + per_w_amount <= u128::MAX && (per_amount + per_w_amount) * count
            <= u128::MAX) ==> r == Some((((per_amount + per_w_amount) * count) as u128)),
        (per_amount + per_w_amount > u128::MAX || (per_amount + per_w_amount) * count > u128::MAX)
            ==> r is None,
{
    if per_amount > u128::MAX - per_w_amount {
        return None;
    }
    let per = per_amount + per_w_amount;
    if count == 0 {
        return Some(0);
    }
    proof {
        crate::trade::lemma_mul_overflow_check(per, count as u128);
    }
    if per > u128::MAX / (count as u128) {
        return None;
    }
    Some(per * (count as u128))
}

/// The balance must cover the required value.
pub fn check_balance_covers(balance: u128, value: u128) -> (r: Result<(), AppError>)
    ensures
        balance >= value ==> r is Ok,
        balance < value ==> (r matches Err(e) && e.err_msg@ == "insufficient balance"@),
{
    if balance < value {
        return Err(AppError::new("insufficient balance"));
    }
    Ok(())
}

} // verus!
