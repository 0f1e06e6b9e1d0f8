use vstd::prelude::*;

use crate::chain::Chain;
use crate::error::AppError;

verus! {

/// Which way one trade cycle moves: `Buy` spends the native asset for the
/// token, `Sell` the token for the native asset.
#[derive(Debug, Clone, Copy, PartialEq, Eq, Structural)]
pub enum TradeDirection {
    Buy,
    Sell,
}

/// What a task is allowed to do each cycle.
#[derive(Debug, Clone, Copy, PartialEq, Eq, Structural)]
pub enum TradeMode {
    Both,
    BuyOnly,
    SellOnly,
}

/// Native balance, in base units, under which mixed trade mode stops
/// buying and forces a sell.
pub const DUST_THRESHOLD: u128 = 10000;

/// The direction policy: in mixed mode an empty token balance forces a
/// buy, a native balance under the dust threshold forces a sell, and
/// otherwise a coin flip decides; the one-sided modes ignore balances.
pub open spec fn direction_spec(
    mode: TradeMode,
    native_bal: u128,
    token_bal: u128,
    sell_coin: bool,
) -> TradeDirection {
    match mode {
        TradeMode::Both => {
            if token_bal == 0 {
                TradeDirection::Buy
            } else if native_bal < DUST_THRESHOLD {
                TradeDirection::Sell
            } else if sell_coin {
                TradeDirection::Sell
            } else {
                TradeDirection::Buy
            }
        }
        TradeMode::BuyOnly => TradeDirection::Buy,
        TradeMode::SellOnly => TradeDirection::Sell,
    }
}

/// A direction the policy can produce for these balances, for some value
/// of the coin flip.
pub open spec fn direction_admissible(
    mode: TradeMode,
    native_bal: u128,
    token_bal: u128,
    d: TradeDirection,
) -> bool {
    exists|s: bool| d == direction_spec(mode, native_bal, token_bal, s)
}

/// The direction policy with the coin flip passed in.
pub fn direction_for(mode: TradeMode, native_bal: u128, token_bal: u128, sell_coin: bool) -> (d:
    TradeDirection)
    ensures
        d == direction_spec(mode, native_bal, token_bal, sell_coin),
{
    match mode {
        TradeMode::Both => {
            if token_bal == 0 {
                TradeDirection::Buy
            } else if native_bal < DUST_THRESHOLD {
                TradeDirection::Sell
            } else if sell_coin {
                TradeDirection::Sell
            } else {
                TradeDirection::Buy
            }
        }
        TradeMode::BuyOnly => TradeDirection::Buy,
        TradeMode::SellOnly => TradeDirection::Sell,
    }
}

/// One cycle's decision: the direction and the input amount, in base
/// units of the asset being spent.
#[derive(Debug, Clone, Copy, PartialEq, Eq, Structural)]
pub struct TradeIntent {
    pub direction: TradeDirection,
    pub amount: u128,
}

/// What planning one trade returns: the percentage of the relevant
/// balance, rounded down; a zero amount is refused with the chain's skip
/// message, and an amount the chain cannot carry is refused as overflow.
pub open spec fn plan_post(
    chain: Chain,
    direction: TradeDirection,
    percentage: u64,
    native_bal: u128,
    token_bal: u128,
    r: Result<TradeIntent, AppError>,
) -> bool {
    let base = (if direction == TradeDirection::Buy {
        native_bal
    } else {
        token_bal
    }) as int;
    let amount = base * percentage / 100;
    &&& (base * percentage <= u128::MAX && amount != 0 && !(chain == Chain::Solana && amount
        > u64::MAX)) ==> (r matches Ok(it) && it.direction == direction && it.amount == amount)
    &&& (base * percentage <= u128::MAX && amount == 0) ==> (r matches Err(e) && e.err_msg@ == (
    if chain == Chain::Solana {
        "input is 0, skip this trade ......"@
    } else {
        "input amount too small, skip it..."@
    }))
    &&& (base * percentage > u128::MAX || (base * percentage <= u128::MAX && chain == Chain::Solana
        && amount > u64::MAX)) ==> (r matches Err(e) && e.err_msg@ == "trade amount overflow"@)
}

/// `b * p` fits in 128 bits exactly when `b` is at most `u128::MAX / p`.
pub proof fn lemma_mul_overflow_check(b: u128, p: u128)
    requires
        p > 0,
    ensures
        (b * p <= u128::MAX) <==> (b <= u128::MAX / p),
{
    let m = u128::MAX as int;
    let bi = b as int;
    let pi = p as int;
    let q = m / pi;
    assert(m == q * pi + m % pi && 0 <= m % pi < pi) by (nonlinear_arith)
        requires
            pi > 0,
            q == m / pi,
    ;
    assert((bi <= q) ==> (bi * pi <= m)) by (nonlinear_arith)
        requires
            pi > 0,
            m == q * pi + m % pi,
            0 <= m % pi < pi,
    ;
    assert((bi > q) ==> (bi * pi > m)) by (nonlinear_arith)
        requires
            pi > 0,
            m == q * pi + m % pi,
            0 <= m % pi < pi,
    ;
    assert(u128::MAX / p == q);
}

/// Plans one trade from the chosen direction and percentage: the amount
/// is that percentage of the spent asset's balance.
pub fn plan_with(
    chain: Chain,
    direction: TradeDirection,
    percentage: u64,
    native_bal: u128,
    token_bal: u128,
) -> (r: Result<TradeIntent, AppError>)
    ensures
        plan_post(chain, direction, percentage, native_bal, token_bal, r),
{
    let base: u128 = if matches!(direction, TradeDirection::Buy) {
        native_bal
    } else {
        token_bal
    };
    let p = percentage as u128;
    if p > 0 {
        proof {
            lemma_mul_overflow_check(base, p);
        }
        if base > u128::MAX / p {
            return Err(AppError::new("trade amount overflow"));
        }
    }
    let amount = base * p / 100;
    if amount == 0 {
        let msg = if matches!(chain, Chain::Solana) {
            "input is 0, skip this trade ......"
        } else {
            "input amount too small, skip it..."
        };
        return Err(AppError::new(msg));
    }
    if matches!(chain, Chain::Solana) && amount > u64::MAX as u128 {
        return Err(AppError::new("trade amount overflow"));
    }
    Ok(TradeIntent { direction, amount })
}

/// What a confirmation poll found for a submitted Solana transaction:
/// still nothing, dropped after the validity window, landed with an
/// on-chain error, or landed and succeeded.
#[derive(Debug)]
pub enum ConfirmOutcome {
    StillPending,
    Dropped,
    LandedFailed(String),
    LandedSuccess,
}

/// Classifies one confirmation poll.  `status` is what the chain reports
/// for the transaction: nothing yet, or a landed status that may carry an
/// error; `elapsed_secs` is the time since submission.
pub fn classify_confirmation(status: Option<Option<String>>, elapsed_secs: u64) -> (r:
    ConfirmOutcome)
    ensures
        status matches Some(s) ==> match s {
            Some(e) => r matches ConfirmOutcome::LandedFailed(m) && m == e,
            None => r is LandedSuccess,
        },
        status is None && elapsed_secs > crate::consts::SOL_CONFIRM_TIMEOUT_SECS ==> r is Dropped,
        status is None && elapsed_secs <= crate::consts::SOL_CONFIRM_TIMEOUT_SECS
            ==> r is StillPending,
{
    match status {
        Some(Some(err)) => ConfirmOutcome::LandedFailed(err),
        Some(None) => ConfirmOutcome::LandedSuccess,
        None => {
            if elapsed_secs > crate::consts::SOL_CONFIRM_TIMEOUT_SECS {
                ConfirmOutcome::Dropped
            } else {
                ConfirmOutcome::StillPending
            }
        }
    }
}

/// Whether a sell first needs a spender approval: only when selling and
/// the current allowance does not cover the amount.
pub fn needs_allowance_approval(direction: TradeDirection, allowance: u128, amount: u128) -> (r:
    bool)
    ensures
        r == (direction == TradeDirection::Sell && allowance < amount),
{
    matches!(direction, TradeDirection::Sell) && allowance < amount
}

/// Checks the wallet can cover a submitted transaction's total cost:
/// gas price times gas limit plus the value it sends.
pub fn evm_preflight_check(balance: u128, gas_price: u128, gas: u128, value: u128) -> (r: Result<
    (),
    AppError,
>)
    ensures
        r is Ok <==> (gas_price * gas + value <= u128::MAX && balance >= gas_price * gas + value),
        r matches Err(e) ==> e.err_msg@ == "wallet balance too low"@,
{
    if gas > 0 {
        proof {
            lemma_mul_overflow_check(gas_price, gas);
        }
        if gas_price > u128::MAX / gas {
            return Err(AppError::new("wallet balance too low"));
        }
    }
    let fee = gas_price * gas;
    if value > u128::MAX - fee {
        return Err(AppError::new("wallet balance too low"));
    }
    let total = fee + value;
    if balance < total {
        return Err(AppError::new("wallet balance too low"));
    }
    Ok(())
}


/// Maps one confirmation poll's classification to the waiting loop's
/// verdict.  A pending transaction yields `Ok(false)` and another poll;
/// a landed success yields `Ok(true)`; a landed failure or a dropped
/// transaction surfaces as the error the caller reports.
pub fn confirm_outcome_result(r: ConfirmOutcome) -> (res: Result<bool, AppError>)
    ensures
        r is StillPending ==> res == Ok::<bool, AppError>(false),
        r is LandedSuccess ==> res == Ok::<bool, AppError>(true),
        r matches ConfirmOutcome::LandedFailed(e) ==> (res matches Err(err) && err.err_msg == e),
        r is Dropped ==> (res matches Err(err) && err.err_msg@
            == "transaction not confirmed after 120 seconds"@),
{
    match r {
        ConfirmOutcome::StillPending => Ok(false),
        ConfirmOutcome::LandedSuccess => Ok(true),
        ConfirmOutcome::LandedFailed(e) => Err(AppError { err_msg: e }),
        ConfirmOutcome::Dropped => Err(
            AppError::new("transaction not confirmed after 120 seconds"),
        ),
    }
}

/// The verdict on a landed swap receipt: an unsuccessful status fails the
/// cycle, naming the transaction.
pub fn check_swap_receipt(status_ok: bool, tx_hash: &String) -> (r: Result<(), AppError>)
    ensures
        status_ok <==> r is Ok,
        !status_ok ==> (r matches Err(e) && e.err_msg@ == "swap transaction failed .... tx_id: "@
            + tx_hash@),
{
    if status_ok {
        Ok(())
    } else {
        let msg = "swap transaction failed .... tx_id: ".to_string().concat(tx_hash.as_str());
        Err(AppError { err_msg: msg })
    }
}

/// The verdict on a landed approval receipt: an unsuccessful status
/// aborts the sell before any swap is requested.
pub fn check_approve_receipt(status_ok: bool) -> (r: Result<(), AppError>)
    ensures
        status_ok <==> r is Ok,
        !status_ok ==> (r matches Err(e) && e.err_msg@ == "adjust allowance failed ...."@),
{
    if status_ok {
        Ok(())
    } else {
        Err(AppError::new("adjust allowance failed ...."))
    }
}

} // verus!
