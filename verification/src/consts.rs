use vstd::prelude::*;

verus! {

/// Base fee of one Solana transaction, in lamports.
pub const SOL_TX_BASE_FEE: u64 = 5_000;

/// Mint address of wrapped SOL, the native side of every Solana swap.
pub const WSOL_MINT: &'static str = "So11111111111111111111111111111111111111112";

pub const BASE_MOO_TOKEN_HUB_ADDR: &'static str = "0x2592342f0c6c54ac61876d30358d4c944bb4ce54";

pub const BASE_WETH_ADDR: &'static str = "0x4200000000000000000000000000000000000006";

pub const BASE_ONE_INCH_V6_ROUTER_ADDR: &'static str =
    "0x111111125421cA6dc452d289314280a0f8842A65";

pub const BSC_MOO_TOKEN_HUB_ADDR: &'static str = "0x26cf96267bd73E98aF0e360c3B6157573f40001D";

pub const BSC_WBNB_ADDR: &'static str = "0xbb4CdB9CBd36B01bD1cBaEBF2De08d9173bc095c";

pub const BSC_ONE_INCH_V6_ROUTER_ADDR: &'static str =
    "0x111111125421cA6dc452d289314280a0f8842A65";

/// Placeholder address the aggregator uses for the native asset of an
/// EVM chain.
pub const ONE_INCH_NATIVE_COIN_ADDR: &'static str =
    "0xeeeeeeeeeeeeeeeeeeeeeeeeeeeeeeeeeeeeeeee";

/// How long a submitted Solana transaction is polled before it is
/// declared dropped, in seconds; matches the network's transaction
/// validity window.
pub const SOL_CONFIRM_TIMEOUT_SECS: u64 = 120;

/// Pause between two confirmation polls, in seconds.
pub const SOL_CONFIRM_POLL_SECS: u64 = 2;

} // verus!
