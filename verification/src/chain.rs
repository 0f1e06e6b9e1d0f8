use vstd::prelude::*;

verus! {

/// The chain families a task can run on.  `Solana` trades through
/// instruction-based transactions; `Base` and `Bsc` are account-based
/// EVM chains that trade through signed transaction payloads.
#[derive(Debug, Clone, Copy, PartialEq, Eq, Structural)]
pub enum Chain {
    Solana,
    Base,
    Bsc,
}

impl Default for Chain {
    fn default() -> (r: Self)
        ensures
            r == Chain::Solana,
    {
        Chain::Solana
    }
}

impl Chain {
    /// True for the account-based EVM family, false for Solana.
    pub open spec fn spec_is_evm(&self) -> bool {
        *self != Chain::Solana
    }

    #[verifier::when_used_as_spec(spec_is_evm)]
    pub fn is_evm(&self) -> (r: bool)
        ensures
            r == self.spec_is_evm(),
    {
        match self {
            Chain::Solana => false,
            Chain::Base => true,
            Chain::Bsc => true,
        }
    }

    /// The fixed parameters of an EVM chain: its numeric chain id, the
    /// token-hub and router contract addresses, the wrapped-native token
    /// address and the native asset's ticker symbol.  Solana has none.
    pub fn evm_chain_config(&self) -> (r: Option<EvmChainConfig>)
        ensures
            *self == Chain::Solana ==> r is None,
            *self == Chain::Base ==> (r matches Some(c) && c.chain_id == 8453
                && c.moo_hub_addr@ == crate::consts::BASE_MOO_TOKEN_HUB_ADDR@
                && c.native_symbol@ == "ETH"@
                && c.wrapped_native_addr@ == crate::consts::BASE_WETH_ADDR@
                && c.one_inch_router_addr@ == crate::consts::BASE_ONE_INCH_V6_ROUTER_ADDR@),
            *self == Chain::Bsc ==> (r matches Some(c) && c.chain_id == 56
                && c.moo_hub_addr@ == crate::consts::BSC_MOO_TOKEN_HUB_ADDR@
                && c.native_symbol@ == "BNB"@
                && c.wrapped_native_addr@ == crate::consts::BSC_WBNB_ADDR@
                && c.one_inch_router_addr@ == crate::consts::BSC_ONE_INCH_V6_ROUTER_ADDR@),
    {
        match self {
            Chain::Solana => None,
            Chain::Base => Some(EvmChainConfig {
                chain_id: 8453,
                moo_hub_addr: crate::consts::BASE_MOO_TOKEN_HUB_ADDR.to_string(),
                native_symbol: "ETH".to_string(),
                wrapped_native_addr: crate::consts::BASE_WETH_ADDR.to_string(),
                one_inch_router_addr: crate::consts::BASE_ONE_INCH_V6_ROUTER_ADDR.to_string(),
            }),
            Chain::Bsc => Some(EvmChainConfig {
                chain_id: 56,
                moo_hub_addr: crate::consts::BSC_MOO_TOKEN_HUB_ADDR.to_string(),
                native_symbol: "BNB".to_string(),
                wrapped_native_addr: crate::consts::BSC_WBNB_ADDR.to_string(),
                one_inch_router_addr: crate::consts::BSC_ONE_INCH_V6_ROUTER_ADDR.to_string(),
            }),
        }
    }
}

/// Per-chain parameters of the EVM family, with contract addresses kept as
/// 0x-prefixed hex strings; callers that need the binary form parse them.
#[derive(Debug)]
pub struct EvmChainConfig {
    pub chain_id: u64,
    pub moo_hub_addr: String,
    pub native_symbol: String,
    pub wrapped_native_addr: String,
    pub one_inch_router_addr: String,
}

} // verus!
