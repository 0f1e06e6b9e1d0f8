use vstd::prelude::*;

use crate::chain::Chain;
use crate::utils::{trimmed_zero, TrimZeroChar};

verus! {

/// Identity of the token a task trades: where it lives, how it is named
/// and how many decimals its amounts carry.
#[derive(Debug)]
pub struct TokenInfo {
    pub chain: Chain,
    pub addr: String,
    pub name: String,
    pub symbol: String,
    pub decimals: u8,
}

impl Clone for TokenInfo {
    fn clone(&self) -> (res: Self)
        ensures
            res == *self,
    {
        TokenInfo {
            chain: self.chain,
            addr: self.addr.clone(),
            name: self.name.clone(),
            symbol: self.symbol.clone(),
            decimals: self.decimals,
        }
    }
}

impl TokenInfo {
    /// Builds the token identity from what the chain returned for a Solana
    /// mint: the raw metadata text is NUL-trimmed, and a mint without a
    /// metadata account is named "Unknown".
    pub fn from_sol_parts(mint_str: &str, metadata: Option<(String, String)>, decimals: u8) -> (r:
        TokenInfo)
        ensures
            r.chain == Chain::Solana,
            r.addr@ == mint_str@,
            r.decimals == decimals,
            match metadata {
                Some(m) => r.name@ == trimmed_zero(m.0@) && r.symbol@ == trimmed_zero(m.1@),
                None => r.name@ == "Unknown"@ && r.symbol@ == "Unknown"@,
            },
    {
        let (name, symbol) = match metadata {
            Some((raw_name, raw_symbol)) => (raw_name.trim_zero_char(), raw_symbol.trim_zero_char()),
            None => ("Unknown".to_string(), "Unknown".to_string()),
        };
        TokenInfo { chain: Chain::Solana, addr: mint_str.to_string(), name, symbol, decimals }
    }

    /// Builds the token identity from what an EVM token contract returned.
    pub fn from_evm_parts(chain: Chain, addr: &str, name: String, symbol: String, decimals: u8) -> (r:
        TokenInfo)
        ensures
            r.chain == chain,
            r.addr@ == addr@,
            r.name == name,
            r.symbol == symbol,
            r.decimals == decimals,
    {
        TokenInfo { chain, addr: addr.to_string(), name, symbol, decimals }
    }
}

} // verus!
