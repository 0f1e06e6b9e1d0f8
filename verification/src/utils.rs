use vstd::prelude::*;

use crate::chain::Chain;
use crate::error::AppError;
use crate::wallet::PrivateKey;
use solana_signer::Signer;
use std::str::FromStr;

verus! {

/// The keypair bytes (secret half followed by the matching public half)
/// that a base58-encoded Solana secret key decodes to, or `None` when the
/// string is not a valid encoding of one.
pub uninterp spec fn sol_keypair_bytes_of(s: Seq<char>) -> Option<Seq<u8>>;

/// The base58 account address derived from Solana keypair bytes, or `None`
/// when the bytes are not a valid keypair.
pub uninterp spec fn sol_addr_of(pk: Seq<u8>) -> Option<Seq<char>>;

/// The base58 re-encoding of Solana keypair bytes, or `None` when the bytes
/// are not a valid keypair.
pub uninterp spec fn sol_pk_string_of(pk: Seq<u8>) -> Option<Seq<char>>;

/// The 0x-prefixed hex account address derived from an EVM secret key, or
/// `None` when the bytes are not a valid secp256k1 secret key.
pub uninterp spec fn evm_addr_of(pk: Seq<u8>) -> Option<Seq<char>>;

/// The 0x-prefixed hex re-encoding of an EVM secret key, or `None` when the
/// bytes are not a valid secp256k1 secret key.
pub uninterp spec fn evm_pk_string_of(pk: Seq<u8>) -> Option<Seq<char>>;

/// The raw bytes a base58 string decodes to, or `None` when it is not
/// valid base58.
pub uninterp spec fn bs58_bytes_of(s: Seq<char>) -> Option<Seq<u8>>;

/// The secret-key bytes an EVM private-key string parses to, or `None`
/// when it does not parse.
pub uninterp spec fn evm_pk_bytes_of(s: Seq<char>) -> Option<Seq<u8>>;

/// Relies on bs58's `decode` and solana-keypair's `Keypair::try_from`:
/// decodes a base58 secret key and validates that the public half matches
/// the secret half; both steps depend on the string alone.
#[verifier::external_body]
pub fn parse_sol_bs58_pk(pk_str: &str) -> (r: Result<PrivateKey, AppError>)
    ensures
        r is Ok <==> sol_keypair_bytes_of(pk_str@) is Some,
        r matches Ok(v) ==> sol_keypair_bytes_of(pk_str@) == Some(v@) && v@.len() == 64,
{
    let bytes = match bs58::decode(pk_str).into_vec() {
        Ok(b) => b,
        Err(e) => return Err(AppError { err_msg: format!("{e}") }),
    };
    match solana_keypair::Keypair::try_from(&bytes[..]) {
        Ok(kp) => Ok(kp.to_bytes().to_vec()),
        Err(e) => Err(AppError { err_msg: format!("{e}") }),
    }
}

/// Relies on solana-keypair's `Keypair::try_from` and `Signer::pubkey`:
/// the base58 address printed from the keypair's public half, a function
/// of the bytes alone.
#[verifier::external_body]
fn sol_pk_to_addr(pk: &PrivateKey) -> (r: Result<String, AppError>)
    ensures
        r is Ok <==> sol_addr_of(pk@) is Some,
        r matches Ok(s) ==> sol_addr_of(pk@) == Some(s@),
{
    match solana_keypair::Keypair::try_from(&pk[..]) {
        Ok(kp) => Ok(kp.pubkey().to_string()),
        Err(e) => Err(AppError { err_msg: format!("{e}") }),
    }
}

/// Relies on solana-keypair's `Keypair::try_from` and `to_base58_string`:
/// the base58 form of the whole keypair, a function of the bytes alone.
#[verifier::external_body]
fn sol_pk_to_string(pk: &PrivateKey) -> (r: Result<String, AppError>)
    ensures
        r is Ok <==> sol_pk_string_of(pk@) is Some,
        r matches Ok(s) ==> sol_pk_string_of(pk@) == Some(s@),
{
    match solana_keypair::Keypair::try_from(&pk[..]) {
        Ok(kp) => Ok(kp.to_base58_string()),
        Err(e) => Err(AppError { err_msg: format!("{e}") }),
    }
}

/// Relies on alloy's `PrivateKeySigner::from_slice` and `hex::encode_prefixed`:
/// the 0x-prefixed hex account address, a function of the bytes alone.
#[verifier::external_body]
fn evm_pk_to_addr(pk: &PrivateKey) -> (r: Result<String, AppError>)
    ensures
        r is Ok <==> evm_addr_of(pk@) is Some,
        r matches Ok(s) ==> evm_addr_of(pk@) == Some(s@),
{
    match alloy::signers::local::PrivateKeySigner::from_slice(&pk[..]) {
        Ok(k) => Ok(alloy::hex::encode_prefixed(k.address())),
        Err(e) => Err(AppError { err_msg: format!("{e}") }),
    }
}

/// Relies on alloy's `PrivateKeySigner::from_slice` and `hex::encode_prefixed`:
/// the 0x-prefixed hex form of the secret key, a function of the bytes alone.
#[verifier::external_body]
fn evm_pk_to_string(pk: &PrivateKey) -> (r: Result<String, AppError>)
    ensures
        r is Ok <==> evm_pk_string_of(pk@) is Some,
        r matches Ok(s) ==> evm_pk_string_of(pk@) == Some(s@),
{
    match alloy::signers::local::PrivateKeySigner::from_slice(&pk[..]) {
        Ok(k) => Ok(alloy::hex::encode_prefixed(k.to_bytes())),
        Err(e) => Err(AppError { err_msg: format!("{e}") }),
    }
}

/// Relies on solana-keypair's `Keypair::new` and `to_bytes`: a fresh
/// random keypair.  Only the serialized length and validity are promised:
/// `to_bytes` writes the secret half and the public half it derives, so
/// re-validating and printing these bytes always succeeds.
#[verifier::external_body]
fn sol_create_pk() -> (r: PrivateKey)
    ensures
        r@.len() == 64,
        sol_addr_of(r@) is Some,
        sol_pk_string_of(r@) is Some,
{
    solana_keypair::Keypair::new().to_bytes().to_vec()
}

/// Relies on alloy's `PrivateKeySigner::random` and `to_bytes`: a fresh
/// random secret key.  Only the serialized length and validity are
/// promised: `to_bytes` writes the signer's own scalar, so parsing and
/// printing these bytes always succeeds.
#[verifier::external_body]
fn evm_create_pk() -> (r: PrivateKey)
    ensures
        r@.len() == 32,
        evm_addr_of(r@) is Some,
        evm_pk_string_of(r@) is Some,
{
    alloy::signers::local::PrivateKeySigner::random()
        .to_bytes()
        .to_vec()
}

/// Relies on bs58's `decode`: the raw bytes of a base58 string, a function
/// of the string alone.
#[verifier::external_body]
fn bs58_decode(s: &str) -> (r: Result<Vec<u8>, AppError>)
    ensures
        r is Ok <==> bs58_bytes_of(s@) is Some,
        r matches Ok(v) ==> bs58_bytes_of(s@) == Some(v@),
{
    match bs58::decode(s).into_vec() {
        Ok(b) => Ok(b),
        Err(e) => Err(AppError { err_msg: format!("{e}") }),
    }
}

/// Relies on alloy's `PrivateKeySigner::from_str` and `to_bytes`: the
/// 32 secret-key bytes an EVM private-key string parses to, a function of
/// the string alone.
#[verifier::external_body]
fn evm_parse_pk(s: &str) -> (r: Result<PrivateKey, AppError>)
    ensures
        r is Ok <==> evm_pk_bytes_of(s@) is Some,
        r matches Ok(v) ==> evm_pk_bytes_of(s@) == Some(v@) && v@.len() == 32,
{
    match alloy::signers::local::PrivateKeySigner::from_str(s) {
        Ok(k) => Ok(k.to_bytes().to_vec()),
        Err(e) => Err(AppError { err_msg: format!("{e}") }),
    }
}

/// Generates a fresh private key of the kind the chain uses.  A fresh
/// key always has printable address and key forms.
pub fn create_pk(chain: Chain) -> (r: PrivateKey)
    ensures
        chain == Chain::Solana ==> r@.len() == 64 && sol_addr_of(r@) is Some && sol_pk_string_of(
            r@,
        ) is Some,
        chain != Chain::Solana ==> r@.len() == 32 && evm_addr_of(r@) is Some && evm_pk_string_of(
            r@,
        ) is Some,
{
    match chain {
        Chain::Solana => sol_create_pk(),
        Chain::Base => evm_create_pk(),
        Chain::Bsc => evm_create_pk(),
    }
}

/// The public on-chain address a private key controls, printed in the
/// chain's canonical text form.
pub fn pk_to_addr(chain: Chain, pk: &PrivateKey) -> (r: Result<String, AppError>)
    ensures
        chain == Chain::Solana ==> match r {
            Ok(s) => sol_addr_of(pk@) == Some(s@),
            Err(_) => sol_addr_of(pk@) is None,
        },
        chain != Chain::Solana ==> match r {
            Ok(s) => evm_addr_of(pk@) == Some(s@),
            Err(_) => evm_addr_of(pk@) is None,
        },
{
    match chain {
        Chain::Solana => sol_pk_to_addr(pk),
        Chain::Base => evm_pk_to_addr(pk),
        Chain::Bsc => evm_pk_to_addr(pk),
    }
}

/// The private key itself, printed in the chain's canonical text form.
pub fn pk_to_string(chain: Chain, pk: &PrivateKey) -> (r: Result<String, AppError>)
    ensures
        chain == Chain::Solana ==> match r {
            Ok(s) => sol_pk_string_of(pk@) == Some(s@),
            Err(_) => sol_pk_string_of(pk@) is None,
        },
        chain != Chain::Solana ==> match r {
            Ok(s) => evm_pk_string_of(pk@) == Some(s@),
            Err(_) => evm_pk_string_of(pk@) is None,
        },
{
    match chain {
        Chain::Solana => sol_pk_to_string(pk),
        Chain::Base => evm_pk_to_string(pk),
        Chain::Bsc => evm_pk_to_string(pk),
    }
}

/// Parses the text form of a main-wallet private key: base58 bytes on
/// Solana, a 0x-prefixed hex secret key on the EVM chains.
pub fn parse_wallet_pk(chain: Chain, s: &str) -> (r: Result<PrivateKey, AppError>)
    ensures
        chain == Chain::Solana ==> match r {
            Ok(v) => bs58_bytes_of(s@) == Some(v@),
            Err(_) => bs58_bytes_of(s@) is None,
        },
        chain != Chain::Solana ==> match r {
            Ok(v) => evm_pk_bytes_of(s@) == Some(v@),
            Err(_) => evm_pk_bytes_of(s@) is None,
        },
{
    match chain {
        Chain::Solana => bs58_decode(s),
        Chain::Base => evm_parse_pk(s),
        Chain::Bsc => evm_parse_pk(s),
    }
}


/// How many chars a NUL-trim removes from the front.
pub open spec fn head_zeros(s: Seq<char>) -> int
    decreases s.len(),
{
    if s.len() == 0 {
        0
    } else if s[0] != '\0' {
        0
    } else {
        1 + head_zeros(s.skip(1))
    }
}

/// Index one past the last non-NUL char, 0 when there is none.
pub open spec fn tail_keep(s: Seq<char>) -> int
    decreases s.len(),
{
    if s.len() == 0 {
        0
    } else if s[s.len() - 1] != '\0' {
        s.len() as int
    } else {
        tail_keep(s.take(s.len() - 1))
    }
}

/// The string with every leading and trailing NUL char removed.
pub open spec fn trimmed_zero(s: Seq<char>) -> Seq<char> {
    if head_zeros(s) < tail_keep(s) {
        s.subrange(head_zeros(s), tail_keep(s))
    } else {
        Seq::empty()
    }
}

proof fn lemma_head_zeros_eq(s: Seq<char>, k: int)
    requires
        0 <= k <= s.len(),
        forall|i: int| 0 <= i < k ==> s[i] == '\0',
        k < s.len() ==> s[k] != '\0',
    ensures
        head_zeros(s) == k,
    decreases s.len(),
{
    if s.len() == 0 {
    } else if s[0] != '\0' {
        assert(k == 0);
    } else {
        assert(k > 0) by {
            if k == 0 {
                assert(s[0] != '\0');
            }
        }
        assert forall|i: int| 0 <= i < k - 1 implies s.skip(1)[i] == '\0' by {
            assert(s.skip(1)[i] == s[i + 1]);
        }
        assert(k - 1 < s.skip(1).len() ==> s.skip(1)[k - 1] != '\0') by {
            if k - 1 < s.skip(1).len() {
                assert(s.skip(1)[k - 1] == s[k]);
            }
        }
        lemma_head_zeros_eq(s.skip(1), k - 1);
    }
}

proof fn lemma_tail_keep_eq(s: Seq<char>, k: int)
    requires
        0 <= k <= s.len(),
        forall|i: int| k <= i < s.len() ==> s[i] == '\0',
        k > 0 ==> s[k - 1] != '\0',
    ensures
        tail_keep(s) == k,
    decreases s.len(),
{
    if s.len() == 0 {
    } else if s[s.len() - 1] != '\0' {
        assert(k == s.len());
    } else {
        assert(k < s.len());
        let t = s.take(s.len() - 1);
        assert forall|i: int| k <= i < t.len() implies t[i] == '\0' by {
            assert(t[i] == s[i]);
        }
        assert(k > 0 ==> t[k - 1] != '\0') by {
            if k > 0 {
                assert(t[k - 1] == s[k - 1]);
            }
        }
        lemma_tail_keep_eq(t, k);
    }
}

/// Removes the NUL padding that fixed-width on-chain metadata fields carry
/// around their text.
pub trait TrimZeroChar: View<V = Seq<char>> + Sized {
    fn trim_zero_char(&self) -> (r: Self)
        ensures
            r@ == trimmed_zero(self@),
    ;
}

impl TrimZeroChar for String {
    fn trim_zero_char(&self) -> (r: String) {
        let s = self.as_str();
        let n = s.unicode_len();
        let mut start: usize = 0;
        while start < n && s.get_char(start) == '\0'
            invariant
                n == s@.len(),
                start <= n,
                forall|i: int| 0 <= i < start ==> s@[i] == '\0',
            decreases n - start,
        {
            start += 1;
        }
        let mut end: usize = n;
        while end > start && s.get_char(end - 1) == '\0'
            invariant
                n == s@.len(),
                start <= end <= n,
                forall|i: int| end <= i < n ==> s@[i] == '\0',
            decreases end,
        {
            end -= 1;
        }
        proof {
            if start == n {
                lemma_head_zeros_eq(s@, start as int);
                lemma_tail_keep_eq(s@, 0);
            } else {
                lemma_head_zeros_eq(s@, start as int);
                lemma_tail_keep_eq(s@, end as int);
            }
        }
        let sub = s.substring_char(start, end);
        let r = sub.to_string();
        proof {
            if start == n {
                assert(r@ =~= trimmed_zero(self@));
            }
        }
        r
    }
}



/// The 64-byte ed25519 signature the keypair `pk` produces over `msg`,
/// or `None` when the bytes are not a valid keypair.
pub uninterp spec fn sol_sig_of(pk: Seq<u8>, msg: Seq<u8>) -> Option<Seq<u8>>;

/// Relies on solana-keypair's `Keypair::try_from` and `Signer::sign_message`:
/// ed25519 signing is deterministic, a function of the key and message
/// alone, and a signature serializes to 64 bytes.
#[verifier::external_body]
pub fn sol_sign(pk: &PrivateKey, msg: &Vec<u8>) -> (r: Result<Vec<u8>, AppError>)
    ensures
        r is Ok <==> sol_sig_of(pk@, msg@) is Some,
        r matches Ok(s) ==> sol_sig_of(pk@, msg@) == Some(s@) && s@.len() == 64,
{
    match solana_keypair::Keypair::try_from(&pk[..]) {
        Ok(kp) => Ok(kp.sign_message(msg).as_ref().to_vec()),
        Err(e) => Err(AppError { err_msg: format!("{e}") }),
    }
}

/// The single decimal digit `d` as text.
pub open spec fn dec_digit(d: nat) -> Seq<char> {
    if d == 0 {
        "0"@
    } else if d == 1 {
        "1"@
    } else if d == 2 {
        "2"@
    } else if d == 3 {
        "3"@
    } else if d == 4 {
        "4"@
    } else if d == 5 {
        "5"@
    } else if d == 6 {
        "6"@
    } else if d == 7 {
        "7"@
    } else if d == 8 {
        "8"@
    } else {
        "9"@
    }
}

/// The decimal digits of `n`, most significant first, no leading zeros.
pub open spec fn dec_str_of(n: nat) -> Seq<char>
    decreases n,
{
    if n < 10 {
        dec_digit(n)
    } else {
        dec_str_of(n / 10) + dec_digit(n % 10)
    }
}

fn digit_str(d: u128) -> (r: &'static str)
    requires
        d < 10,
    ensures
        r@ == dec_digit(d as nat),
{
    match d {
        0 => "0",
        1 => "1",
        2 => "2",
        3 => "3",
        4 => "4",
        5 => "5",
        6 => "6",
        7 => "7",
        8 => "8",
        _ => "9",
    }
}

/// Prints a number in decimal, for error messages that name amounts.
pub fn u128_to_dec_str(n: u128) -> (r: String)
    ensures
        r@ == dec_str_of(n as nat),
    decreases n,
{
    if n < 10 {
        digit_str(n).to_string()
    } else {
        proof {
            assert(n / 10 < n) by (nonlinear_arith)
                requires
                    n >= 10,
            ;
        }
        let prefix = u128_to_dec_str(n / 10);
        prefix.concat(digit_str(n % 10))
    }
}

} // verus!
