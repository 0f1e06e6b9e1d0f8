use vstd::prelude::*;

use crate::chain::Chain;
use crate::error::AppError;
use crate::pool::{clone_key, key_eq};
use crate::utils;

verus! {

/// The raw bytes of one wallet's private key, in the chain's serialized
/// keypair form.
pub type PrivateKey = Vec<u8>;

/// A named group of wallets on one chain; a task freezes its key pool from
/// such a group when it is created.  No key appears twice.
#[derive(Debug)]
pub struct WalletGrp {
    pub id: String,
    pub name: String,
    pub chain: Chain,
    pub pks: Vec<PrivateKey>,
}

/// No two keys of the sequence hold the same bytes.
pub open spec fn unique_pks(pks: Seq<PrivateKey>) -> bool {
    forall|i: int, j: int|
        0 <= i < pks.len() && 0 <= j < pks.len() && i != j ==> (#[trigger] pks[i])@ != (
        #[trigger] pks[j])@
}

impl WalletGrp {
    pub open spec fn wf(&self) -> bool {
        unique_pks(self.pks@)
    }

    /// Creates a group of `req.cnt` freshly generated keys.  Keys are
    /// deduplicated by value, so the group holds at most `req.cnt` of
    /// them; every key of the group can be printed for its chain.
    pub fn create_from_req(req: CreateWalletGrpReq, chain: Chain) -> (r: Self)
        ensures
            r.wf(),
            r.id == req.id,
            r.name == req.name,
            r.chain == chain,
            r.pks@.len() <= req.cnt,
            req.cnt >= 1 ==> r.pks@.len() >= 1,
            grp_printable(r),
            forall|i: int|
                0 <= i < r.pks@.len() ==> (#[trigger] r.pks@[i])@.len() == (
                if chain == Chain::Solana {
                    64int
                } else {
                    32int
                }),
    {
        let mut pks: Vec<PrivateKey> = Vec::new();
        let mut i: u32 = 0;
        while i < req.cnt
            invariant
                i <= req.cnt,
                pks@.len() <= i,
                i >= 1 ==> pks@.len() >= 1,
                unique_pks(pks@),
                forall|j: int| 0 <= j < pks@.len() ==> pk_pair_some(chain, (#[trigger] pks@[j])@),
                forall|j: int|
                    0 <= j < pks@.len() ==> (#[trigger] pks@[j])@.len() == (
                    if chain == Chain::Solana {
                        64int
                    } else {
                        32int
                    }),
            decreases req.cnt - i,
        {
            let pk = utils::create_pk(chain);
            if !contains_key(&pks, &pk) {
                pks.push(pk);
            }
            i += 1;
        }
        WalletGrp { id: req.id, name: req.name, chain, pks }
    }

    /// Creates a group from base58-encoded secret keys.  Fails exactly when
    /// one of the strings is not a valid encoded keypair; duplicates
    /// collapse to one entry.
    pub fn create_from_import_req(req: ImportWalletGrpReq, chain: Chain) -> (r: Result<
        Self,
        AppError,
    >)
        ensures
            r is Ok <==> (forall|i: int|
                0 <= i < req.pks@.len() ==> (#[trigger] utils::sol_keypair_bytes_of(
                    req.pks@[i]@,
                )) is Some),
            r matches Ok(g) ==> {
                &&& g.wf()
                &&& g.id == req.id
                &&& g.name == req.name
                &&& g.chain == chain
                &&& key_bytes_set(g.pks@) == decoded_keys(req.pks@, req.pks@.len() as int)
            },
    {
        let ks = match import_keys(&req.pks) {
            Ok(k) => k,
            Err(e) => {
                return Err(e);
            }
        };
        let ghost kv = ks@;
        let g = WalletGrp { id: req.id, name: req.name, chain, pks: ks };
        proof {
            assert(g.pks@ == kv);
        }
        Ok(g)
    }
}

/// The keys that the first `upto` strings decode to.
pub open spec fn decoded_keys(strs: Seq<String>, upto: int) -> Set<Seq<u8>> {
    Set::new(
        |b: Seq<u8>|
            exists|i: int|
                0 <= i < upto && utils::sol_keypair_bytes_of(#[trigger] strs[i]@) == Some(b),
    )
}

/// The set of byte strings a key list holds.
pub open spec fn key_bytes_set(ks: Seq<PrivateKey>) -> Set<Seq<u8>> {
    Set::new(|b: Seq<u8>| exists|j: int| 0 <= j < ks.len() && (#[trigger] ks[j])@ == b)
}

proof fn lemma_decoded_step(strs: Seq<String>, i: int, b: Seq<u8>)
    requires
        0 <= i < strs.len(),
        utils::sol_keypair_bytes_of(strs[i]@) == Some(b),
    ensures
        decoded_keys(strs, i + 1) == decoded_keys(strs, i).insert(b),
{
    assert forall|x: Seq<u8>| #![auto] decoded_keys(strs, i + 1).contains(x) implies decoded_keys(
        strs,
        i,
    ).insert(b).contains(x) by {
        let m = choose|m: int|
            0 <= m < i + 1 && utils::sol_keypair_bytes_of(#[trigger] strs[m]@) == Some(x);
        if m < i {
            assert(decoded_keys(strs, i).contains(x));
        } else {
            assert(x == b);
        }
    }
    assert forall|x: Seq<u8>| #![auto] decoded_keys(strs, i).insert(b).contains(x) implies decoded_keys(
        strs,
        i + 1,
    ).contains(x) by {
        if x == b {
            assert(utils::sol_keypair_bytes_of(strs[i]@) == Some(x));
        } else {
            let m = choose|m: int|
                0 <= m < i && utils::sol_keypair_bytes_of(#[trigger] strs[m]@) == Some(x);
            assert(utils::sol_keypair_bytes_of(strs[m]@) == Some(x));
        }
    }
    assert(decoded_keys(strs, i + 1) =~= decoded_keys(strs, i).insert(b));
}

proof fn lemma_key_set_push(prev: Seq<PrivateKey>, cur: Seq<PrivateKey>, b: Seq<u8>)
    requires
        cur.len() == prev.len() + 1,
        forall|j: int| 0 <= j < prev.len() ==> #[trigger] cur[j] == prev[j],
        cur[prev.len() as int]@ == b,
    ensures
        key_bytes_set(cur) == key_bytes_set(prev).insert(b),
{
    assert forall|x: Seq<u8>| #![auto] key_bytes_set(cur).contains(x) implies key_bytes_set(
        prev,
    ).insert(b).contains(x) by {
        let j = choose|j: int| 0 <= j < cur.len() && (#[trigger] cur[j])@ == x;
        if j < prev.len() {
            assert(prev[j]@ == x);
            assert(key_bytes_set(prev).contains(x));
        } else {
            assert(x == b);
        }
    }
    assert forall|x: Seq<u8>| #![auto] key_bytes_set(prev).insert(b).contains(x) implies key_bytes_set(
        cur,
    ).contains(x) by {
        if x == b {
            assert((cur[prev.len() as int])@ == x);
        } else {
            let j = choose|j: int| 0 <= j < prev.len() && (#[trigger] prev[j])@ == x;
            assert((cur[j])@ == x);
        }
    }
    assert(key_bytes_set(cur) =~= key_bytes_set(prev).insert(b));
}

/// Parses each base58 secret-key string and collects the distinct keypair
/// byte strings, in first-appearance order.  Fails exactly when a string
/// does not parse.
fn import_keys(strs: &Vec<String>) -> (r: Result<Vec<PrivateKey>, AppError>)
    ensures
        r is Ok <==> (forall|i: int|
            0 <= i < strs@.len() ==> (#[trigger] utils::sol_keypair_bytes_of(strs@[i]@)) is Some),
        r matches Ok(ks) ==> unique_pks(ks@) && key_bytes_set(ks@) == decoded_keys(
            strs@,
            strs@.len() as int,
        ),
{
    let mut pks: Vec<PrivateKey> = Vec::new();
    let n = strs.len();
    let mut i: usize = 0;
    while i < n
        invariant
            n == strs@.len(),
            i <= n,
            unique_pks(pks@),
            key_bytes_set(pks@) == decoded_keys(strs@, i as int),
            forall|m: int|
                0 <= m < i ==> (#[trigger] utils::sol_keypair_bytes_of(strs@[m]@)) is Some,
        decreases n - i,
    {
        let bytes = match utils::parse_sol_bs58_pk(strs[i].as_str()) {
            Ok(b) => b,
            Err(e) => {
                return Err(e);
            }
        };
        let ghost prev = pks@;
        if !contains_key(&pks, &bytes) {
            pks.push(bytes);
            proof {
                assert(pks@[prev.len() as int]@ == bytes@);
                lemma_key_set_push(prev, pks@, bytes@);
                lemma_decoded_step(strs@, i as int, bytes@);
            }
        } else {
            proof {
                let j0 = choose|j: int| 0 <= j < pks@.len() && (#[trigger] pks@[j])@ == bytes@;
                assert(key_bytes_set(pks@).contains(bytes@));
                lemma_decoded_step(strs@, i as int, bytes@);
                assert(decoded_keys(strs@, i as int).insert(bytes@) =~= decoded_keys(
                    strs@,
                    i as int,
                ));
            }
        }
        i += 1;
    }
    Ok(pks)
}

/// Whether the list already holds a key with exactly these bytes.
pub fn contains_key(v: &Vec<PrivateKey>, k: &PrivateKey) -> (r: bool)
    ensures
        r == exists|i: int| 0 <= i < v@.len() && (#[trigger] v@[i])@ == k@,
{
    let n = v.len();
    let mut i: usize = 0;
    while i < n
        invariant
            n == v@.len(),
            i <= n,
            forall|j: int| 0 <= j < i ==> (#[trigger] v@[j])@ != k@,
        decreases n - i,
    {
        if key_eq(&v[i], k) {
            return true;
        }
        i += 1;
    }
    false
}

#[derive(Debug)]
pub struct CreateWalletGrpReq {
    pub id: String,
    pub name: String,
    pub cnt: u32,
}

#[derive(Debug)]
pub struct ImportWalletGrpReq {
    pub id: String,
    pub name: String,
    pub pks: Vec<String>,
}

#[derive(Debug)]
pub struct ExportWalletGrpReq {
    /// Each entry is one wallet as `(address, private key)` text.
    pub pks: Vec<(String, String)>,
    pub path: String,
}

#[derive(Debug)]
pub struct WalletGrpWithdrawReq {
    pub chain: Chain,
    pub from_pk: String,
    pub addr: String,
}

/// What one row of a wallet-group listing must hold: the address and the
/// printable private key that this chain derives from the key bytes.
pub open spec fn pk_addr_pair_ok(chain: Chain, pk: Seq<u8>, pair: (Seq<char>, Seq<char>)) -> bool {
    if chain == Chain::Solana {
        utils::sol_addr_of(pk) == Some(pair.0) && utils::sol_pk_string_of(pk) == Some(pair.1)
    } else {
        utils::evm_addr_of(pk) == Some(pair.0) && utils::evm_pk_string_of(pk) == Some(pair.1)
    }
}

/// Whether both printable forms exist for the key bytes on this chain.
pub open spec fn pk_pair_some(chain: Chain, pk: Seq<u8>) -> bool {
    if chain == Chain::Solana {
        utils::sol_addr_of(pk) is Some && utils::sol_pk_string_of(pk) is Some
    } else {
        utils::evm_addr_of(pk) is Some && utils::evm_pk_string_of(pk) is Some
    }
}

/// Every key of the group can be printed for the group's chain.
pub open spec fn grp_printable(g: WalletGrp) -> bool {
    forall|i: int| 0 <= i < g.pks@.len() ==> pk_pair_some(g.chain, (#[trigger] g.pks@[i])@)
}

/// The listing prints the group faithfully: same identity, one row per
/// key, each row holding the address and printable key the chain derives
/// from that key's bytes.
pub open spec fn grp_resp_matches(resp: WalletGrpResp, g: WalletGrp) -> bool {
    &&& resp.id == g.id
    &&& resp.name == g.name
    &&& resp.chain == g.chain
    &&& resp.addresses@.len() == g.pks@.len()
    &&& forall|k: int|
        0 <= k < g.pks@.len() ==> pk_addr_pair_ok(
            g.chain,
            g.pks@[k]@,
            ((#[trigger] resp.addresses@[k]).0@, resp.addresses@[k].1@),
        )
}

/// A wallet group as shown to callers: key bytes replaced by their
/// printable address and private-key forms.
#[derive(Debug)]
pub struct WalletGrpResp {
    pub id: String,
    pub name: String,
    pub chain: Chain,
    pub addresses: Vec<(String, String)>,
}

impl WalletGrpResp {
    /// Prints every key of the group.  Fails exactly when some key's bytes
    /// are not a valid key for the group's chain.
    pub fn from_grp(value: &WalletGrp) -> (r: Result<WalletGrpResp, AppError>)
        ensures
            r is Ok <==> grp_printable(*value),
            r matches Ok(resp) ==> grp_resp_matches(resp, *value),
    {
        let mut addresses: Vec<(String, String)> = Vec::new();
        let n = value.pks.len();
        let mut i: usize = 0;
        while i < n
            invariant
                n == value.pks@.len(),
                i <= n,
                addresses@.len() == i,
                forall|j: int|
                    0 <= j < i ==> pk_addr_pair_ok(
                        value.chain,
                        value.pks@[j]@,
                        ((#[trigger] addresses@[j]).0@, addresses@[j].1@),
                    ),
                forall|j: int| 0 <= j < i ==> pk_pair_some(value.chain, (#[trigger] value.pks@[j])@),
            decreases n - i,
        {
            let addr = match utils::pk_to_addr(value.chain, &value.pks[i]) {
                Ok(a) => a,
                Err(e) => {
                    proof {
                        assert(!pk_pair_some(value.chain, value.pks@[i as int]@));
                    }
                    return Err(e);
                }
            };
            let pk_str = match utils::pk_to_string(value.chain, &value.pks[i]) {
                Ok(s) => s,
                Err(e) => {
                    proof {
                        assert(!pk_pair_some(value.chain, value.pks@[i as int]@));
                    }
                    return Err(e);
                }
            };
            addresses.push((addr, pk_str));
            i += 1;
        }
        let ghost av = addresses@;
        let resp = WalletGrpResp {
            id: clone_string(&value.id),
            name: clone_string(&value.name),
            chain: value.chain,
            addresses,
        };
        proof {
            assert(resp.addresses@ == av);
            assert forall|k: int| 0 <= k < value.pks@.len() implies pk_addr_pair_ok(
                value.chain,
                value.pks@[k]@,
                ((#[trigger] resp.addresses@[k]).0@, resp.addresses@[k].1@),
            ) by {
                assert(resp.addresses@[k] == av[k]);
            }
            assert(grp_resp_matches(resp, *value));
        }
        Ok(resp)
    }
}

/// Clones a string; the copy holds the same text.
pub fn clone_string(s: &String) -> (r: String)
    ensures
        r == *s,
{
    s.clone()
}

/// The file contents an export writes: one `addr, pk` line per wallet,
/// lines joined by a newline.
pub open spec fn export_content_of(rows: Seq<(Seq<char>, Seq<char>)>) -> Seq<char>
    decreases rows.len(),
{
    if rows.len() == 0 {
        Seq::empty()
    } else if rows.len() == 1 {
        rows[0].0 + ", "@ + rows[0].1
    } else {
        export_content_of(rows.drop_last()) + "\n"@ + rows.last().0 + ", "@ + rows.last().1
    }
}

/// Builds the text an exported wallet group is written as.
pub fn export_file_content(pks: &Vec<(String, String)>) -> (r: String)
    ensures
        r@ == export_content_of(pks@.map(|i: int, p: (String, String)| (p.0@, p.1@))),
{
    let ghost rows = pks@.map(|i: int, p: (String, String)| (p.0@, p.1@));
    let mut out = String::new();
    let n = pks.len();
    let mut i: usize = 0;
    while i < n
        invariant
            n == pks@.len(),
            i <= n,
            rows == pks@.map(|i: int, p: (String, String)| (p.0@, p.1@)),
            out@ == export_content_of(rows.take(i as int)),
        decreases n - i,
    {
        if i > 0 {
            out.append("\n");
        }
        out.append(pks[i].0.as_str());
        out.append(", ");
        out.append(pks[i].1.as_str());
        proof {
            assert(rows.take(i + 1).drop_last() =~= rows.take(i as int));
            assert(rows.take(i + 1).last() == rows[i as int]);
            assert(rows[i as int] == (pks@[i as int].0@, pks@[i as int].1@));
            if i == 0 {
                assert(out@ =~= export_content_of(rows.take(1)));
            } else {
                assert(out@ =~= export_content_of(rows.take(i + 1)));
            }
        }
        i += 1;
    }
    proof {
        assert(rows.take(n as int) =~= rows);
    }
    out
}

} // verus!
