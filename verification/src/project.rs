use vstd::prelude::*;

use crate::chain::Chain;
use crate::error::AppError;
use crate::utils;
use crate::wallet::{PrivateKey, WalletGrp, WalletGrpResp};

verus! {

/// Jito block-engine endpoint that projects restored from the first file
/// version are given on Solana.
pub const DEFAULT_JITO_URL: &'static str = "https://tokyo.mainnet.block-engine.jito.wtf";

/// A project file's contents in its first version, before the jito
/// endpoint was added.
#[derive(Debug)]
pub struct ProjectV1 {
    pub id: String,
    pub name: String,
    pub chain: Chain,
    pub main_wallet: PrivateKey,
    pub rpc: String,
    pub agg_api_url: String,
    pub agg_api_key: Option<String>,
    pub proxy_urls: Vec<String>,
    pub wallet_grps: Vec<WalletGrp>,
}

/// Everything one trading project holds: endpoints, the main wallet's key,
/// the proxy list and the wallet groups tasks are created from.
#[derive(Debug)]
pub struct Project {
    pub id: String,
    pub name: String,
    pub chain: Chain,
    pub main_wallet: PrivateKey,
    pub rpc: String,
    pub jito_url: Option<String>,
    pub agg_api_url: String,
    pub agg_api_key: Option<String>,
    pub proxy_urls: Vec<String>,
    pub wallet_grps: Vec<WalletGrp>,
}

impl Project {
    /// Every wallet group is free of duplicate keys.
    pub open spec fn wf(&self) -> bool {
        forall|i: int| 0 <= i < self.wallet_grps@.len() ==> (#[trigger] self.wallet_grps@[i]).wf()
    }

    /// Upgrades a first-version project: same fields, with the default
    /// jito endpoint filled in on Solana and none elsewhere.
    pub fn from_v1(value: ProjectV1) -> (r: Project)
        ensures
            r.id == value.id,
            r.name == value.name,
            r.chain == value.chain,
            r.main_wallet == value.main_wallet,
            r.rpc == value.rpc,
            value.chain == Chain::Solana ==> (r.jito_url matches Some(u) && u@ == DEFAULT_JITO_URL@),
            value.chain != Chain::Solana ==> r.jito_url is None,
            r.agg_api_url == value.agg_api_url,
            r.agg_api_key == value.agg_api_key,
            r.proxy_urls == value.proxy_urls,
            r.wallet_grps == value.wallet_grps,
    {
        let jito_url = match value.chain {
            Chain::Solana => Some(DEFAULT_JITO_URL.to_string()),
            _ => None,
        };
        Project {
            id: value.id,
            name: value.name,
            chain: value.chain,
            main_wallet: value.main_wallet,
            rpc: value.rpc,
            jito_url,
            agg_api_url: value.agg_api_url,
            agg_api_key: value.agg_api_key,
            proxy_urls: value.proxy_urls,
            wallet_grps: value.wallet_grps,
        }
    }

    /// A fresh project from a creation request, with a newly generated
    /// main wallet of the kind the chain uses and no wallet groups yet.
    pub fn create_from_req(value: CreateProjectReq) -> (r: Project)
        ensures
            r.id == value.id,
            r.name == value.name,
            r.chain == value.chain,
            r.rpc == value.rpc,
            r.jito_url == value.jito_url,
            r.agg_api_url == value.agg_api_url,
            r.agg_api_key == value.agg_api_key,
            r.proxy_urls == value.proxy_urls,
            r.wallet_grps@.len() == 0,
            value.chain == Chain::Solana ==> r.main_wallet@.len() == 64,
            value.chain != Chain::Solana ==> r.main_wallet@.len() == 32,
    {
        let main_wallet = utils::create_pk(value.chain);
        Project {
            id: value.id,
            name: value.name,
            chain: value.chain,
            main_wallet,
            rpc: value.rpc,
            jito_url: value.jito_url,
            agg_api_url: value.agg_api_url,
            agg_api_key: value.agg_api_key,
            proxy_urls: value.proxy_urls,
            wallet_grps: Vec::new(),
        }
    }

    /// Replaces the editable settings of an open project: main wallet key,
    /// endpoints and proxy list.  Everything else is kept.
    pub fn apply_update(&mut self, req: UpdateProjectReq, main_wallet: PrivateKey)
        ensures
            final(self).id == old(self).id,
            final(self).name == old(self).name,
            final(self).chain == old(self).chain,
            final(self).wallet_grps == old(self).wallet_grps,
            final(self).main_wallet == main_wallet,
            final(self).rpc == req.rpc_url,
            final(self).jito_url == req.jito_url,
            final(self).agg_api_url == req.agg_api_url,
            final(self).proxy_urls == req.proxy_urls,
            final(self).agg_api_key == old(self).agg_api_key,
    {
        self.main_wallet = main_wallet;
        self.rpc = req.rpc_url;
        self.jito_url = req.jito_url;
        self.agg_api_url = req.agg_api_url;
        self.proxy_urls = req.proxy_urls;
    }
}

#[derive(Debug)]
pub struct CreateProjectReq {
    pub id: String,
    pub name: String,
    pub chain: Chain,
    pub rpc: String,
    pub jito_url: Option<String>,
    pub agg_api_url: String,
    pub agg_api_key: Option<String>,
    pub proxy_urls: Vec<String>,
    pub save_path: String,
}

#[derive(Debug)]
pub struct UpdateProjectReq {
    pub main_wallet_pk: String,
    pub proxy_urls: Vec<String>,
    pub rpc_url: String,
    pub jito_url: Option<String>,
    pub agg_api_url: String,
}

/// An open project together with the path its file is saved at.
#[derive(Debug)]
pub struct ProjectStateValue {
    pub path: String,
    pub project: Project,
}

/// What a creation or update request must satisfy before a project is
/// written: a non-empty proxy list and two well-formed endpoint URLs.
/// The URL checks themselves are made by the caller; their verdicts are
/// passed in.
pub fn validate_project_settings(proxy_count: usize, rpc_url_ok: bool, agg_api_url_ok: bool) -> (r:
    Result<(), AppError>)
    ensures
        proxy_count == 0 ==> (r matches Err(e) && e.err_msg@ == "proxy list must not empty"@),
        proxy_count != 0 && !rpc_url_ok ==> (r matches Err(e) && e.err_msg@
            == "Rpc Url is not a valid url"@),
        proxy_count != 0 && rpc_url_ok && !agg_api_url_ok ==> (r matches Err(e) && e.err_msg@
            == "Aggregation Api Url is not a valid url"@),
        proxy_count != 0 && rpc_url_ok && agg_api_url_ok ==> r is Ok,
{
    if proxy_count == 0 {
        return Err(AppError::new("proxy list must not empty"));
    }
    if !rpc_url_ok {
        return Err(AppError::new("Rpc Url is not a valid url"));
    }
    if !agg_api_url_ok {
        return Err(AppError::new("Aggregation Api Url is not a valid url"));
    }
    Ok(())
}

/// The first file version's magic prefix is `m t 0 1`; the current one is
/// `m t 0 2`.  `109` is `m` and `116` is `t`.
pub open spec fn v1_magic() -> Seq<u8> {
    seq![109u8, 116u8, 0u8, 1u8]
}

pub open spec fn current_magic() -> Seq<u8> {
    seq![109u8, 116u8, 0u8, 2u8]
}

/// Prepends the current magic prefix to a serialized project payload.
pub fn frame_project_payload(payload: Vec<u8>) -> (r: Vec<u8>)
    ensures
        r@ == current_magic() + payload@,
{
    let mut framed: Vec<u8> = Vec::new();
    framed.push(109);
    framed.push(116);
    framed.push(0);
    framed.push(2);
    let ghost p0 = payload@;
    let mut payload = payload;
    framed.append(&mut payload);
    proof {
        assert(framed@ =~= current_magic() + p0);
    }
    framed
}

/// Which file version a project file's first bytes announce: files shorter
/// than the prefix are rejected, the v1 magic means version 1, and any
/// other prefix is read as the current version.
pub fn project_file_version(contents: &Vec<u8>) -> (r: Result<u8, AppError>)
    ensures
        contents@.len() < 4 ==> (r matches Err(e) && e.err_msg@ == "Wrong File Format"@),
        contents@.len() >= 4 ==> r is Ok,
        contents@.len() >= 4 && contents@.subrange(0, 4) == v1_magic() ==> r == Ok::<u8, AppError>(
            1u8,
        ),
        contents@.len() >= 4 && contents@.subrange(0, 4) != v1_magic() ==> r == Ok::<u8, AppError>(
            2u8,
        ),
{
    if contents.len() < 4 {
        return Err(AppError::new("Wrong File Format"));
    }
    if contents[0] == 109 && contents[1] == 116 && contents[2] == 0 && contents[3] == 1 {
        proof {
            assert(contents@.subrange(0, 4) =~= v1_magic());
        }
        Ok(1)
    } else {
        proof {
            assert(contents@.subrange(0, 4) != v1_magic()) by {
                if contents@.subrange(0, 4) == v1_magic() {
                    assert(contents@[0] == 109 && contents@[1] == 116 && contents@[2] == 0
                        && contents@[3] == 1) by {
                        assert(contents@.subrange(0, 4)[0] == contents@[0]);
                        assert(contents@.subrange(0, 4)[1] == contents@[1]);
                        assert(contents@.subrange(0, 4)[2] == contents@[2]);
                        assert(contents@.subrange(0, 4)[3] == contents@[3]);
                    }
                }
            }
        }
        Ok(2)
    }
}

/// A project as shown to callers: the main wallet replaced by its
/// printable address and key forms, wallet groups by their listings.
#[derive(Debug)]
pub struct ProjectResp {
    pub id: String,
    pub name: String,
    pub chain: Chain,
    pub main_wallet: String,
    pub main_wallet_pk: String,
    pub rpc: String,
    pub jito_url: Option<String>,
    pub agg_api_url: String,
    pub agg_api_key: Option<String>,
    pub proxy_urls: Vec<String>,
    pub wallet_grps: Vec<WalletGrpResp>,
}

impl ProjectResp {
    /// Prints the main wallet and every wallet group of the project.
    /// Fails exactly when some key cannot be printed for its chain.
    pub fn from_project(value: &Project) -> (r: Result<ProjectResp, AppError>)
        ensures
            r is Ok <==> crate::wallet::pk_pair_some(value.chain, value.main_wallet@) && (forall|
                i: int,
            |
                0 <= i < value.wallet_grps@.len() ==> crate::wallet::grp_printable(
                    #[trigger] value.wallet_grps@[i],
                )),
            r matches Ok(resp) ==> {
                &&& resp.id == value.id
                &&& resp.name == value.name
                &&& resp.chain == value.chain
                &&& (value.chain == Chain::Solana ==> utils::sol_addr_of(value.main_wallet@)
                    == Some(resp.main_wallet@) && utils::sol_pk_string_of(value.main_wallet@)
                    == Some(resp.main_wallet_pk@))
                &&& (value.chain != Chain::Solana ==> utils::evm_addr_of(value.main_wallet@)
                    == Some(resp.main_wallet@) && utils::evm_pk_string_of(value.main_wallet@)
                    == Some(resp.main_wallet_pk@))
                &&& resp.rpc == value.rpc
                &&& resp.jito_url == value.jito_url
                &&& resp.agg_api_url == value.agg_api_url
                &&& resp.agg_api_key == value.agg_api_key
                &&& resp.proxy_urls@ == value.proxy_urls@
                &&& resp.wallet_grps@.len() == value.wallet_grps@.len()
                &&& forall|i: int|
                    0 <= i < value.wallet_grps@.len() ==> crate::wallet::grp_resp_matches(
                        #[trigger] resp.wallet_grps@[i],
                        value.wallet_grps@[i],
                    )
            },
    {
        let main_wallet = match utils::pk_to_addr(value.chain, &value.main_wallet) {
            Ok(a) => a,
            Err(e) => {
                proof {
                    assert(!crate::wallet::pk_pair_some(value.chain, value.main_wallet@));
                }
                return Err(e);
            }
        };
        let main_wallet_pk = match utils::pk_to_string(value.chain, &value.main_wallet) {
            Ok(s) => s,
            Err(e) => {
                proof {
                    assert(!crate::wallet::pk_pair_some(value.chain, value.main_wallet@));
                }
                return Err(e);
            }
        };
        let mut wallet_grps: Vec<WalletGrpResp> = Vec::new();
        let n = value.wallet_grps.len();
        let mut i: usize = 0;
        while i < n
            invariant
                n == value.wallet_grps@.len(),
                i <= n,
                wallet_grps@.len() == i,
                forall|j: int|
                    0 <= j < i ==> crate::wallet::grp_resp_matches(
                        #[trigger] wallet_grps@[j],
                        value.wallet_grps@[j],
                    ),
                forall|j: int|
                    0 <= j < i ==> crate::wallet::grp_printable(#[trigger] value.wallet_grps@[j]),
            decreases n - i,
        {
            let grp = match WalletGrpResp::from_grp(&value.wallet_grps[i]) {
                Ok(g) => g,
                Err(e) => {
                    proof {
                        assert(!crate::wallet::grp_printable(value.wallet_grps@[i as int]));
                    }
                    return Err(e);
                }
            };
            wallet_grps.push(grp);
            i += 1;
        }
        Ok(ProjectResp {
            id: crate::wallet::clone_string(&value.id),
            name: crate::wallet::clone_string(&value.name),
            chain: value.chain,
            main_wallet,
            main_wallet_pk,
            rpc: crate::wallet::clone_string(&value.rpc),
            jito_url: clone_opt_string(&value.jito_url),
            agg_api_url: crate::wallet::clone_string(&value.agg_api_url),
            agg_api_key: clone_opt_string(&value.agg_api_key),
            proxy_urls: clone_string_vec(&value.proxy_urls),
            wallet_grps,
        })
    }
}

/// Clones an optional string; the copy holds the same value.
pub fn clone_opt_string(s: &Option<String>) -> (r: Option<String>)
    ensures
        r == *s,
{
    match s {
        Some(v) => Some(crate::wallet::clone_string(v)),
        None => None,
    }
}

/// Clones a list of strings; the copy holds the same values.
pub fn clone_string_vec(v: &Vec<String>) -> (r: Vec<String>)
    ensures
        r@ == v@,
{
    let mut out: Vec<String> = Vec::new();
    let n = v.len();
    let mut i: usize = 0;
    while i < n
        invariant
            n == v@.len(),
            i <= n,
            out@ == v@.subrange(0, i as int),
        decreases n - i,
    {
        out.push(crate::wallet::clone_string(&v[i]));
        proof {
            assert(out@ =~= v@.subrange(0, i + 1));
        }
        i += 1;
    }
    proof {
        assert(out@ =~= v@);
    }
    out
}

} // verus!
