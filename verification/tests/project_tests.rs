use solana_signer::Signer;
use mootrade::chain::Chain;
use mootrade::project::{
    frame_project_payload, project_file_version, validate_project_settings, CreateProjectReq,
    Project, ProjectResp, ProjectV1, UpdateProjectReq, DEFAULT_JITO_URL,
};

fn v1_project() -> ProjectV1 {
    ProjectV1 {
        id: "p1".to_string(),
        name: "old".to_string(),
        chain: Chain::Solana,
        main_wallet: vec![1u8; 64],
        rpc: "https://rpc.example".to_string(),
        agg_api_url: "https://agg.example".to_string(),
        agg_api_key: Some("SECRET-REDACTED".to_string()),
        proxy_urls: vec!["http://proxy.example".to_string()],
        wallet_grps: Vec::new(),
    }
}

#[test]
fn v1_upgrade_fills_default_jito_url_on_solana() {
    let p = Project::from_v1(v1_project());
    assert_eq!(p.jito_url.as_deref(), Some(DEFAULT_JITO_URL));
    assert_eq!(p.id, "p1");
    assert_eq!(p.rpc, "https://rpc.example");
}

#[test]
fn v1_upgrade_leaves_jito_url_empty_off_solana() {
    let mut v1 = v1_project();
    v1.chain = Chain::Base;
    v1.main_wallet = vec![1u8; 32];
    let p = Project::from_v1(v1);
    assert!(p.jito_url.is_none());
}

#[test]
fn created_project_gets_a_fresh_main_wallet() {
    let req = CreateProjectReq {
        id: "p".to_string(),
        name: "new".to_string(),
        chain: Chain::Solana,
        rpc: "https://rpc.example".to_string(),
        jito_url: None,
        agg_api_url: "https://agg.example".to_string(),
        agg_api_key: None,
        proxy_urls: vec!["http://proxy.example".to_string()],
        save_path: "/tmp/p.bin".to_string(),
    };
    let p = Project::create_from_req(req);
    assert_eq!(p.main_wallet.len(), 64);
    assert!(p.wallet_grps.is_empty());
}

#[test]
fn update_replaces_only_editable_settings() {
    let mut p = Project::from_v1(v1_project());
    let req = UpdateProjectReq {
        main_wallet_pk: "ignored-here".to_string(),
        proxy_urls: vec!["http://proxy2.example".to_string()],
        rpc_url: "https://rpc2.example".to_string(),
        jito_url: None,
        agg_api_url: "https://agg2.example".to_string(),
    };
    p.apply_update(req, vec![9u8; 64]);
    assert_eq!(p.rpc, "https://rpc2.example");
    assert_eq!(p.main_wallet, vec![9u8; 64]);
    assert_eq!(p.id, "p1");
    assert_eq!(p.name, "old");
}

#[test]
fn settings_validation_reports_the_first_problem() {
    let err = validate_project_settings(0, true, true).unwrap_err();
    assert_eq!(err.err_msg, "proxy list must not empty");
    let err = validate_project_settings(1, false, true).unwrap_err();
    assert_eq!(err.err_msg, "Rpc Url is not a valid url");
    let err = validate_project_settings(1, true, false).unwrap_err();
    assert_eq!(err.err_msg, "Aggregation Api Url is not a valid url");
    assert!(validate_project_settings(1, true, true).is_ok());
}

#[test]
fn framed_payload_starts_with_current_magic() {
    let framed = frame_project_payload(vec![10, 20, 30]);
    assert_eq!(framed, vec![109, 116, 0, 2, 10, 20, 30]);
}

#[test]
fn file_version_round_trips_through_framing() {
    let framed = frame_project_payload(vec![1, 2, 3]);
    assert_eq!(project_file_version(&framed).unwrap(), 2);
}

#[test]
fn file_version_recognizes_v1_magic() {
    assert_eq!(project_file_version(&vec![109, 116, 0, 1, 5]).unwrap(), 1);
}

#[test]
fn short_file_is_rejected() {
    let err = project_file_version(&vec![109, 116, 0]).unwrap_err();
    assert_eq!(err.err_msg, "Wrong File Format");
}

#[test]
fn project_listing_prints_the_main_wallet() {
    let kp = solana_keypair::Keypair::new();
    let mut p = Project::from_v1(v1_project());
    p.main_wallet = kp.to_bytes().to_vec();
    let resp = ProjectResp::from_project(&p).expect("listing");
    assert_eq!(resp.main_wallet, kp.pubkey().to_string());
    assert_eq!(resp.main_wallet_pk, kp.to_base58_string());
    assert_eq!(resp.proxy_urls, p.proxy_urls);
}
