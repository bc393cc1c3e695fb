use gem_endgame::config::{ExecutionConfig, ExecutionMode, LiveSignatureType};
use gem_endgame::live_executor::{LiveSecrets, WalletFault};
use gem_endgame::live_session::{
    check_live, check_live_with, live_secrets_file, owner_address, setting_names, KeyFault, LiveExecutorSession,
    LiveFault,
};

const OWNER: &str = "0x7e5f4552091a69125d5dfcb7b8c2659029395bdf";
const DEPOSIT: &str = "0x00000000000000000000000000000000000000aa";

fn key(last: &str) -> String {
    format!("{}{}", "0".repeat(64 - last.len()), last)
}

fn live() -> ExecutionConfig {
    ExecutionConfig { mode: ExecutionMode::Live, ..ExecutionConfig::default() }
}

fn secrets(key: Option<&str>, deposit: Option<&str>) -> LiveSecrets {
    let mut s = LiveSecrets::default();
    if let Some(k) = key {
        s.set("POLYMARKET_PRIVATE_KEY".into(), k.into());
    }
    if let Some(d) = deposit {
        s.set("POLYMARKET_DEPOSIT_WALLET_ADDRESS".into(), d.into());
    }
    s
}

#[test]
fn a_key_names_its_owner() {
    assert_eq!(owner_address(&secrets(Some(&key("1")), None)).unwrap(), OWNER);
    let dressed = format!("\"0x{}\"", key("1"));
    assert_eq!(owner_address(&secrets(Some(&dressed), None)).unwrap(), OWNER);
    assert_eq!(
        owner_address(&secrets(Some(&key("2")), None)).unwrap(),
        "0x2b5ad5c4795c026514f8317c7a215e218dccd6cf"
    );
}

#[test]
fn a_key_can_be_missing_or_unreadable() {
    let none = owner_address(&secrets(None, None)).unwrap_err();
    assert!(matches!(none, KeyFault::Missing));
    assert_eq!(none.message(), "POLYMARKET_PRIVATE_KEY is required for CLOB order signing");
    assert!(matches!(owner_address(&secrets(Some("  "), None)), Err(KeyFault::Missing)));
    for bad in ["zz", "12", &key("0")] {
        let fault = owner_address(&secrets(Some(bad), None)).unwrap_err();
        assert!(matches!(fault, KeyFault::Unreadable(_)));
        let words = fault.message();
        assert!(words.starts_with("failed to parse POLYMARKET_PRIVATE_KEY: "));
        assert!(words.len() > "failed to parse POLYMARKET_PRIVATE_KEY: ".len());
    }
}

#[test]
fn a_live_session_checks_mode_then_key_then_wallets() {
    let good = secrets(Some(&key("1")), Some(DEPOSIT));
    assert_eq!(check_live(&live(), &good).unwrap(), OWNER);

    let paper = ExecutionConfig::default();
    let fault = check_live(&paper, &secrets(None, None)).unwrap_err();
    assert!(matches!(fault, LiveFault::NotLive));
    assert_eq!(fault.message(&paper, &good), "live session requires execution.mode=live");
    assert!(live_secrets_file(&paper).is_err());
    assert_eq!(live_secrets_file(&live()).unwrap(), ".env.live");

    let mut wrong = live();
    wrong.signature_type = LiveSignatureType::Eoa;
    assert!(matches!(check_live(&wrong, &secrets(None, None)), Err(LiveFault::Key(KeyFault::Missing))));
    let fault = check_live(&wrong, &good).unwrap_err();
    assert!(matches!(fault, LiveFault::Wallets(WalletFault::WrongSignature, _)));
    assert!(fault.message(&wrong, &good).contains("Got Eoa."));

    let fault = check_live(&live(), &secrets(Some(&key("1")), None)).unwrap_err();
    assert!(matches!(fault, LiveFault::Wallets(WalletFault::NoDeposit, _)));

    let same = secrets(Some(&key("1")), Some(&OWNER.to_uppercase().replace("0X", "0x")));
    let fault = check_live(&live(), &same).unwrap_err();
    assert!(matches!(fault, LiveFault::Wallets(WalletFault::DepositIsOwner, _)));
    assert!(fault.message(&live(), &same).contains(&format!("must differ from owner EOA ({OWNER})")));

    let odd = secrets(Some(&key("1")), Some("0x12"));
    let fault = check_live(&live(), &odd).unwrap_err();
    assert_eq!(fault.message(&live(), &odd), "invalid POLYMARKET_DEPOSIT_WALLET_ADDRESS: 0x12");
}

#[test]
fn the_check_follows_the_owner_that_it_is_given() {
    let s = secrets(None, Some(DEPOSIT));
    assert_eq!(check_live_with(&live(), &s, Ok("0xabc".into())).unwrap(), "0xabc");
    assert!(matches!(
        check_live_with(&live(), &s, Ok(DEPOSIT.into())),
        Err(LiveFault::Wallets(WalletFault::DepositIsOwner, _))
    ));
    match check_live_with(&live(), &s, Err(KeyFault::Unreadable("odd".into()))) {
        Err(LiveFault::Key(fault)) => assert_eq!(fault.message(), "failed to parse POLYMARKET_PRIVATE_KEY: odd"),
        _ => unreachable!(),
    }
}

#[test]
fn the_environment_overrides_known_settings() {
    assert_eq!(setting_names().len(), 6);
    let env = vec![
        ("CLOB_API_URL".to_string(), " https://other ".to_string()),
        ("POLY_RELAYER_ADDRESS".to_string(), "  ".to_string()),
        ("HOME".to_string(), "/root".to_string()),
    ];
    let s = LiveSecrets::load("CLOB_API_URL=https://file\nPOLY_RELAYER_ADDRESS=0x1\nHOME=kept\n", &env);
    assert_eq!(s.get("CLOB_API_URL"), Some("https://other"));
    assert_eq!(s.get("POLY_RELAYER_ADDRESS"), Some("0x1"));
    assert_eq!(s.get("HOME"), Some("kept"));
}

#[test]
fn a_session_reports_its_account() {
    let mut s = secrets(Some(&key("1")), Some(DEPOSIT));
    s.set("POLY_RELAYER_API_KEY".into(), "k".into());
    s.set("POLY_RELAYER_ADDRESS".into(), OWNER.into());
    let session = LiveExecutorSession::connect(live(), s).unwrap();
    assert_eq!(session.wallet_profile(), "DEPOSIT_WALLET/POLY_1271");
    assert_eq!(session.signer_address(), OWNER);
    assert_eq!(session.configured_funder_address(), DEPOSIT);
    assert_eq!(session.relayer_address().as_deref(), Some(OWNER));
    let account = session.refresh_account("12500000", 2, 7);
    assert!(account.authenticated && account.ready_to_trade && account.relayer_configured);
    assert_eq!(f64::from_bits(account.balance_usd.to_bits()), 12.5);
    assert_eq!((account.allowance_contracts, account.updated_at_ms), (2, 7));
    assert_eq!(account.signer_address, OWNER);
    let warm = session.warmup("12500000", 2, 7);
    assert_eq!(f64::from_bits(warm.balance_usd.to_bits()), 12.5);
    assert_eq!((warm.allowance_contracts, warm.relayer_configured), (2, true));
    let access = session.clob_access().unwrap();
    assert_eq!(access.host, "https://clob.polymarket.com");
    assert_eq!(access.funder.as_deref(), Some(DEPOSIT));
    assert_eq!(session.account_error("sync failed", "down"), "sync failed: down");
    assert!(session
        .account_error("sync failed", "no deposit wallet found for owner")
        .contains(" Owner=relayer EOA is normal;"));
    assert!(LiveExecutorSession::connect(live(), secrets(None, Some(DEPOSIT))).is_err());
    let bare = LiveExecutorSession { cfg: live(), secrets: LiveSecrets::default(), owner: OWNER.into() };
    assert_eq!(
        bare.clob_access().unwrap_err(),
        "POLYMARKET_DEPOSIT_WALLET_ADDRESS is required for signatureType=poly1271"
    );
    assert_eq!(bare.relayer_address(), None);
}
