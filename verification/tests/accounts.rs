use gem_endgame::client::{MarketWindow, TokenInfo, TokensMap};
use gem_endgame::config::{resolve_llm_config, ExecutionConfig, LiveSignatureType, LlmConfig, LlmConfigWire};
use gem_endgame::daemon::{already_running, meta_path, pid_path, start_blocked};
use gem_endgame::dashboard::live_account_snapshot;
use gem_endgame::h_stats::{h_session_header, h_window_close_row, HCloseStats};
use gem_endgame::live_executor::{
    account_status, build_live_order_intent, decimal_shares, decimal_usd, explain_clob_account_error,
    explain_clob_order_error, parse_token_id, validate_deposit_wallet_live_config, LiveIntentError, LiveSecrets,
    WalletFault,
};
use gem_endgame::llm::{forecast_refused, key_not_found};
use gem_endgame::num::Num;
use gem_endgame::strategy::{OrderSignal, OrderType};

const OWNER: &str = "0x00000000000000000000000000000000000000aa";
const DEPOSIT: &str = "0x00000000000000000000000000000000000000bb";

fn n(x: f64) -> Num {
    Num::from_bits(x.to_bits())
}

fn f(x: Num) -> f64 {
    f64::from_bits(x.to_bits())
}

fn market() -> MarketWindow {
    MarketWindow {
        id: "m".into(),
        slug: "s".into(),
        question: "q".into(),
        asset: "BTC".into(),
        interval: "5m".into(),
        start_time: String::new(),
        end_time: String::new(),
        price_to_beat: None,
        tokens: TokensMap {
            up: TokenInfo { token_id: "11".into(), outcome_name: "Up".into() },
            down: TokenInfo { token_id: "22".into(), outcome_name: "Down".into() },
        },
    }
}

fn with_deposit(address: &str) -> ExecutionConfig {
    let mut cfg = ExecutionConfig::default();
    cfg.funder_address = Some(address.to_string());
    cfg
}

#[test]
fn each_wallet_fault_has_its_words() {
    let none = LiveSecrets::parse("");
    let mut cfg = with_deposit(DEPOSIT);
    assert!(validate_deposit_wallet_live_config(&cfg, &none, OWNER).is_ok());
    cfg.signature_type = LiveSignatureType::Proxy;
    let fault = validate_deposit_wallet_live_config(&cfg, &none, OWNER).unwrap_err();
    assert!(matches!(fault, WalletFault::WrongSignature));
    assert!(fault.message(LiveSignatureType::Proxy, OWNER, DEPOSIT).contains("Got Proxy."));

    let fault = validate_deposit_wallet_live_config(&ExecutionConfig::default(), &none, OWNER).unwrap_err();
    assert!(matches!(fault, WalletFault::NoDeposit));
    assert!(fault
        .message(LiveSignatureType::Poly1271, OWNER, "")
        .starts_with("POLYMARKET_DEPOSIT_WALLET_ADDRESS is required"));

    let upper = OWNER.to_uppercase();
    let fault = validate_deposit_wallet_live_config(&with_deposit(&upper), &none, OWNER).unwrap_err();
    assert!(matches!(fault, WalletFault::DepositIsOwner));
    assert!(fault.message(LiveSignatureType::Poly1271, OWNER, &upper).contains("must differ from owner EOA"));

    let fault = validate_deposit_wallet_live_config(&with_deposit("nonsense"), &none, OWNER).unwrap_err();
    assert!(matches!(fault, WalletFault::BadDeposit));
    assert_eq!(
        fault.message(LiveSignatureType::Poly1271, OWNER, "nonsense"),
        "invalid POLYMARKET_DEPOSIT_WALLET_ADDRESS: nonsense"
    );
}

#[test]
fn settings_are_read_line_by_line() {
    let mut s = LiveSecrets::parse("# note\n A = \"one\" \nB='two'\nnoise\nA=three\nEMPTY=\n");
    assert_eq!(s.get("A"), Some("three"));
    assert_eq!(s.get("B"), Some("two"));
    assert_eq!(s.get("EMPTY"), None);
    assert_eq!(s.get("noise"), None);
    s.override_with("B", "  ");
    assert_eq!(s.get("B"), Some("two"));
    s.override_with("B", " four ");
    assert_eq!(s.get("B"), Some("four"));
    assert_eq!(s.deposit_wallet_address(), None);
    s.override_with("POLYMARKET_FUNDER_ADDRESS", "fund");
    assert_eq!(s.deposit_wallet_address().as_deref(), Some("fund"));
    s.override_with("POLYMARKET_DEPOSIT_WALLET_ADDRESS", "deposit");
    assert_eq!(s.deposit_wallet_address().as_deref(), Some("deposit"));
}

#[test]
fn accounts_are_ready_with_money_and_allowance() {
    let s = LiveSecrets::parse("POLY_RELAYER_API_KEY=k\nPOLY_RELAYER_ADDRESS=a\n");
    let cfg = with_deposit(DEPOSIT);
    let ready = account_status(&cfg, &s, OWNER.to_string(), "2500000", 1, 7);
    assert_eq!(f(ready.balance_usd), 2.5);
    assert!(ready.ready_to_trade && ready.relayer_configured && ready.authenticated);
    assert_eq!(ready.funder_address, DEPOSIT);
    let snap = live_account_snapshot(&ready);
    assert_eq!((f(snap.balance_usd), snap.updated_at_ms, snap.signer_address.as_str()), (2.5, 7, OWNER));
    assert!(!account_status(&cfg, &s, OWNER.to_string(), "2500000", 0, 7).ready_to_trade);
    assert!(!account_status(&cfg, &s, OWNER.to_string(), "999999", 1, 7).ready_to_trade);
    let bare = account_status(&ExecutionConfig::default(), &LiveSecrets::parse(""), String::new(), "x", 1, 7);
    assert_eq!(f(bare.balance_usd), 0.0);
    assert_eq!(bare.funder_address, "(not set)");
    assert!(!bare.relayer_configured);
}

#[test]
fn each_order_fault_has_its_words() {
    let cfg = ExecutionConfig::default();
    let try_buy = |side: &str, amount: f64, price: f64| {
        let sig = OrderSignal::buy(side, OrderType::Market, n(amount), n(price), "r");
        build_live_order_intent(&cfg, &market(), &sig).unwrap_err()
    };
    let try_sell = |amount: f64, price: f64| {
        let sig = OrderSignal::sell("UP", OrderType::Market, n(amount), n(price), "r");
        build_live_order_intent(&cfg, &market(), &sig).unwrap_err()
    };
    let e = try_buy("UP", 3.0, 0.0);
    assert!(matches!(e, LiveIntentError::BadPrice));
    assert_eq!(e.message("UP", "0"), "bad live signal price 0");
    let e = try_buy("UP", f64::NAN, 0.5);
    assert!(matches!(e, LiveIntentError::BadAmount));
    assert_eq!(e.message("UP", "NaN"), "bad live signal amount NaN");
    let e = try_buy("LEFT", 3.0, 0.5);
    assert!(matches!(e, LiveIntentError::UnknownSide));
    assert_eq!(e.message("LEFT", ""), "unknown live signal side LEFT");
    let e = try_buy("UP", 0.5, 0.5);
    assert!(matches!(e, LiveIntentError::BuyBelowMin { .. }));
    assert_eq!(e.message("UP", ""), "live buy below min notional: 0.5000 < 1.0000");
    let e = try_sell(1.0, 0.5);
    assert!(matches!(e, LiveIntentError::SellBelowMin { .. }));
    assert_eq!(e.message("UP", ""), "live sell below min notional: 0.5000 < 1.0000");
    let e = try_sell(0.004, 1_000.0);
    assert!(matches!(e, LiveIntentError::BadShares { .. }));
    assert_eq!(e.message("UP", ""), "live order shares are invalid: 0.00000000");
}

#[test]
fn refusals_are_explained() {
    assert_eq!(explain_clob_order_error("boom", "o", "d"), "boom | owner=o deposit=d");
    assert!(explain_clob_order_error("UNMATCHED", "o", "d").contains("full size not available"));
    let auth = "signer address has to be the address of the API KEY";
    assert!(explain_clob_order_error(auth, "o", "d").contains("must belong to owner EOA (o), not deposit (d)"));
    assert_eq!(explain_clob_account_error("boom", "s", "f", None), "boom");
    let lost = "no deposit wallet found for owner";
    let same = explain_clob_account_error(lost, "0xAB", "f", Some("0xab"));
    assert!(same.contains("Owner=relayer EOA is normal"));
    assert!(!explain_clob_account_error(lost, "0xAB", "f", None).contains("Owner=relayer"));
    assert!(same.contains("(2) deposit USDC to f,"));
}

#[test]
fn amounts_are_written_for_the_book() {
    assert_eq!(decimal_usd(n(3.0)), "3.000000");
    assert_eq!(decimal_usd(n(0.1234567)), "0.123457");
    assert_eq!(decimal_shares(n(2.345)), format!("{:.2}", 2.345));
}

#[test]
fn the_llm_entry_is_a_switch_or_an_object() {
    assert!(!resolve_llm_config(None).enabled);
    let on = resolve_llm_config(Some(LlmConfigWire::Switch(true)));
    assert!(on.enabled);
    assert_eq!((on.model.as_str(), on.location.as_str()), ("gemini-3.5-flash", "global"));
    let own = LlmConfig { enabled: true, model: "m".into(), location: "l".into() };
    assert_eq!(resolve_llm_config(Some(LlmConfigWire::Object(own))).model, "m");
}

#[test]
fn a_second_server_is_held_off() {
    assert!(start_blocked(Some(4), true, 5));
    assert!(!start_blocked(Some(4), false, 5));
    assert!(!start_blocked(Some(5), true, 5));
    assert!(!start_blocked(None, true, 5));
    assert!(already_running(4).starts_with("server already running (pid 4)."));
    assert_eq!(pid_path(), "logs/gem_rust_server.pid");
    assert_eq!(meta_path(), "logs/gem_rust_server.json");
}

#[test]
fn hold_rows_match_their_header() {
    let blank = h_window_close_row(5, 0, "SESSION_END", n(1.5), &HCloseStats::default(), 1, 2, 3, 4);
    assert_eq!(blank, "5,0,SESSION_END,1.5000,,false,false,,,1,2,3,4");
    let h = HCloseStats {
        market_win: Some(true),
        salvaged: true,
        salvage_win: false,
        entry_price: Some(n(0.38)),
        exit_price: Some(n(0.5)),
    };
    let row = h_window_close_row(5, 3, "w", n(-0.25), &h, 1, 0, 1, 0);
    assert_eq!(row, "5,3,w,-0.2500,true,true,false,0.38,0.50,1,0,1,0");
    assert_eq!(row.matches(',').count(), h_session_header().matches(',').count());
}

#[test]
fn missing_keys_and_refused_forecasts_say_so() {
    assert_eq!(key_not_found("llm.json"), "LLM credentials not found: llm.json");
    assert_eq!(forecast_refused("500 Oops", "down"), "Vertex forecast failed: 500 Oops down");
}

#[test]
fn addresses_and_token_ids_are_told_apart() {
    let none = LiveSecrets::parse("");
    let check = |a: &str| validate_deposit_wallet_live_config(&with_deposit(a), &none, OWNER).is_ok();
    assert!(check(DEPOSIT));
    assert!(check(&DEPOSIT[2..]));
    assert!(check(&DEPOSIT.replace("0x", "0X").replace("bb", "Bb")));
    assert!(!check(&DEPOSIT[..41]));
    assert!(!check(&DEPOSIT.replace("bb", "bg")));
    assert!(!check(&format!("{DEPOSIT}0")));
    assert!(parse_token_id(&"9".repeat(77)).is_ok());
    assert!(parse_token_id(&"9".repeat(78)).is_err());
    assert!(parse_token_id("0xff").is_ok());
    assert!(parse_token_id("12 3").is_err());
    assert!(parse_token_id("-1").is_err());
    assert!(parse_token_id("").is_ok());
    let top = "115792089237316195423570985008687907853269984665640564039457584007913129639935";
    let over = "115792089237316195423570985008687907853269984665640564039457584007913129639936";
    assert!(parse_token_id(top).is_ok());
    assert!(parse_token_id(over).is_err());
    assert!(parse_token_id(&format!("000{}", top)).is_ok());
    assert!(parse_token_id(&format!("0x{}", "f".repeat(64))).is_ok());
    assert!(parse_token_id(&format!("0x1{}", "0".repeat(64))).is_err());
    assert!(parse_token_id("0o777").is_ok());
    assert!(parse_token_id("0o8").is_err());
    assert!(parse_token_id("0b1_0").is_ok());
    assert!(parse_token_id("0b2").is_err());
    assert!(parse_token_id("1_000").is_ok());
    assert!(parse_token_id("ff").is_err());
    assert!(parse_token_id("0x").is_ok());
}
