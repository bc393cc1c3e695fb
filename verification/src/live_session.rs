//! One session with the exchange: whose key signs, whether the wallets may trade live, and
//! what the session reports of its account.
use crate::config::{ExecutionConfig, ExecutionMode, LiveSignatureType};
use crate::live_executor::{
    account_error_words, account_status, balance_usd_of, clob_host, configured_funder_address,
    explain_clob_account_error, funder_address, funder_of, is_address_text, key_text, min_notional,
    normalize_private_key, settings_of, validate_deposit_wallet_live_config, wallet_fault,
    LiveAccountStatus, LiveSecrets, LiveWarmupStatus, WalletFault,
};
use crate::num::Num;
use crate::text::{ascii_lower_text, joined, pieces, same_text, texts, trimmed};
use vstd::prelude::*;
use vstd::string::*;

verus! {

/// The settings that the environment may override.
pub open spec fn environment_settings() -> Seq<Seq<char>> {
    seq![
        "POLYMARKET_PRIVATE_KEY"@,
        "POLYMARKET_DEPOSIT_WALLET_ADDRESS"@,
        "POLYMARKET_FUNDER_ADDRESS"@,
        "CLOB_API_URL"@,
        "POLY_RELAYER_API_KEY"@,
        "POLY_RELAYER_ADDRESS"@,
    ]
}

/// The names to ask the environment for.
pub fn setting_names() -> (r: Vec<String>)
    ensures
        texts(r@) == environment_settings(),
{
    let mut out: Vec<String> = Vec::new();
    out.push(String::from_str("POLYMARKET_PRIVATE_KEY"));
    out.push(String::from_str("POLYMARKET_DEPOSIT_WALLET_ADDRESS"));
    out.push(String::from_str("POLYMARKET_FUNDER_ADDRESS"));
    out.push(String::from_str("CLOB_API_URL"));
    out.push(String::from_str("POLY_RELAYER_API_KEY"));
    out.push(String::from_str("POLY_RELAYER_ADDRESS"));
    assert(texts(out@) =~= environment_settings());
    out
}

fn is_setting_name(name: &str) -> (r: bool)
    ensures
        r == environment_settings().contains(name@),
{
    let names: Vec<String> = setting_names();
    let ghost all = environment_settings();
    let mut i: usize = 0;
    while i < names.len()
        invariant
            i <= names.len(),
            texts(names@) == all,
            all == environment_settings(),
            forall|j: int| 0 <= j < i ==> #[trigger] all[j] != name@,
        decreases names.len() - i,
    {
        assert(all[i as int] == names@[i as int]@);
        if same_text(names[i].as_str(), name) {
            return true;
        }
        i = i + 1;
    }
    false
}

/// Settings with the environment's variables over them: those that are settings and not
/// blank, without the white space around them.
pub open spec fn overridden(
    base: Map<Seq<char>, Seq<char>>,
    env: Seq<(String, String)>,
) -> Map<Seq<char>, Seq<char>>
    decreases env.len(),
{
    if env.len() == 0 {
        base
    } else {
        let rest = overridden(base, env.drop_last());
        let name = env.last().0@;
        let value = trimmed(env.last().1@);
        if environment_settings().contains(name) && value.len() > 0 {
            rest.insert(name, value)
        } else {
            rest
        }
    }
}

/// A variable that is no setting of the account changes none.
pub proof fn law_other_variables_change_nothing(
    base: Map<Seq<char>, Seq<char>>,
    env: Seq<(String, String)>,
)
    requires
        forall|i: int|
            0 <= i < env.len() ==> !environment_settings().contains((#[trigger] env[i]).0@),
    ensures
        overridden(base, env) == base,
    decreases env.len(),
{
    if env.len() > 0 {
        assert forall|i: int| 0 <= i < env.drop_last().len() implies !environment_settings().contains(
            (#[trigger] env.drop_last()[i]).0@,
        ) by {
            assert(env.drop_last()[i] == env[i]);
        }
        assert(env.last() == env[env.len() - 1]);
        law_other_variables_change_nothing(base, env.drop_last());
    }
}

impl LiveSecrets {
    /// The settings of the secrets file, empty where there is none, under those of the
    /// environment.
    pub fn load(text: &str, env: &Vec<(String, String)>) -> (r: Self)
        ensures
            r@ == overridden(settings_of(pieces(text@, '\n')), env@),
    {
        let mut out: LiveSecrets = LiveSecrets::parse(text);
        let ghost base = out@;
        let mut i: usize = 0;
        assert(env@.take(0) == Seq::<(String, String)>::empty());
        while i < env.len()
            invariant
                i <= env.len(),
                out@ == overridden(base, env@.take(i as int)),
            decreases env.len() - i,
        {
            proof {
                assert(env@.take(i + 1).drop_last() == env@.take(i as int));
                assert(env@.take(i + 1).last() == env@[i as int]);
            }
            if is_setting_name(env[i].0.as_str()) {
                out.override_with(env[i].0.as_str(), env[i].1.as_str());
            }
            i = i + 1;
        }
        assert(env@.take(env@.len() as int) == env@);
        out
    }

    /// The private key that signs, as its text is read.
    pub open spec fn key_setting(self) -> Option<Seq<char>> {
        match self.spec_get("POLYMARKET_PRIVATE_KEY"@) {
            Some(k) => Some(key_text(k)),
            None => None,
        }
    }

    pub fn signing_key(&self) -> (r: Option<String>)
        ensures
            match (r, self.key_setting()) {
                (Some(a), Some(b)) => a@ == b,
                (None, None) => true,
                _ => false,
            },
    {
        match self.get("POLYMARKET_PRIVATE_KEY") {
            Some(k) => Some(normalize_private_key(k)),
            None => None,
        }
    }
}

/// What `alloy` reads a private key's text as: the address of its owner, or the words of
/// its error.
pub uninterp spec fn owner_of_key(key: Seq<char>) -> Result<Seq<char>, Seq<char>>;

/// Calls `str::parse` for `alloy::signers::local::PrivateKeySigner` and writes the signer's
/// `address` with its `LowerHex`, prefix included. What address a key has is named, not
/// stated; that it is forty hexadecimal digits behind `0x` is.
#[verifier::external_body]
pub(crate) fn key_owner(key: &str) -> (r: Result<String, String>)
    ensures
        match (r, owner_of_key(key@)) {
            (Ok(a), Ok(b)) => a@ == b,
            (Err(a), Err(b)) => a@ == b,
            _ => false,
        },
        r matches Ok(a) ==> is_address_text(a@),
{
    match key.parse::<alloy::signers::local::PrivateKeySigner>() {
        Ok(signer) => Ok(format!("{:#x}", signer.address())),
        Err(error) => Err(error.to_string()),
    }
}

/// Why no owner can be named.
#[derive(Debug, Clone)]
pub enum KeyFault {
    Missing,
    Unreadable(String),
}

impl KeyFault {
    pub open spec fn words(self) -> Seq<char> {
        match self {
            KeyFault::Missing => "POLYMARKET_PRIVATE_KEY is required for CLOB order signing"@,
            KeyFault::Unreadable(error) => "failed to parse POLYMARKET_PRIVATE_KEY: "@ + error@,
        }
    }

    pub fn message(&self) -> (r: String)
        ensures
            r@ == self.words(),
    {
        match self {
            KeyFault::Missing => String::from_str(
                "POLYMARKET_PRIVATE_KEY is required for CLOB order signing",
            ),
            KeyFault::Unreadable(error) => joined(
                "failed to parse POLYMARKET_PRIVATE_KEY: ",
                error.as_str(),
            ),
        }
    }
}

/// Whether a result is the owner that the settings' key names.
pub open spec fn names_owner(secrets: LiveSecrets, r: Result<String, KeyFault>) -> bool {
    match secrets.key_setting() {
        None => r == Err::<String, KeyFault>(KeyFault::Missing),
        Some(key) => match owner_of_key(key) {
            Ok(a) => r matches Ok(s) && s@ == a,
            Err(w) => r matches Err(KeyFault::Unreadable(s)) && s@ == w,
        },
    }
}

/// The address of the account that signs.
pub fn owner_address(secrets: &LiveSecrets) -> (r: Result<String, KeyFault>)
    ensures
        names_owner(*secrets, r),
        r matches Ok(a) ==> is_address_text(a@),
{
    match secrets.signing_key() {
        None => Err(KeyFault::Missing),
        Some(key) => match key_owner(key.as_str()) {
            Ok(a) => Ok(a),
            Err(error) => Err(KeyFault::Unreadable(error)),
        },
    }
}

/// Why a live session is refused.
#[derive(Debug, Clone)]
pub enum LiveFault {
    NotLive,
    Key(KeyFault),
    /// The fault of the wallets, and their owner.
    Wallets(WalletFault, String),
}

impl LiveFault {
    pub open spec fn words(self, cfg: ExecutionConfig, secrets: LiveSecrets) -> Seq<char> {
        match self {
            LiveFault::NotLive => "live session requires execution.mode=live"@,
            LiveFault::Key(fault) => fault.words(),
            LiveFault::Wallets(fault, owner) => fault.words(
                cfg.signature_type,
                owner@,
                match funder_of(cfg, secrets) {
                    Some(f) => f,
                    None => "(not set)"@,
                },
            ),
        }
    }

    pub fn message(&self, cfg: &ExecutionConfig, secrets: &LiveSecrets) -> (r: String)
        ensures
            r@ == self.words(*cfg, *secrets),
    {
        match self {
            LiveFault::NotLive => String::from_str("live session requires execution.mode=live"),
            LiveFault::Key(fault) => fault.message(),
            LiveFault::Wallets(fault, owner) => {
                let deposit: String = configured_funder_address(cfg, secrets);
                fault.message(cfg.signature_type, owner.as_str(), deposit.as_str())
            },
        }
    }
}

/// The file to read the secrets from; none is read outside live mode.
pub fn live_secrets_file(cfg: &ExecutionConfig) -> (r: Result<String, LiveFault>)
    ensures
        match r {
            Ok(path) => cfg.mode == ExecutionMode::Live && path@ == cfg.secrets_file@,
            Err(fault) => cfg.mode != ExecutionMode::Live && fault == LiveFault::NotLive,
        },
{
    if cfg.mode != ExecutionMode::Live {
        Err(LiveFault::NotLive)
    } else {
        Ok(cfg.secrets_file.as_str().to_owned())
    }
}

/// Whether the deposit wallet's text is an address.
pub open spec fn deposit_is_address(cfg: ExecutionConfig, secrets: LiveSecrets) -> bool {
    funder_of(cfg, secrets) matches Some(d) && is_address_text(d)
}

/// The verdict on a live configuration whose key names that owner: the mode first, then
/// the key, then the wallets.
pub open spec fn live_verdict(
    cfg: ExecutionConfig,
    secrets: LiveSecrets,
    owner: Result<String, KeyFault>,
) -> Result<String, LiveFault> {
    if cfg.mode != ExecutionMode::Live {
        Err(LiveFault::NotLive)
    } else {
        match owner {
            Err(fault) => Err(LiveFault::Key(fault)),
            Ok(a) => match wallet_fault(cfg, secrets, a@, deposit_is_address(cfg, secrets)) {
                Some(fault) => Err(LiveFault::Wallets(fault, a)),
                None => Ok(a),
            },
        }
    }
}

/// Checks a live configuration, given the owner that its key names.
pub fn check_live_with(
    cfg: &ExecutionConfig,
    secrets: &LiveSecrets,
    owner: Result<String, KeyFault>,
) -> (r: Result<String, LiveFault>)
    ensures
        r == live_verdict(*cfg, *secrets, owner),
{
    if cfg.mode != ExecutionMode::Live {
        return Err(LiveFault::NotLive);
    }
    match owner {
        Err(fault) => Err(LiveFault::Key(fault)),
        Ok(a) => match validate_deposit_wallet_live_config(cfg, secrets, a.as_str()) {
            Err(fault) => Err(LiveFault::Wallets(fault, a)),
            Ok(()) => Ok(a),
        },
    }
}

/// Whether a result is the verdict on a live configuration and its secrets.
pub open spec fn is_live_verdict(
    cfg: ExecutionConfig,
    secrets: LiveSecrets,
    r: Result<String, LiveFault>,
) -> bool {
    if cfg.mode != ExecutionMode::Live {
        r == Err::<String, LiveFault>(LiveFault::NotLive)
    } else {
        match secrets.key_setting() {
            None => r == Err::<String, LiveFault>(LiveFault::Key(KeyFault::Missing)),
            Some(key) => match owner_of_key(key) {
                Err(w) => r matches Err(LiveFault::Key(KeyFault::Unreadable(s))) && s@ == w,
                Ok(a) => match wallet_fault(cfg, secrets, a, deposit_is_address(cfg, secrets)) {
                    Some(f) => r matches Err(LiveFault::Wallets(g, s)) && g == f && s@ == a,
                    None => r matches Ok(s) && s@ == a,
                },
            },
        }
    }
}

/// Checks a live configuration and its secrets; the owner's address where nothing is wrong.
pub fn check_live(cfg: &ExecutionConfig, secrets: &LiveSecrets) -> (r: Result<String, LiveFault>)
    ensures
        is_live_verdict(*cfg, *secrets, r),
        r matches Ok(a) ==> is_address_text(a@),
{
    if cfg.mode != ExecutionMode::Live {
        return Err(LiveFault::NotLive);
    }
    check_live_with(cfg, secrets, owner_address(secrets))
}

/// How a client of the exchange is made.
#[derive(Debug, Clone)]
pub struct ClobAccess {
    pub host: String,
    pub signature_type: LiveSignatureType,
    pub funder: Option<String>,
}

/// A session with the exchange, for a configuration that passed its check.
#[derive(Debug, Clone)]
pub struct LiveExecutorSession {
    pub cfg: ExecutionConfig,
    pub secrets: LiveSecrets,
    pub owner: String,
}

impl LiveExecutorSession {
    /// The owner is that of the key, and the configuration may trade live.
    pub open spec fn wf(self) -> bool {
        is_live_verdict(self.cfg, self.secrets, Ok::<String, LiveFault>(self.owner))
    }

    /// A session, or why there is none.
    pub fn connect(cfg: ExecutionConfig, secrets: LiveSecrets) -> (r: Result<Self, LiveFault>)
        ensures
            match r {
                Ok(s) => s.wf() && s.cfg == cfg && s.secrets == secrets,
                Err(fault) => is_live_verdict(cfg, secrets, Err::<String, LiveFault>(fault)),
            },
    {
        match check_live(&cfg, &secrets) {
            Ok(owner) => Ok(LiveExecutorSession { cfg, secrets, owner }),
            Err(fault) => Err(fault),
        }
    }

    /// What the exchange is asked for a client with: none where a deposit wallet signs and
    /// there is no address for it.
    pub fn clob_access(&self) -> (r: Result<ClobAccess, String>)
        ensures
            match r {
                Ok(access) => {
                    &&& self.may_ask()
                    &&& access.host@ == match self.secrets.spec_get("CLOB_API_URL"@) {
                        Some(h) => h,
                        None => self.cfg.clob_host@,
                    }
                    &&& access.signature_type == self.cfg.signature_type
                    &&& match (access.funder, funder_of(self.cfg, self.secrets)) {
                        (Some(a), Some(b)) => a@ == b,
                        (None, None) => true,
                        _ => false,
                    }
                },
                Err(words) => !self.may_ask() && words@
                    == "POLYMARKET_DEPOSIT_WALLET_ADDRESS is required for signatureType=poly1271"@,
            },
    {
        let funder: Option<String> = funder_address(&self.cfg, &self.secrets);
        if self.cfg.signature_type == LiveSignatureType::Poly1271 && funder.is_none() {
            return Err(
                String::from_str(
                    "POLYMARKET_DEPOSIT_WALLET_ADDRESS is required for signatureType=poly1271",
                ),
            );
        }
        Ok(
            ClobAccess {
                host: clob_host(&self.cfg, &self.secrets),
                signature_type: self.cfg.signature_type,
                funder,
            },
        )
    }

    pub open spec fn may_ask(self) -> bool {
        self.cfg.signature_type != LiveSignatureType::Poly1271 || funder_of(
            self.cfg,
            self.secrets,
        ) is Some
    }

    /// The words for a request about the account that failed.
    pub fn account_error(&self, what: &str, error: &str) -> (r: String)
        ensures
            r@ == account_error_words(
                what@ + ": "@ + error@,
                self.owner@,
                match funder_of(self.cfg, self.secrets) {
                    Some(f) => f,
                    None => "(not set)"@,
                },
                self.secrets.spec_get("POLY_RELAYER_ADDRESS"@),
            ),
    {
        let mut words: String = String::from_str(what);
        words.append(": ");
        words.append(error);
        let funder: String = self.configured_funder_address();
        explain_clob_account_error(
            words.as_str(),
            self.owner.as_str(),
            funder.as_str(),
            self.secrets.get("POLY_RELAYER_ADDRESS"),
        )
    }

    /// Polymarket deposit wallets, not Safe or Proxy ones.
    pub fn wallet_profile(&self) -> (r: &'static str)
        ensures
            r@ == "DEPOSIT_WALLET/POLY_1271"@,
    {
        "DEPOSIT_WALLET/POLY_1271"
    }

    pub fn signer_address(&self) -> (r: String)
        ensures
            r@ == self.owner@,
    {
        self.owner.as_str().to_owned()
    }

    pub fn configured_funder_address(&self) -> (r: String)
        ensures
            r@ == match funder_of(self.cfg, self.secrets) {
                Some(f) => f,
                None => "(not set)"@,
            },
    {
        configured_funder_address(&self.cfg, &self.secrets)
    }

    pub fn relayer_address(&self) -> (r: Option<String>)
        ensures
            match (r, self.secrets.spec_get("POLY_RELAYER_ADDRESS"@)) {
                (Some(a), Some(b)) => a@ == b,
                (None, None) => true,
                _ => false,
            },
    {
        match self.secrets.get("POLY_RELAYER_ADDRESS") {
            Some(a) => Some(a.to_owned()),
            None => None,
        }
    }

    pub open spec fn relayer_configured(self) -> bool {
        self.secrets.spec_get("POLY_RELAYER_API_KEY"@) is Some && self.secrets.spec_get(
            "POLY_RELAYER_ADDRESS"@,
        ) is Some
    }

    /// The account's state from the balance and the allowances that the exchange reports.
    pub fn refresh_account(&self, balance: &str, allowance_contracts: usize, now_ms: i64) -> (r:
        LiveAccountStatus)
        ensures
            r.authenticated,
            r.balance_usd == balance_usd_of(balance@),
            r.allowance_contracts == allowance_contracts,
            r.ready_to_trade == (allowance_contracts > 0 && (balance_usd_of(balance@) + Num::ratio(
                1,
                1_000_000_000,
            )).ge(min_notional(self.cfg))),
            r.dry_run == self.cfg.dry_run,
            r.relayer_configured == self.relayer_configured(),
            r.signer_address@ == self.owner@,
            r.funder_address@ == match funder_of(self.cfg, self.secrets) {
                Some(f) => f,
                None => "(not set)"@,
            },
            r.last_error is None,
            r.updated_at_ms == now_ms,
            r.window_number is None,
    {
        account_status(
            &self.cfg,
            &self.secrets,
            self.signer_address(),
            balance,
            allowance_contracts,
            now_ms,
        )
    }

    /// What the first look at the account shows.
    pub fn warmup(&self, balance: &str, allowance_contracts: usize, now_ms: i64) -> (r:
        LiveWarmupStatus)
        ensures
            r == (LiveWarmupStatus {
                balance_usd: balance_usd_of(balance@),
                allowance_contracts,
                relayer_configured: self.relayer_configured(),
            }),
    {
        let status: LiveAccountStatus = self.refresh_account(balance, allowance_contracts, now_ms);
        LiveWarmupStatus {
            balance_usd: status.balance_usd,
            allowance_contracts: status.allowance_contracts,
            relayer_configured: status.relayer_configured,
        }
    }
}

/// In a live session a deposit wallet holds the funds, signed for as one: it is an address,
/// and not that of the owner, whatever the case of its letters.
pub proof fn law_session_has_its_own_deposit_wallet(session: LiveExecutorSession)
    requires
        session.wf(),
    ensures
        session.cfg.mode == ExecutionMode::Live,
        session.cfg.signature_type == LiveSignatureType::Poly1271,
        funder_of(session.cfg, session.secrets) matches Some(d) && is_address_text(d)
            && ascii_lower_text(d) != ascii_lower_text(session.owner@),
        session.may_ask(),
{
}

/// Two sessions with the same key have the same owner, whatever else is set.
pub proof fn law_owner_is_the_keys(a: LiveExecutorSession, b: LiveExecutorSession)
    requires
        a.wf(),
        b.wf(),
        a.secrets.key_setting() == b.secrets.key_setting(),
    ensures
        a.owner@ == b.owner@,
{
}

} // verus!
