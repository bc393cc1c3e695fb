//! Rows of the live trading audit.
use crate::dashboard::copy_text;
use crate::live_executor::{LiveAccountStatus, LiveExecutionResult};
use crate::num::Num;
use crate::strategy::{OrderOperation, OrderSignal};
use crate::text::joined;
use vstd::prelude::*;

verus! {

/// The audit's file in a run's log directory.
pub const AUDIT_FILE: &'static str = "live_audit.sqlite3";

/// A file in a directory.
pub open spec fn path_in(dir: Seq<char>, file: Seq<char>) -> Seq<char> {
    if dir.len() == 0 {
        file
    } else if dir.last() == '/' {
        dir + file
    } else {
        dir + "/"@ + file
    }
}

pub fn file_in(dir: &str, file: &str) -> (r: String)
    ensures
        r@ == path_in(dir@, file@),
{
    let n: usize = dir.unicode_len();
    if n == 0 {
        return file.to_owned();
    }
    let mut out: String = dir.to_owned();
    if dir.get_char(n - 1) != '/' {
        out.append("/");
    }
    out.append(file);
    out
}

/// The audit of a run.
#[derive(Debug, Clone)]
pub struct LiveAudit {
    pub path: String,
}

impl LiveAudit {
    /// The audit in a run's log directory.
    pub fn new(run_log_dir: &str) -> (r: Self)
        ensures
            r.path@ == path_in(run_log_dir@, AUDIT_FILE@),
    {
        LiveAudit { path: file_in(run_log_dir, AUDIT_FILE) }
    }
}

/// `dry-run` or `live`.
pub open spec fn run_mode(dry_run: bool) -> Seq<char> {
    if dry_run {
        "dry-run"@
    } else {
        "live"@
    }
}

pub fn mode_label(dry_run: bool) -> (r: &'static str)
    ensures
        r@ == run_mode(dry_run),
{
    if dry_run {
        "dry-run"
    } else {
        "live"
    }
}

/// One reading of the account's balance.
#[derive(Debug, Clone)]
pub struct BalanceRow {
    pub window_number: Option<i64>,
    pub mode: &'static str,
    pub clob_balance: Num,
    pub paper_cash: Num,
    pub trade_cash: Num,
    pub pending_redeem_est: Num,
    pub ready: i64,
    pub error: Option<String>,
}

/// Whether two texts that may be missing are the same.
pub open spec fn same_option(a: Option<String>, b: Option<String>) -> bool {
    match (a, b) {
        (Some(x), Some(y)) => x@ == y@,
        (None, None) => true,
        _ => false,
    }
}

/// The row of a balance reading. What the books hold above the account's balance is
/// taken to wait for redemption.
pub fn balance_row(account: &LiveAccountStatus, paper_cash: Num, trade_cash: Num) -> (r: BalanceRow)
    ensures
        match (r.window_number, account.window_number) {
            (Some(a), Some(b)) => a == b as i64,
            (None, None) => true,
            _ => false,
        },
        r.mode@ == run_mode(account.dry_run),
        r.clob_balance == account.balance_usd,
        r.paper_cash == paper_cash,
        r.trade_cash == trade_cash,
        r.pending_redeem_est == (paper_cash - account.balance_usd).max(Num::zero()),
        r.ready == if account.ready_to_trade {
            1int
        } else {
            0
        },
        same_option(r.error, account.last_error),
{
    BalanceRow {
        window_number: match account.window_number {
            Some(v) => Some(v as i64),
            None => None,
        },
        mode: mode_label(account.dry_run),
        clob_balance: account.balance_usd,
        paper_cash,
        trade_cash,
        pending_redeem_est: (paper_cash - account.balance_usd).max(Num::zero()),
        ready: if account.ready_to_trade {
            1
        } else {
            0
        },
        error: copy_text(&account.last_error),
    }
}

/// One order and what became of it.
#[derive(Debug, Clone)]
pub struct OrderRow {
    pub mode: &'static str,
    pub operation: &'static str,
    pub side: String,
    pub order_type: String,
    pub price: Num,
    pub amount: Num,
    pub executed: bool,
    pub submitted: bool,
    pub dry_run: bool,
    pub reject_reason: Option<String>,
    pub order_id: Option<String>,
    pub status: Option<String>,
    pub fill_usd: Option<Num>,
    pub fill_shares: Option<Num>,
    pub fill_avg_price: Option<Num>,
    pub raw_making: Option<String>,
    pub raw_taking: Option<String>,
    pub reason: String,
}

/// The row of an order. Without a reason for a rejection that column is empty, without a
/// fill its three columns are.
pub fn order_row(signal: &OrderSignal, result: &LiveExecutionResult) -> (r: OrderRow)
    ensures
        r.mode@ == run_mode(result.dry_run),
        r.operation@ == if signal.is_buy {
            "BUY"@
        } else {
            "SELL"@
        },
        r.side@ == signal.side@,
        r.order_type@ == match result.intent {
            Some(intent) => "market_"@ + intent.clob_order_type@,
            None => "market"@,
        },
        r.price == signal.price,
        r.amount == signal.amount,
        r.executed == result.executed,
        r.submitted == result.submitted,
        r.dry_run == result.dry_run,
        match r.reject_reason {
            Some(t) => t@ == result.reject_reason@ && t@.len() > 0,
            None => result.reject_reason@.len() == 0,
        },
        same_option(r.order_id, result.order_id),
        same_option(r.status, result.status),
        match result.fill {
            Some(f) => r.fill_usd == Some(f.amount_usd) && r.fill_shares == Some(f.shares)
                && r.fill_avg_price == Some(f.avg_price),
            None => r.fill_usd is None && r.fill_shares is None && r.fill_avg_price is None,
        },
        same_option(r.raw_making, result.raw_making_amount),
        same_option(r.raw_taking, result.raw_taking_amount),
        r.reason@ == signal.reason@,
{
    let (fill_usd, fill_shares, fill_avg_price): (Option<Num>, Option<Num>, Option<Num>) =
        match result.fill {
        Some(f) => (Some(f.amount_usd), Some(f.shares), Some(f.avg_price)),
        None => (None, None, None),
    };
    OrderRow {
        mode: mode_label(result.dry_run),
        operation: match signal.operation() {
            OrderOperation::Buy => "BUY",
            OrderOperation::Sell => "SELL",
        },
        side: signal.side.as_str().to_owned(),
        order_type: match &result.intent {
            Some(intent) => joined("market_", intent.clob_order_type.as_str()),
            None => "market".to_owned(),
        },
        price: signal.price,
        amount: signal.amount,
        executed: result.executed,
        submitted: result.submitted,
        dry_run: result.dry_run,
        reject_reason: if result.reject_reason.as_str().unicode_len() == 0 {
            None
        } else {
            Some(result.reject_reason.as_str().to_owned())
        },
        order_id: copy_text(&result.order_id),
        status: copy_text(&result.status),
        fill_usd,
        fill_shares,
        fill_avg_price,
        raw_making: copy_text(&result.raw_making_amount),
        raw_taking: copy_text(&result.raw_taking_amount),
        reason: signal.reason.as_str().to_owned(),
    }
}

} // verus!
