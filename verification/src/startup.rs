//! Starting a session: arguments, the run's directory and the first lines of its log.
use crate::asset_price::{is_supported, supported};
use crate::j_fees::EndgameFeeComparison;
use crate::number_format::{fixed, fixed_of};
use crate::num::Num;
use crate::text::{
    fill1, fill2, fill4, filled, lowercase, same_text, to_lowercase, to_uppercase, uppercase,
};
use vstd::prelude::*;

verus! {

/// What the arguments ask for.
#[derive(Debug)]
pub enum Start {
    Help,
    Unsupported(String),
    Run { asset: String, interval: String },
}

/// The argument at a place, or a default.
pub open spec fn arg_or(args: Seq<String>, i: int, other: Seq<char>) -> Seq<char> {
    if i < args.len() {
        args[i]@
    } else {
        other
    }
}

/// The arguments behind the program's name: an asset, upper case, BTC by default, and an
/// interval, lower case, 5m by default.
pub fn parse_args(args: &[String]) -> (r: Start)
    ensures
        ({
            let asset = uppercase(arg_or(args@, 1, "BTC"@));
            if args@.len() > 1 && (args@[1]@ == "--help"@ || args@[1]@ == "-h"@) {
                r is Help
            } else if !supported(asset) {
                r matches Start::Unsupported(a) && a@ == asset
            } else {
                r matches Start::Run { asset: a, interval: i } && a@ == asset && i@ == lowercase(
                    arg_or(args@, 2, "5m"@),
                )
            }
        }),
{
    if args.len() > 1 && (same_text(args[1].as_str(), "--help") || same_text(
        args[1].as_str(),
        "-h",
    )) {
        return Start::Help;
    }
    let asset: String = if args.len() > 1 {
        to_uppercase(args[1].as_str())
    } else {
        to_uppercase("BTC")
    };
    if !is_supported(asset.as_str()) {
        return Start::Unsupported(asset);
    }
    let interval: String = if args.len() > 2 {
        to_lowercase(args[2].as_str())
    } else {
        to_lowercase("5m")
    };
    Start::Run { asset, interval }
}

pub fn unsupported_message(asset: &str) -> (r: String)
    ensures
        r@ == filled(
            "Unsupported asset: {}. Supported: BTC, ETH, SOL, XRP, DOGE"@,
            seq![asset@],
        ),
{
    fill1("Unsupported asset: {}. Supported: BTC, ETH, SOL, XRP, DOGE", asset)
}

/// The directory of a run's logs.
pub fn run_log_dir(run_id: &str, asset: &str, interval: &str, strategy: &str) -> (r: String)
    ensures
        r@ == filled(
            "logs/runs/{}_{}_{}_{}"@,
            seq![run_id@, lowercase(asset@), interval@, strategy@],
        ),
{
    let name: String = to_lowercase(asset);
    fill4("logs/runs/{}_{}_{}_{}", run_id, name.as_str(), interval, strategy)
}

/// That forecasts are on.
pub fn llm_ready(model: &str, location: &str) -> (r: String)
    ensures
        r@ == filled(
            "[LLM] OK | Vertex forecast enabled via llm.json | model: {} | location: {}"@,
            seq![model@, location@],
        ),
{
    fill2(
        "[LLM] OK | Vertex forecast enabled via llm.json | model: {} | location: {}",
        model,
        location,
    )
}

/// That forecasts are off, and why.
pub fn llm_disabled(why: &str) -> (r: String)
    ensures
        r@ == filled("[LLM] Disabled | {}"@, seq![why@]),
{
    fill1("[LLM] Disabled | {}", why)
}

/// What a dollar's clip nets after fees.
pub fn fee_model_line(fee_bps: Num, c: &EndgameFeeComparison) -> (r: String)
    ensures
        r@ == filled(
            "[J] Fee model $1 clip ({}bps): buy@98 net ${} | buy@99 net ${} | scalp 98/99 net ${}"@,
            seq![
                fixed_of(fee_bps, 0),
                fixed_of(c.buy_98_net, 4),
                fixed_of(c.buy_99_net, 4),
                fixed_of(c.scalp_98_99_net, 4),
            ],
        ),
{
    fill4(
        "[J] Fee model $1 clip ({}bps): buy@98 net ${} | buy@99 net ${} | scalp 98/99 net ${}",
        fixed(fee_bps, 0).as_str(),
        fixed(c.buy_98_net, 4).as_str(),
        fixed(c.buy_99_net, 4).as_str(),
        fixed(c.scalp_98_99_net, 4).as_str(),
    )
}

} // verus!
