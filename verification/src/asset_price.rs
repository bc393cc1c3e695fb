//! Per-asset spot/strike ranges and display formatting for up/down crypto markets.
use crate::num::Num;
use crate::number_format::{fixed_of, push_fixed};
use crate::text::{same_text, to_uppercase, uppercase};
use vstd::prelude::*;
use vstd::string::*;

verus! {

/// The largest finite double.
pub open spec fn largest() -> Num {
    Num { bits: 0x7FEF_FFFF_FFFF_FFFF }
}

pub open spec fn supported(asset: Seq<char>) -> bool {
    let a = uppercase(asset);
    a == "BTC"@ || a == "ETH"@ || a == "SOL"@ || a == "XRP"@ || a == "DOGE"@
}

/// Whether the engine trades the asset.
pub fn is_supported(asset: &str) -> (r: bool)
    ensures
        r == supported(asset@),
{
    let up: String = to_uppercase(asset);
    let a: &str = up.as_str();
    same_text(a, "BTC") || same_text(a, "ETH") || same_text(a, "SOL") || same_text(a, "XRP")
        || same_text(a, "DOGE")
}

/// Lowest plausible strike of an asset, by its upper-case name.
pub open spec fn strike_floor(a: Seq<char>) -> Num {
    if a == "BTC"@ {
        Num::uint(1_000)
    } else if a == "ETH"@ {
        Num::uint(100)
    } else if a == "SOL"@ {
        Num::uint(1)
    } else if a == "XRP"@ {
        Num::ratio(1, 100)
    } else if a == "DOGE"@ {
        Num::ratio(1, 10_000)
    } else {
        Num::zero()
    }
}

/// Highest plausible strike of an asset, by its upper-case name.
pub open spec fn strike_ceiling(a: Seq<char>) -> Num {
    if a == "BTC"@ {
        Num::uint(2_000_000)
    } else if a == "ETH"@ {
        Num::uint(50_000)
    } else if a == "SOL"@ {
        Num::uint(10_000)
    } else if a == "XRP"@ {
        Num::uint(100)
    } else if a == "DOGE"@ {
        Num::uint(10)
    } else {
        largest()
    }
}

pub fn strike_min(asset: &str) -> (r: Num)
    ensures
        r == strike_floor(uppercase(asset@)),
{
    let up: String = to_uppercase(asset);
    let a: &str = up.as_str();
    if same_text(a, "BTC") {
        Num::uint(1_000)
    } else if same_text(a, "ETH") {
        Num::uint(100)
    } else if same_text(a, "SOL") {
        Num::uint(1)
    } else if same_text(a, "XRP") {
        Num::ratio(1, 100)
    } else if same_text(a, "DOGE") {
        Num::ratio(1, 10_000)
    } else {
        Num::zero()
    }
}

pub fn strike_max(asset: &str) -> (r: Num)
    ensures
        r == strike_ceiling(uppercase(asset@)),
{
    let up: String = to_uppercase(asset);
    let a: &str = up.as_str();
    if same_text(a, "BTC") {
        Num::uint(2_000_000)
    } else if same_text(a, "ETH") {
        Num::uint(50_000)
    } else if same_text(a, "SOL") {
        Num::uint(10_000)
    } else if same_text(a, "XRP") {
        Num::uint(100)
    } else if same_text(a, "DOGE") {
        Num::uint(10)
    } else {
        Num { bits: 0x7FEF_FFFF_FFFF_FFFF }
    }
}

/// Whether a price to beat cannot be the window's open price: not positive, outside
/// the asset's strike range, or more than three times off the spot.
pub open spec fn implausible(asset: Seq<char>, ptb: Num, spot: Num) -> bool {
    ||| ptb.le(Num::zero())
    ||| spot.le(Num::zero())
    ||| ptb.lt(strike_floor(uppercase(asset)))
    ||| ptb.gt(strike_ceiling(uppercase(asset)))
    ||| (ptb / spot).max(spot / ptb).gt(Num::uint(3))
}

/// True when parsed PTB cannot be the window open price (e.g. datetime digits mistaken for strike).
pub fn ptb_implausible(asset: &str, ptb: Num, spot: Num) -> (r: bool)
    ensures
        r == implausible(asset@, ptb, spot),
{
    if ptb.le(Num::zero()) || spot.le(Num::zero()) {
        return true;
    }
    if ptb.lt(strike_min(asset)) || ptb.gt(strike_max(asset)) {
        return true;
    }
    let ratio: Num = (ptb / spot).max(spot / ptb);
    ratio.gt(Num::uint(3))
}

/// Decimals that prices of an asset are shown with, by its upper-case name.
pub open spec fn price_places(a: Seq<char>) -> nat {
    if a == "BTC"@ || a == "ETH"@ {
        2
    } else if a == "SOL"@ {
        4
    } else if a == "XRP"@ || a == "DOGE"@ {
        6
    } else {
        4
    }
}

pub open spec fn asset_price_text(asset: Seq<char>, price: Num) -> Seq<char> {
    seq!['$'] + fixed_of(price, price_places(uppercase(asset)))
}

/// A price with the asset's decimals.
pub fn format_asset_price(asset: &str, price: Num) -> (r: String)
    ensures
        r@ == asset_price_text(asset@, price),
{
    let up: String = to_uppercase(asset);
    let a: &str = up.as_str();
    let places: usize = if same_text(a, "BTC") || same_text(a, "ETH") {
        2
    } else if same_text(a, "XRP") || same_text(a, "DOGE") {
        6
    } else {
        4
    };
    proof {
        reveal_strlit("BTC");
        reveal_strlit("ETH");
        reveal_strlit("SOL");
        reveal_strlit("XRP");
        reveal_strlit("DOGE");
        assert("SOL"@[0] == 'S' && "XRP"@[0] == 'X' && "DOGE"@[0] == 'D');
    }
    let mut out: String = String::new();
    out.push('$');
    push_fixed(&mut out, price, places);
    assert(out@ =~= asset_price_text(asset@, price));
    out
}

/// A volatility figure, written as a price of the asset.
pub fn format_atr(asset: &str, atr: Num) -> (r: String)
    ensures
        r@ == asset_price_text(asset@, atr),
{
    format_asset_price(asset, atr)
}

} // verus!
