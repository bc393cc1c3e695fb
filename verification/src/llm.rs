//! Directional forecasts by a language model: the request, the prompt and the reply.
use crate::client::{MarketWindow, PricesState};
use crate::json::{json_of, read_json, Json};
use crate::llm_context::LlmRecentWindowContext;
use crate::num::Num;
use crate::number_format::{fixed, fixed_of, int_text, int_text_of};
use crate::strategy::{LlmForecast, SpotSignalSnapshot};
use crate::text::{
    chars_of, fill, fill1, fill2, filled, find_from, find_last, first_place, last_place, same_text,
    text_of_range, to_uppercase, trim_text, trimmed, uppercase, views,
};
use vstd::prelude::*;

verus! {

/// What a forecast is asked about.
#[derive(Debug, Clone)]
pub struct LlmForecastRequest {
    pub asset: String,
    pub interval: String,
    pub current_time_utc: String,
    pub current_spot: Option<Num>,
    pub current_atr: Num,
    pub prices: PricesState,
    pub market: MarketWindow,
    pub secs_to_start: i64,
    pub spot_signal: SpotSignalSnapshot,
    pub recent_context: LlmRecentWindowContext,
}

/// The fields of a reply.
#[derive(Debug, Clone)]
pub struct LlmForecastWire {
    pub side: String,
    pub confidence: Num,
    pub signal_strength: Option<String>,
    pub reason_short: Option<String>,
    pub key_drivers: Option<Vec<String>>,
    pub risk_note: Option<String>,
}

/// The endpoint of a model in a project.
pub open spec fn model_url(project_id: Seq<char>, model: Seq<char>) -> Seq<char> {
    filled(
        "https://us-central1-aiplatform.googleapis.com/v1/projects/{}/locations/us-central1/publishers/google/models/{}:generateContent"@,
        seq![project_id, model],
    )
}

pub fn forecast_url(project_id: &str, model: &str) -> (r: String)
    ensures
        r@ == model_url(project_id@, model@),
{
    fill2(
        "https://us-central1-aiplatform.googleapis.com/v1/projects/{}/locations/us-central1/publishers/google/models/{}:generateContent",
        project_id,
        model,
    )
}

/// The project that a service account's key belongs to.
pub fn project_of_key(key: &Json) -> (r: Result<String, String>)
    ensures
        match (r, key.str_at("project_id"@)) {
            (Ok(t), Some(s)) => t@ == s,
            (Err(e), None) => e@ == "llm.json is missing project_id"@,
            _ => false,
        },
{
    match key.get_str("project_id") {
        Some(s) => Ok(s.to_owned()),
        None => Err("llm.json is missing project_id".to_owned()),
    }
}

/// The project that a key file's text belongs to; what is said of a text that is no JSON
/// comes back as it is.
pub fn project_of_key_text(text: &str) -> (r: Result<String, String>)
    ensures
        match (r, json_of(text@)) {
            (Ok(t), Ok(key)) => key.str_at("project_id"@) == Some(t@),
            (Err(e), Ok(key)) => key.str_at("project_id"@) is None && e@
                == "llm.json is missing project_id"@,
            (Err(e), Err(fault)) => e@ == fault,
            (Ok(_), Err(_)) => false,
        },
{
    match read_json(text) {
        Ok(key) => project_of_key(&key),
        Err(e) => Err(e),
    }
}

/// What is said of a key file that is not there.
pub fn key_not_found(path: &str) -> (r: String)
    ensures
        r@ == filled("LLM credentials not found: {}"@, seq![path@]),
{
    fill1("LLM credentials not found: {}", path)
}

/// What is said of a request that was refused.
pub fn forecast_refused(status: &str, text: &str) -> (r: String)
    ensures
        r@ == filled("Vertex forecast failed: {} {}"@, seq![status@, text@]),
{
    fill2("Vertex forecast failed: {} {}", status, text)
}

/// The prompt. Its places take the asset, the interval and the opening time; then, as the
/// entries of the input document, asset, interval, opening time, current time, seconds to
/// the start, spot, volatility, the four prices, the two asks together, and the three
/// spot signals.
pub const DIRECTION_PROMPT: &'static str = "You are a short-horizon directional signal assistant for Polymarket crypto UP/DOWN windows.\n\nTask:\nA new Polymarket {} Up/Down {} window opens at {}.\nBefore the window opens, choose which ONE side is directionally preferable to buy near parity: UP or DOWN.\n\nImportant:\n- You are NOT deciding whether the trade is allowed.\n- Assume the trading bot will only buy if ask is near parity, around 0.48-0.52.\n- Your job is only to provide a directional micro-prior.\n- Do not chase current contract prices.\n- Since PTB is set at window open, focus on likely short-term direction AFTER the open.\n- If evidence is weak, still choose UP or DOWN, but use low confidence.\n- Output strict JSON only.\n\nInput JSON:\n{\n\"asset\": \"{}\",\n\"interval\": \"{}\",\n\"open_time_utc\": \"{}\",\n\"current_time_utc\": \"{}\",\n\"secs_to_start\": {},\n\"current_spot\": {},\n\"atr_1m\": {},\n\"up_bid\": {},\n\"up_ask\": {},\n\"down_bid\": {},\n\"down_ask\": {},\n\"combined_ask\": {},\n\"raw_velocity_usd_per_sec\": {},\n\"smoothed_velocity_usd_per_sec\": {},\n\"acceleration_usd_per_sec2\": {}\n}\n\nReturn JSON schema:\n{\n\"side\": \"UP or DOWN\",\n\"confidence\": 0.0,\n\"signal_strength\": \"weak | medium | strong\",\n\"reason_short\": \"one sentence\",\n\"key_drivers\": [\"driver 1\", \"driver 2\", \"driver 3\"],\n\"risk_note\": \"one sentence\"\n}";

/// A number with six decimals, or `null`.
pub open spec fn opt_num_text(value: Option<Num>) -> Seq<char> {
    match value {
        Some(v) => fixed_of(v, 6),
        None => "null"@,
    }
}

pub fn opt_num(value: Option<Num>) -> (r: String)
    ensures
        r@ == opt_num_text(value),
{
    match value {
        Some(v) => fixed(v, 6),
        None => "null".to_owned(),
    }
}

pub open spec fn spot_text(value: Option<Num>) -> Seq<char> {
    match value {
        Some(p) => fixed_of(p, 4),
        None => "null"@,
    }
}

pub open spec fn direction_prompt(req: LlmForecastRequest) -> Seq<char> {
    filled(
        DIRECTION_PROMPT@,
        seq![
            req.asset@,
            req.interval@,
            req.market.start_time@,
            req.asset@,
            req.interval@,
            req.market.start_time@,
            req.current_time_utc@,
            int_text_of(req.secs_to_start as int),
            spot_text(req.current_spot),
            fixed_of(req.current_atr, 4),
            fixed_of(req.prices.up.bid, 4),
            fixed_of(req.prices.up.ask, 4),
            fixed_of(req.prices.down.bid, 4),
            fixed_of(req.prices.down.ask, 4),
            fixed_of(req.prices.up.ask + req.prices.down.ask, 4),
            opt_num_text(req.spot_signal.raw_velocity_usd_per_sec),
            opt_num_text(req.spot_signal.smoothed_velocity_usd_per_sec),
            opt_num_text(req.spot_signal.acceleration_usd_per_sec2),
        ],
    )
}

pub fn build_direction_prompt(req: &LlmForecastRequest) -> (r: String)
    ensures
        r@ == direction_prompt(*req),
{
    let spot: String = match req.current_spot {
        Some(p) => fixed(p, 4),
        None => "null".to_owned(),
    };
    let raw_velocity: String = opt_num(req.spot_signal.raw_velocity_usd_per_sec);
    let smoothed_velocity: String = opt_num(req.spot_signal.smoothed_velocity_usd_per_sec);
    let acceleration: String = opt_num(req.spot_signal.acceleration_usd_per_sec2);
    let secs: String = int_text(req.secs_to_start);
    let atr: String = fixed(req.current_atr, 4);
    let up_bid: String = fixed(req.prices.up.bid, 4);
    let up_ask: String = fixed(req.prices.up.ask, 4);
    let down_bid: String = fixed(req.prices.down.bid, 4);
    let down_ask: String = fixed(req.prices.down.ask, 4);
    let combined: String = fixed(req.prices.up.ask + req.prices.down.ask, 4);
    let values: [&str; 18] = [
        req.asset.as_str(),
        req.interval.as_str(),
        req.market.start_time.as_str(),
        req.asset.as_str(),
        req.interval.as_str(),
        req.market.start_time.as_str(),
        req.current_time_utc.as_str(),
        secs.as_str(),
        spot.as_str(),
        atr.as_str(),
        up_bid.as_str(),
        up_ask.as_str(),
        down_bid.as_str(),
        down_ask.as_str(),
        combined.as_str(),
        raw_velocity.as_str(),
        smoothed_velocity.as_str(),
        acceleration.as_str(),
    ];
    assert(views(values@) =~= seq![
        req.asset@,
        req.interval@,
        req.market.start_time@,
        req.asset@,
        req.interval@,
        req.market.start_time@,
        req.current_time_utc@,
        secs@,
        spot@,
        atr@,
        up_bid@,
        up_ask@,
        down_bid@,
        down_ask@,
        combined@,
        raw_velocity@,
        smoothed_velocity@,
        acceleration@,
    ]);
    fill(DIRECTION_PROMPT, &values)
}

/// The first text that a reply's candidates hold.
pub open spec fn first_text(candidates: Seq<Vec<String>>) -> Option<Seq<char>> {
    if candidates.len() > 0 && candidates[0]@.len() > 0 {
        Some(candidates[0]@[0]@)
    } else {
        None
    }
}

/// The first text of the first candidate, without white space at its ends.
pub fn reply_text(candidates: &Vec<Vec<String>>) -> (r: Result<String, String>)
    ensures
        match (r, first_text(candidates@)) {
            (Ok(t), Some(s)) => t@ == trimmed(s),
            (Err(e), None) => e@ == "Vertex forecast response has no text"@,
            _ => false,
        },
{
    if candidates.len() > 0 && candidates[0].len() > 0 {
        Ok(trim_text(candidates[0][0].as_str()))
    } else {
        Err("Vertex forecast response has no text".to_owned())
    }
}

/// What stands from the first opening brace to the last closing one; none where one of
/// them is missing or they stand the other way round.
pub open spec fn json_object_in(s: Seq<char>) -> Option<Seq<char>> {
    let start = first_place(s, '{') as int;
    let end = last_place(s, '}') as int;
    if start < s.len() && end > start {
        Some(s.subrange(start, end))
    } else {
        None
    }
}

pub fn extract_json_object(text: &str) -> (r: Option<String>)
    ensures
        match (r, json_object_in(text@)) {
            (Some(t), Some(s)) => t@ == s,
            (None, None) => true,
            _ => false,
        },
{
    let v: Vec<char> = chars_of(text);
    let start: usize = find_from(&v, 0, '{');
    assert(v@.skip(0) == v@);
    let end: usize = find_last(&v, '}');
    if start < v.len() && end > start {
        Some(text_of_range(&v, start, end))
    } else {
        None
    }
}

/// The document that a reply is read as: its JSON object, or all of it without one.
pub open spec fn reply_document(s: Seq<char>) -> Seq<char> {
    match json_object_in(s) {
        Some(t) => trimmed(t),
        None => trimmed(s),
    }
}

pub fn forecast_document(text: &str) -> (r: String)
    ensures
        r@ == reply_document(text@),
{
    match extract_json_object(text) {
        Some(t) => trim_text(t.as_str()),
        None => trim_text(text),
    }
}

/// The side that a reply names.
pub open spec fn named_side(side: Seq<char>) -> Seq<char> {
    uppercase(trimmed(side))
}

pub open spec fn text_or(t: Option<String>, other: Seq<char>) -> Seq<char> {
    match t {
        Some(s) => s@,
        None => other,
    }
}

/// The forecast of a reply: UP or DOWN, a confidence between 0 and 1, and blanks for what
/// is missing. Any other side is refused.
pub fn forecast_from_wire(wire: LlmForecastWire) -> (r: Result<LlmForecast, String>)
    ensures
        r is Ok <==> named_side(wire.side@) == "UP"@ || named_side(wire.side@) == "DOWN"@,
        match r {
            Ok(f) => {
                &&& f.side@ == named_side(wire.side@)
                &&& f.confidence == wire.confidence.clamp(Num::zero(), Num::one())
                &&& f.signal_strength@ == text_or(wire.signal_strength, "unknown"@)
                &&& f.reason_short@ == text_or(wire.reason_short, Seq::<char>::empty())
                &&& f.key_drivers@ == match wire.key_drivers {
                    Some(v) => v@,
                    None => Seq::<String>::empty(),
                }
                &&& f.risk_note@ == text_or(wire.risk_note, Seq::<char>::empty())
            },
            Err(e) => e@ == filled("Invalid LLM side: {}"@, seq![wire.side@]),
        },
{
    let trimmed_side: String = trim_text(wire.side.as_str());
    let side: String = to_uppercase(trimmed_side.as_str());
    if !same_text(side.as_str(), "UP") && !same_text(side.as_str(), "DOWN") {
        return Err(fill1("Invalid LLM side: {}", wire.side.as_str()));
    }
    Ok(
        LlmForecast {
            side,
            confidence: wire.confidence.clamp(Num::zero(), Num::one()),
            signal_strength: match wire.signal_strength {
                Some(s) => s,
                None => "unknown".to_owned(),
            },
            reason_short: match wire.reason_short {
                Some(s) => s,
                None => String::new(),
            },
            key_drivers: match wire.key_drivers {
                Some(v) => v,
                None => Vec::new(),
            },
            risk_note: match wire.risk_note {
                Some(s) => s,
                None => String::new(),
            },
        },
    )
}

} // verus!
