//! JSON documents as plain values.
use crate::num::Num;
use crate::number_text::{num_of_text, parse_num};
use crate::text::same_text;
use vstd::prelude::*;

verus! {

/// A JSON value. A number carries its value as a double, as an `i64` and as a `u64`, each
/// where it has one.
#[derive(Debug)]
pub enum Json {
    Null,
    Bool(bool),
    Number(Option<Num>, Option<i64>, Option<u64>),
    Str(String),
    Array(Vec<Json>),
    Object(Vec<(String, Json)>),
}

/// A document as serde_json holds it.
#[verifier::external_type_specification]
#[verifier::external_body]
pub struct ExValue(serde_json::Value);

/// What a document of serde_json holds.
pub uninterp spec fn contents_of(v: serde_json::Value) -> Json;

/// The document that a text holds, or what is said of a text that is no JSON.
pub uninterp spec fn json_of(s: Seq<char>) -> Result<Json, Seq<char>>;

/// The text that serde_json writes for a document.
pub uninterp spec fn json_text_of(v: Json) -> Seq<char>;

/// The document that a text holds; none where the text is no JSON.
pub open spec fn document_of(s: Seq<char>) -> Option<Json> {
    match json_of(s) {
        Ok(d) => Some(d),
        Err(_) => None,
    }
}

/// Calls `serde_json::from_str` for a document of any shape. Whether there is one, what
/// it holds, and what the error says otherwise, is a function of the text.
#[verifier::external_body]
pub(crate) fn read_value(text: &str) -> (r: Result<serde_json::Value, String>)
    ensures
        match (r, json_of(text@)) {
            (Ok(v), Ok(d)) => contents_of(v) == d,
            (Err(e), Err(t)) => e@ == t,
            _ => false,
        },
{
    serde_json::from_str::<serde_json::Value>(text).map_err(|e| e.to_string())
}

/// Takes a `serde_json::Value` apart, variant by variant: a number by `Number::as_f64`,
/// `Number::as_i64` and `Number::as_u64`, an object's entries in the order in which `Map`
/// lists them. What comes out is a function of the value.
#[verifier::external_body]
pub(crate) fn take_contents(v: serde_json::Value) -> (r: Json)
    ensures
        r == contents_of(v),
{
    match v {
        serde_json::Value::Null => Json::Null,
        serde_json::Value::Bool(b) => Json::Bool(b),
        serde_json::Value::Number(n) => {
            Json::Number(n.as_f64().map(|x| Num { bits: x.to_bits() }), n.as_i64(), n.as_u64())
        },
        serde_json::Value::String(s) => Json::Str(s),
        serde_json::Value::Array(a) => Json::Array(a.into_iter().map(take_contents).collect()),
        serde_json::Value::Object(o) => {
            Json::Object(o.into_iter().map(|e| (e.0, take_contents(e.1))).collect())
        },
    }
}

/// Calls `Value::get` with a key: the entry of an object under it, none where there is no
/// such entry or the value is no object.
#[verifier::external_body]
pub(crate) fn value_entry<'a>(v: &'a serde_json::Value, key: &str) -> (r: Option<
    &'a serde_json::Value,
>)
    ensures
        match (r, contents_of(*v).spec_get(key@)) {
            (Some(x), Some(d)) => contents_of(*x) == d,
            (None, None) => true,
            _ => false,
        },
{
    v.get(key)
}

/// Calls `Value::to_string`. The text is a function of what the value holds: numbers are
/// told apart by the three forms in which `Json` keeps them.
#[verifier::external_body]
pub(crate) fn value_text(v: &serde_json::Value) -> (r: String)
    ensures
        r@ == json_text_of(contents_of(*v)),
{
    v.to_string()
}

/// Whether the values hold the items.
pub open spec fn hold_items(values: Seq<serde_json::Value>, items: Seq<Json>) -> bool {
    &&& values.len() == items.len()
    &&& forall|i: int| 0 <= i < values.len() ==> contents_of(#[trigger] values[i]) == items[i]
}

/// Takes the items out of a `serde_json::Value` that is an array; any other value comes
/// back.
#[verifier::external_body]
pub(crate) fn value_items(v: serde_json::Value) -> (r: Result<
    Vec<serde_json::Value>,
    serde_json::Value,
>)
    ensures
        match r {
            Ok(values) => contents_of(v) matches Json::Array(items) && hold_items(values@, items@),
            Err(x) => !(contents_of(v) is Array) && contents_of(x) == contents_of(v),
        },
{
    match v {
        serde_json::Value::Array(a) => Ok(a),
        other => Err(other),
    }
}

/// The document that a text holds.
pub fn parse_json(text: &str) -> (r: Option<Json>)
    ensures
        r == document_of(text@),
{
    match read_value(text) {
        Ok(v) => Some(take_contents(v)),
        Err(_) => None,
    }
}

/// The document that a text holds, or what is said of a text that is no JSON.
pub fn read_json(text: &str) -> (r: Result<Json, String>)
    ensures
        match (r, json_of(text@)) {
            (Ok(v), Ok(d)) => v == d,
            (Err(e), Err(t)) => e@ == t,
            _ => false,
        },
{
    match read_value(text) {
        Ok(v) => Ok(take_contents(v)),
        Err(e) => Err(e),
    }
}

/// The value of the first entry under a key.
pub open spec fn lookup(entries: Seq<(String, Json)>, key: Seq<char>) -> Option<Json>
    decreases entries.len(),
{
    if entries.len() == 0 {
        None
    } else if entries[0].0@ == key {
        Some(entries[0].1)
    } else {
        lookup(entries.drop_first(), key)
    }
}

impl Json {
    pub open spec fn spec_get(self, key: Seq<char>) -> Option<Json> {
        match self {
            Json::Object(entries) => lookup(entries@, key),
            _ => None,
        }
    }

    /// The text under a key; none where the entry is missing or no text.
    pub open spec fn str_at(self, key: Seq<char>) -> Option<Seq<char>> {
        match self.spec_get(key) {
            Some(Json::Str(s)) => Some(s@),
            _ => None,
        }
    }

    /// The items of the array under a key.
    pub open spec fn items_at(self, key: Seq<char>) -> Option<Seq<Json>> {
        match self.spec_get(key) {
            Some(Json::Array(items)) => Some(items@),
            _ => None,
        }
    }

    /// The number that the text under a key denotes.
    pub open spec fn num_text_at(self, key: Seq<char>) -> Option<Num> {
        match self.str_at(key) {
            Some(s) => num_of_text(s),
            None => None,
        }
    }

    /// The entry of an object under a key.
    pub fn get(&self, key: &str) -> (r: Option<&Json>)
        ensures
            match r {
                Some(v) => self.spec_get(key@) == Some(*v),
                None => self.spec_get(key@) is None,
            },
    {
        match self {
            Json::Object(entries) => {
                let mut i: usize = 0;
                assert(entries@.skip(0) == entries@);
                while i < entries.len()
                    invariant
                        i <= entries.len(),
                        lookup(entries@, key@) == lookup(entries@.skip(i as int), key@),
                        self.spec_get(key@) == lookup(entries@, key@),
                    decreases entries.len() - i,
                {
                    assert(entries@.skip(i as int)[0] == entries@[i as int]);
                    if same_text(entries[i].0.as_str(), key) {
                        return Some(&entries[i].1);
                    }
                    assert(entries@.skip(i as int).drop_first() == entries@.skip(i + 1));
                    i = i + 1;
                }
                None
            },
            _ => None,
        }
    }

    /// The text of a JSON string.
    pub fn as_str(&self) -> (r: Option<&str>)
        ensures
            match (r, *self) {
                (Some(t), Json::Str(s)) => t@ == s@,
                (None, Json::Str(_)) => false,
                (Some(_), _) => false,
                (None, _) => true,
            },
    {
        match self {
            Json::Str(s) => Some(s.as_str()),
            _ => None,
        }
    }

    /// The items of a JSON array.
    pub fn as_array(&self) -> (r: Option<&Vec<Json>>)
        ensures
            match (r, *self) {
                (Some(t), Json::Array(s)) => *t == s,
                (None, Json::Array(_)) => false,
                (Some(_), _) => false,
                (None, _) => true,
            },
    {
        match self {
            Json::Array(s) => Some(s),
            _ => None,
        }
    }

    pub fn get_str(&self, key: &str) -> (r: Option<&str>)
        ensures
            match r {
                Some(t) => self.str_at(key@) == Some(t@),
                None => self.str_at(key@) is None,
            },
    {
        match self.get(key) {
            Some(v) => v.as_str(),
            None => None,
        }
    }

    pub fn get_items(&self, key: &str) -> (r: Option<&Vec<Json>>)
        ensures
            match r {
                Some(t) => self.items_at(key@) == Some(t@),
                None => self.items_at(key@) is None,
            },
    {
        match self.get(key) {
            Some(v) => v.as_array(),
            None => None,
        }
    }

    /// The number that the text under a key denotes.
    pub fn get_num_text(&self, key: &str) -> (r: Option<Num>)
        ensures
            r == self.num_text_at(key@),
    {
        match self.get_str(key) {
            Some(t) => parse_num(t),
            None => None,
        }
    }
}

} // verus!
