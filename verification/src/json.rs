//! A JSON document modelled with plain values, and the trusted boundary
//! to the `serde_json` parser that produces one from text.

use vstd::prelude::*;
use vstd::string::*;

verus! {

/// A parsed JSON value. Numbers keep only what the library reads of
/// them: their value when they are an unsigned 64-bit integer, and
/// nothing otherwise. An object is a list of key/value pairs with
/// distinct keys, in the order the parser hands them out.
pub enum JsonValue {
    Null,
    Bool(bool),
    UInt(u64),
    NonUIntNumber,
    Text(String),
    Array(Vec<JsonValue>),
    Object(Vec<(String, JsonValue)>),
}

/// The value under `key` in `pairs`: the first pair whose key matches.
pub open spec fn lookup(pairs: Seq<(String, JsonValue)>, key: Seq<char>) -> Option<JsonValue>
    decreases pairs.len(),
{
    if pairs.len() == 0 {
        None
    } else if pairs[0].0@ == key {
        Some(pairs[0].1)
    } else {
        lookup(pairs.drop_first(), key)
    }
}

/// The field of `v` under `key`, when `v` is an object that has one.
pub open spec fn field_of(v: JsonValue, key: Seq<char>) -> Option<JsonValue> {
    match v {
        JsonValue::Object(pairs) => lookup(pairs@, key),
        _ => None,
    }
}

impl JsonValue {
    /// Looks `key` up in `self`, as `field_of` describes.
    #[verifier::loop_isolation(false)]
    pub fn get<'a>(&'a self, key: &String) -> (r: Option<&'a JsonValue>)
        ensures
            match r {
                Some(f) => field_of(*self, key@) == Some(*f),
                None => field_of(*self, key@) is None,
            },
    {
        match self {
            JsonValue::Object(pairs) => {
                proof {
                    assert(pairs@.skip(0) =~= pairs@);
                }
                let mut i: usize = 0;
                while i < pairs.len()
                    invariant
                        0 <= i <= pairs@.len(),
                        lookup(pairs@, key@) == lookup(pairs@.skip(i as int), key@),
                    decreases pairs@.len() - i,
                {
                    proof {
                        assert(pairs@.skip(i as int).drop_first() =~= pairs@.skip(i + 1));
                        assert(pairs@.skip(i as int)[0] == pairs@[i as int]);
                    }
                    if pairs[i].0.eq(key) {
                        proof {
                            assert(lookup(pairs@.skip(i as int), key@) == Some(
                                pairs@[i as int].1,
                            ));
                        }
                        return Some(&pairs[i].1);
                    }
                    i = i + 1;
                }
                proof {
                    assert(pairs@.skip(i as int) =~= Seq::<(String, JsonValue)>::empty());
                }
                None
            },
            _ => None,
        }
    }
}

/// What `serde_json::from_str::<Value>` yields on `text`, carried into
/// the library's model: the parsed document on well-formed input, the
/// parser's error message otherwise.
pub uninterp spec fn json_parse(text: Seq<char>) -> Result<JsonValue, Seq<char>>;

#[verifier::external_type_specification]
#[verifier::external_body]
pub struct ExValue(serde_json::Value);

/// Relies on `serde_json::Value`: each variant is carried over to the
/// library's model one for one, a number through `Number::as_u64`.
#[verifier::external_body]
fn from_serde_value(v: serde_json::Value) -> JsonValue {
    match v {
        serde_json::Value::Null => JsonValue::Null,
        serde_json::Value::Bool(b) => JsonValue::Bool(b),
        serde_json::Value::Number(n) => n.as_u64().map_or(JsonValue::NonUIntNumber, JsonValue::UInt),
        serde_json::Value::String(s) => JsonValue::Text(s),
        serde_json::Value::Array(a) => JsonValue::Array(a.into_iter().map(from_serde_value).collect()),
        serde_json::Value::Object(m) => JsonValue::Object(m.into_iter().map(|(k, w)| (k, from_serde_value(w))).collect()),
    }
}

/// Relies on `serde_json::from_str::<Value>`: the parse result is a
/// function of the input text alone, and the message of a failed parse
/// comes from the error's `Display`.
#[verifier::external_body]
pub fn parse_json_text(text: &str) -> (r: Result<JsonValue, String>)
    ensures
        (match r {
            Ok(v) => json_parse(text@) == Ok::<JsonValue, Seq<char>>(v),
            Err(e) => json_parse(text@) == Err::<JsonValue, Seq<char>>(e@),
        }),
{
    match serde_json::from_str::<serde_json::Value>(text) {
        Ok(value) => Ok(from_serde_value(value)),
        Err(error) => Err(error.to_string()),
    }
}

} // verus!
