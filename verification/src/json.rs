//! JSON values as the library holds them.
//!
//! Parsed JSON, cell values, filter values and statement parameters are all
//! [JsonValue]s. Each is viewed as a [Json] model value. Parsing and printing
//! go through `serde_json`.
use vstd::prelude::*;

use crate::text::{i64_text, int_text, u64_text};

verus! {

broadcast use vstd::std_specs::vec::group_vec_axioms;

#[verifier::external_type_specification]
#[verifier::external_body]
pub struct ExSerdeValue(serde_json::Value);

#[verifier::external_type_specification]
#[verifier::external_body]
pub struct ExSerdeNumber(serde_json::Number);

/// A JSON number.
#[derive(Debug, PartialEq)]
pub enum JsonNumber {
    /// A non-negative integer.
    PosInt(u64),
    /// A negative integer.
    NegInt(i64),
    /// A finite floating-point number, held as its JSON text (as `serde_json` prints it).
    Float(String),
}

/// A JSON value.
#[derive(Debug, PartialEq)]
pub enum JsonValue {
    Null,
    Bool(bool),
    Number(JsonNumber),
    String(String),
    Array(Vec<JsonValue>),
    Object(Vec<(String, JsonValue)>),
}

/// The mathematical model of a JSON value.
pub enum Json {
    Null,
    Bool(bool),
    Int(int),
    Float(Seq<char>),
    Str(Seq<char>),
    Arr(Seq<Json>),
    Obj(Seq<(Seq<char>, Json)>),
}

impl JsonNumber {
    pub open spec fn model(&self) -> Json {
        match self {
            JsonNumber::PosInt(n) => Json::Int(*n as int),
            JsonNumber::NegInt(n) => Json::Int(*n as int),
            JsonNumber::Float(t) => Json::Float(t@),
        }
    }
}

impl JsonValue {
    pub open spec fn model(&self) -> Json
        decreases self,
    {
        match self {
            JsonValue::Null => Json::Null,
            JsonValue::Bool(b) => Json::Bool(*b),
            JsonValue::Number(n) => n.model(),
            JsonValue::String(s) => Json::Str(s@),
            JsonValue::Array(v) => Json::Arr(
                Seq::new(v@.len(), |i: int| if 0 <= i < v@.len() { v@[i].model() } else { Json::Null }),
            ),
            JsonValue::Object(v) => Json::Obj(
                Seq::new(
                    v@.len(),
                    |i: int|
                        if 0 <= i < v@.len() {
                            (v@[i].0@, v@[i].1.model())
                        } else {
                            (Seq::empty(), Json::Null)
                        },
                ),
            ),
        }
    }
}

impl View for JsonValue {
    type V = Json;

    open spec fn view(&self) -> Json {
        self.model()
    }
}

/// The models of a list of JSON values.
pub open spec fn json_views(v: Seq<JsonValue>) -> Seq<Json> {
    Seq::new(v.len(), |i: int| v[i]@)
}

impl Clone for JsonNumber {
    fn clone(&self) -> (r: Self)
        ensures
            r.model() == self.model(),
    {
        match self {
            JsonNumber::PosInt(n) => JsonNumber::PosInt(*n),
            JsonNumber::NegInt(n) => JsonNumber::NegInt(*n),
            JsonNumber::Float(t) => JsonNumber::Float(t.clone()),
        }
    }
}

impl Clone for JsonValue {
    #[verifier::loop_isolation(false)]
    fn clone(&self) -> (r: Self)
        ensures
            r@ == self@,
        decreases self,
    {
        match self {
            JsonValue::Null => JsonValue::Null,
            JsonValue::Bool(b) => JsonValue::Bool(*b),
            JsonValue::Number(n) => JsonValue::Number(n.clone()),
            JsonValue::String(s) => JsonValue::String(s.clone()),
            JsonValue::Array(v) => {
                let mut out: Vec<JsonValue> = Vec::new();
                let mut i: usize = 0;
                while i < v.len()
                    invariant
                        i <= v.len(),
                        out@.len() == i,
                        forall|j: int| 0 <= j < i ==> out@[j]@ == v@[j]@,
                    decreases v.len() - i,
                {
                    proof {
                        assert(decreases_to!(*v => v[i as int]));
                    }
                    let c = v[i].clone();
                    out.push(c);
                    i += 1;
                }
                let r = JsonValue::Array(out);
                assert(r@ == self@) by {
                    if let Json::Arr(a) = r@ {
                        if let Json::Arr(b) = self@ {
                            assert(a =~= b);
                        }
                    }
                }
                r
            },
            JsonValue::Object(v) => {
                let mut out: Vec<(String, JsonValue)> = Vec::new();
                let mut i: usize = 0;
                while i < v.len()
                    invariant
                        i <= v.len(),
                        out@.len() == i,
                        forall|j: int| 0 <= j < i ==> out@[j].0@ == v@[j].0@ && out@[j].1@ == v@[j].1@,
                    decreases v.len() - i,
                {
                    proof {
                        assert(decreases_to!(*v => v[i as int]));
                        assert(decreases_to!(v[i as int] => v[i as int].1));
                    }
                    let k = v[i].0.clone();
                    let c = v[i].1.clone();
                    out.push((k, c));
                    i += 1;
                }
                let r = JsonValue::Object(out);
                assert(r@ == self@) by {
                    if let Json::Obj(a) = r@ {
                        if let Json::Obj(b) = self@ {
                            assert(a =~= b);
                        }
                    }
                }
                r
            },
        }
    }
}

/// A JSON string value.
pub fn json_str(s: &str) -> (r: JsonValue)
    ensures
        r@ == Json::Str(s@),
{
    JsonValue::String(String::from_str(s))
}

/// A JSON integer value, in the representation `serde_json` gives it.
pub fn json_i64(n: i64) -> (r: JsonValue)
    ensures
        r@ == Json::Int(n as int),
{
    if n < 0 {
        JsonValue::Number(JsonNumber::NegInt(n))
    } else {
        JsonValue::Number(JsonNumber::PosInt(n as u64))
    }
}

/// A JSON integer value for an unsigned number.
pub fn json_u64(n: u64) -> (r: JsonValue)
    ensures
        r@ == Json::Int(n as int),
{
    JsonValue::Number(JsonNumber::PosInt(n))
}

/// A JSON array holding clones of the given values.
pub fn json_array(values: &Vec<JsonValue>) -> (r: JsonValue)
    ensures
        r@ == Json::Arr(json_views(values@)),
{
    let mut out: Vec<JsonValue> = Vec::new();
    let mut i: usize = 0;
    while i < values.len()
        invariant
            i <= values.len(),
            out@.len() == i,
            forall|j: int| 0 <= j < i ==> out@[j]@ == values@[j]@,
        decreases values.len() - i,
    {
        out.push(values[i].clone());
        i += 1;
    }
    let r = JsonValue::Array(out);
    assert(r@ == Json::Arr(json_views(values@))) by {
        if let Json::Arr(a) = r@ {
            assert(a =~= json_views(values@));
        }
    }
    r
}

// ---------------------------------------------------------------------------
// Text of JSON values
// ---------------------------------------------------------------------------

/// The compact JSON text of a value (`Display` of `serde_json::Value`).
pub uninterp spec fn json_text_spec(j: Json) -> Seq<char>;

/// The `Debug` text that `serde_json` gives the items of an array (`Vec<Value>`) or
/// the fields of an object (`Map<String, Value>`); for other values, the `Debug` text
/// of the value itself.
pub uninterp spec fn json_debug_spec(j: Json) -> Seq<char>;

/// What `serde_json::from_str::<Value>` parses the text to, or `None` where it reports an error.
pub uninterp spec fn json_parse_spec(text: Seq<char>) -> Option<Json>;

/// Where `str::parse::<f64>` accepts the text: `Some` of what `serde_json` makes of that
/// number (`None` when it is not finite: such a number becomes JSON null);
/// `None` where the text is not a floating-point literal.
pub uninterp spec fn float_literal_spec(text: Seq<char>) -> Option<Option<Seq<char>>>;

/// The text of a number as `serde_json` prints it.
pub open spec fn number_text(j: Json) -> Seq<char> {
    match j {
        Json::Int(n) => int_text(n),
        Json::Float(t) => t,
        _ => Seq::empty(),
    }
}

/// The text of a boolean.
pub open spec fn bool_text(b: bool) -> Seq<char> {
    if b { "true"@ } else { "false"@ }
}

/// The text of a JSON number.
pub fn number_to_text(n: &JsonNumber) -> (r: String)
    ensures
        r@ == number_text(n.model()),
{
    match n {
        JsonNumber::PosInt(u) => u64_text(*u),
        JsonNumber::NegInt(i) => i64_text(*i),
        JsonNumber::Float(t) => t.clone(),
    }
}

/// `true` or `false`.
pub fn bool_to_text(b: bool) -> (r: String)
    ensures
        r@ == bool_text(b),
{
    if b { String::from_str("true") } else { String::from_str("false") }
}

/// The compact JSON text of a value: `null`, `true` and `false`, numbers as
/// [number_text] writes them, and strings, arrays and objects as `serde_json` prints them.
pub open spec fn json_display(j: Json) -> Seq<char> {
    match j {
        Json::Null => "null"@,
        Json::Bool(b) => bool_text(b),
        Json::Int(_) => number_text(j),
        Json::Float(_) => number_text(j),
        _ => json_text_spec(j),
    }
}

/// The compact JSON text of a value, as `format!("{value}")` gives it for a
/// `serde_json::Value`. Numbers and booleans are printed here; other values by `serde_json`.
pub fn json_to_text(v: &JsonValue) -> (r: String)
    ensures
        r@ == json_display(v@),
{
    match v {
        JsonValue::Null => String::from_str("null"),
        JsonValue::Bool(b) => bool_to_text(*b),
        JsonValue::Number(n) => number_to_text(n),
        _ => serde_text(v),
    }
}

/// `serde_json`'s compact text of a value.
#[verifier::external_body]
fn serde_text(v: &JsonValue) -> (r: String)
    ensures
        r@ == json_text_spec(v@),
{
    to_serde(v).to_string()
}

/// The `Debug` text that `serde_json` gives the items of an array or the fields of an object.
#[verifier::external_body]
pub(crate) fn json_debug_text(v: &JsonValue) -> (r: String)
    ensures
        r@ == json_debug_spec(v@),
{
    match to_serde(v) {
        serde_json::Value::Array(items) => format!("{items:?}"),
        serde_json::Value::Object(fields) => format!("{fields:?}"),
        other => format!("{other:?}"),
    }
}

/// `serde_json::from_str::<Value>`: the value the text holds, or `None` on a parse error.
#[verifier::external_body]
pub(crate) fn json_parse(text: &str) -> (r: Option<JsonValue>)
    ensures
        match r {
            Some(v) => json_parse_spec(text@) == Some(v@),
            None => json_parse_spec(text@) is None,
        },
{
    serde_json::from_str::<serde_json::Value>(text).ok().map(|v| from_serde(&v))
}

/// `str::parse` of a floating-point literal, turned into a JSON number by `serde_json`
/// (`Number::from_f64`, then its text).
#[verifier::external_body]
pub(crate) fn float_literal(text: &str) -> (r: Option<Option<String>>)
    ensures
        match r {
            Some(Some(t)) => float_literal_spec(text@) == Some(Some(t@)),
            Some(None) => float_literal_spec(text@) == Some(None::<Seq<char>>),
            None => float_literal_spec(text@) is None,
        },
{
    text.parse().ok().map(|f| serde_json::Number::from_f64(f).map(|n| n.to_string()))
}

/// Converts a number to a `serde_json::Value`; a float's text is read back by `serde_json`.
#[verifier::external_body]
fn number_to_serde(n: &JsonNumber) -> serde_json::Value {
    match n {
        JsonNumber::PosInt(n) => serde_json::Value::from(*n),
        JsonNumber::NegInt(n) => serde_json::Value::from(*n),
        JsonNumber::Float(t) => serde_json::from_str(t).unwrap_or_default(),
    }
}

/// Converts to a `serde_json::Value`.
#[verifier::external_body]
pub(crate) fn to_serde(v: &JsonValue) -> serde_json::Value {
    match v {
        JsonValue::Null => serde_json::Value::Null,
        JsonValue::Bool(b) => serde_json::Value::Bool(*b),
        JsonValue::Number(n) => number_to_serde(n),
        JsonValue::String(s) => serde_json::Value::String(s.clone()),
        JsonValue::Array(items) => serde_json::Value::Array(items.iter().map(to_serde).collect()),
        JsonValue::Object(fields) => serde_json::Value::Object(fields.iter().map(|(k, v)| (k.clone(), to_serde(v))).collect()),
    }
}

/// Converts a `serde_json::Number`: an unsigned or a signed integer where it is one, else
/// the number's text.
#[verifier::external_body]
fn number_from_serde(n: &serde_json::Number) -> JsonNumber {
    match (n.as_u64(), n.as_i64()) {
        (Some(u), _) => JsonNumber::PosInt(u),
        (None, Some(i)) => JsonNumber::NegInt(i),
        (None, None) => JsonNumber::Float(n.to_string()),
    }
}

/// Converts from a `serde_json::Value`.
#[verifier::external_body]
pub(crate) fn from_serde(v: &serde_json::Value) -> JsonValue {
    match v {
        serde_json::Value::Null => JsonValue::Null,
        serde_json::Value::Bool(b) => JsonValue::Bool(*b),
        serde_json::Value::Number(n) => JsonValue::Number(number_from_serde(n)),
        serde_json::Value::String(s) => JsonValue::String(s.clone()),
        serde_json::Value::Array(items) => JsonValue::Array(items.iter().map(from_serde).collect()),
        serde_json::Value::Object(fields) => JsonValue::Object(fields.iter().map(|(k, v)| (k.clone(), from_serde(v))).collect()),
    }
}

} // verus!
