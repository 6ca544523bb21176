//! The library's model of a parsed JSON document, and the trusted boundary to
//! serde_json, which does the actual parsing and rendering. All logic that
//! reads a parsed value works on [`JsonValue`] and is verified; only the
//! conversion at the boundary is taken on trust.
use vstd::prelude::*;
use crate::strutil::str_eq;

verus! {

/// A JSON number, as serde_json classifies it: an unsigned integer, a negative
/// integer, or some other number kept as its rendered text.
pub enum JsonNum {
    UInt(u64),
    Int(i64),
    Other(String),
}

/// A JSON value held as plain library data.
pub enum JsonValue {
    Null,
    Bool(bool),
    Num(JsonNum),
    Str(String),
    Arr(Vec<JsonValue>),
    Obj(Vec<(String, JsonValue)>),
}

#[verifier::ext_equal]
pub enum JsonNumV {
    UInt(u64),
    Int(i64),
    Other(Seq<char>),
}

/// The mathematical shape of a [`JsonValue`]: strings as character sequences,
/// vectors as sequences.
#[verifier::ext_equal]
pub enum JsonV {
    Null,
    Bool(bool),
    Num(JsonNumV),
    Str(Seq<char>),
    Arr(Seq<JsonV>),
    Obj(Seq<(Seq<char>, JsonV)>),
}

pub open spec fn num_view(n: JsonNum) -> JsonNumV {
    match n {
        JsonNum::UInt(u) => JsonNumV::UInt(u),
        JsonNum::Int(i) => JsonNumV::Int(i),
        JsonNum::Other(s) => JsonNumV::Other(s@),
    }
}

pub open spec fn json_view(v: JsonValue) -> JsonV
    decreases v,
{
    match v {
        JsonValue::Null => JsonV::Null,
        JsonValue::Bool(b) => JsonV::Bool(b),
        JsonValue::Num(n) => JsonV::Num(num_view(n)),
        JsonValue::Str(s) => JsonV::Str(s@),
        JsonValue::Arr(items) => JsonV::Arr(json_view_seq(items@)),
        JsonValue::Obj(fields) => JsonV::Obj(json_view_fields(fields@)),
    }
}

pub open spec fn json_view_seq(s: Seq<JsonValue>) -> Seq<JsonV>
    decreases s,
{
    if s.len() == 0 {
        Seq::empty()
    } else {
        seq![json_view(s[0])] + json_view_seq(s.drop_first())
    }
}

pub open spec fn json_view_fields(s: Seq<(String, JsonValue)>) -> Seq<(Seq<char>, JsonV)>
    decreases s,
{
    if s.len() == 0 {
        Seq::empty()
    } else {
        seq![(s[0].0@, json_view(s[0].1))] + json_view_fields(s.drop_first())
    }
}

/// The viewed sequence is the sequence of views.
pub proof fn lemma_json_view_seq(s: Seq<JsonValue>)
    ensures
        json_view_seq(s).len() == s.len(),
        forall|i: int| 0 <= i < s.len() ==> json_view_seq(s)[i] == json_view(s[i]),
    decreases s.len(),
{
    if s.len() > 0 {
        lemma_json_view_seq(s.drop_first());
    }
}

/// The viewed field list pairs each key's view with its value's view.
pub proof fn lemma_json_view_fields(s: Seq<(String, JsonValue)>)
    ensures
        json_view_fields(s).len() == s.len(),
        forall|i: int|
            0 <= i < s.len() ==> json_view_fields(s)[i] == (s[i].0@, json_view(s[i].1)),
    decreases s.len(),
{
    if s.len() > 0 {
        lemma_json_view_fields(s.drop_first());
    }
}

impl View for JsonValue {
    type V = JsonV;

    open spec fn view(&self) -> JsonV {
        json_view(*self)
    }
}

/// The value under `key` in an object's field list: the first binding wins.
pub open spec fn spec_obj_get(fields: Seq<(Seq<char>, JsonV)>, key: Seq<char>) -> Option<JsonV>
    decreases fields.len(),
{
    if fields.len() == 0 {
        None
    } else if fields[0].0 == key {
        Some(fields[0].1)
    } else {
        spec_obj_get(fields.drop_first(), key)
    }
}

/// Field lookup: `None` on anything that is not an object holding `key`.
pub open spec fn spec_get(v: JsonV, key: Seq<char>) -> Option<JsonV> {
    match v {
        JsonV::Obj(fields) => spec_obj_get(fields, key),
        _ => None,
    }
}

/// The string under `key`, if the value is an object and the field a string.
pub open spec fn spec_get_str(v: JsonV, key: Seq<char>) -> Option<Seq<char>> {
    match spec_get(v, key) {
        Some(JsonV::Str(s)) => Some(s),
        _ => None,
    }
}

/// An integer as serde_json's `as_i64` reads it.
pub open spec fn spec_as_i64(v: JsonV) -> Option<i64> {
    match v {
        JsonV::Num(JsonNumV::UInt(u)) => if u <= i64::MAX as u64 {
            Some(u as i64)
        } else {
            None
        },
        JsonV::Num(JsonNumV::Int(i)) => Some(i),
        _ => None,
    }
}

/// An unsigned integer as serde_json's `as_u64` reads it.
pub open spec fn spec_as_u64(v: JsonV) -> Option<u64> {
    match v {
        JsonV::Num(JsonNumV::UInt(u)) => Some(u),
        _ => None,
    }
}

impl JsonValue {
    /// Look a field up in an object value; the first binding wins.
    pub fn get<'a>(&'a self, key: &str) -> (r: Option<&'a JsonValue>)
        ensures
            match r {
                Some(x) => spec_get(self@, key@) == Some(x@),
                None => spec_get(self@, key@) is None,
            },
    {
        match self {
            JsonValue::Obj(fields) => {
                let ghost fs = json_view_fields(fields@);
                let n = fields.len();
                assert(fs =~= fs.skip(0));
                for i in 0..n
                    invariant
                        n == fields@.len(),
                        fs == json_view_fields(fields@),
                        self@ == JsonV::Obj(fs),
                        spec_obj_get(fs, key@) == spec_obj_get(fs.skip(i as int), key@),
                {
                    proof {
                        lemma_json_view_fields(fields@);
                        assert(fs.skip(i as int)[0] == fs[i as int]);
                    }
                    if str_eq(fields[i].0.as_str(), key) {
                        return Some(&fields[i].1);
                    }
                    assert(fs.skip(i as int).drop_first() =~= fs.skip(i + 1 as int));
                }
                proof {
                    lemma_json_view_fields(fields@);
                    assert(fs.skip(n as int).len() == 0);
                }
                None
            },
            _ => None,
        }
    }

    /// The string a field holds, if the field is there and is a string.
    pub fn get_str<'a>(&'a self, key: &str) -> (r: Option<&'a String>)
        ensures
            match r {
                Some(s) => spec_get_str(self@, key@) == Some(s@),
                None => spec_get_str(self@, key@) is None,
            },
    {
        match self.get(key) {
            Some(JsonValue::Str(s)) => Some(s),
            _ => None,
        }
    }

    pub fn is_array(&self) -> (r: bool)
        ensures
            r == (self@ is Arr),
    {
        match self {
            JsonValue::Arr(_) => true,
            _ => false,
        }
    }

    /// The integer this value holds, read as serde_json's `as_i64` does.
    pub fn as_i64(&self) -> (r: Option<i64>)
        ensures
            r == spec_as_i64(self@),
    {
        match self {
            JsonValue::Num(JsonNum::UInt(u)) => {
                if *u <= i64::MAX as u64 {
                    Some(*u as i64)
                } else {
                    None
                }
            },
            JsonValue::Num(JsonNum::Int(i)) => Some(*i),
            _ => None,
        }
    }

    /// The unsigned integer this value holds, as serde_json's `as_u64` does.
    pub fn as_u64(&self) -> (r: Option<u64>)
        ensures
            r == spec_as_u64(self@),
    {
        match self {
            JsonValue::Num(JsonNum::UInt(u)) => Some(*u),
            _ => None,
        }
    }
}

/// A deep copy, equal to the original under the view.
pub fn clone_json(v: &JsonValue) -> (r: JsonValue)
    ensures
        r@ == v@,
    decreases *v,
{
    broadcast use vstd::std_specs::vec::group_vec_axioms;

    match v {
        JsonValue::Null => JsonValue::Null,
        JsonValue::Bool(b) => JsonValue::Bool(*b),
        JsonValue::Num(JsonNum::UInt(u)) => JsonValue::Num(JsonNum::UInt(*u)),
        JsonValue::Num(JsonNum::Int(i)) => JsonValue::Num(JsonNum::Int(*i)),
        JsonValue::Num(JsonNum::Other(s)) => JsonValue::Num(JsonNum::Other(s.clone())),
        JsonValue::Str(s) => JsonValue::Str(s.clone()),
        JsonValue::Arr(items) => {
            let n = items.len();
            let mut out: Vec<JsonValue> = Vec::new();
            for i in 0..n
                invariant
                    n == items@.len(),
                    *v == JsonValue::Arr(*items),
                    out@.len() == i,
                    forall|j: int|
                        0 <= j < i ==> json_view(#[trigger] out@[j]) == json_view(items@[j]),
            {
                proof {
                    assert(*items == (*v)->Arr_0);
                    assert(decreases_to!(*v => (*v)->Arr_0));
                    assert(decreases_to!(*items => items@));
                    assert(decreases_to!(items@ => items@[i as int]));
                }
                let c = clone_json(&items[i]);
                out.push(c);
            }
            let r = JsonValue::Arr(out);
            proof {
                lemma_json_view_seq(out@);
                lemma_json_view_seq(items@);
                assert(json_view_seq(out@) =~= json_view_seq(items@));
            }
            r
        },
        JsonValue::Obj(fields) => {
            let n = fields.len();
            let mut out: Vec<(String, JsonValue)> = Vec::new();
            for i in 0..n
                invariant
                    n == fields@.len(),
                    *v == JsonValue::Obj(*fields),
                    out@.len() == i,
                    forall|j: int|
                        0 <= j < i ==> ((#[trigger] out@[j]).0@ == fields@[j].0@ && json_view(
                            out@[j].1,
                        ) == json_view(fields@[j].1)),
            {
                proof {
                    assert(*fields == (*v)->Obj_0);
                    assert(decreases_to!(*v => (*v)->Obj_0));
                    assert(decreases_to!(*fields => fields@));
                    assert(decreases_to!(fields@ => fields@[i as int]));
                    assert(decreases_to!(fields@[i as int] => fields@[i as int].1));
                }
                let k = fields[i].0.clone();
                let c = clone_json(&fields[i].1);
                out.push((k, c));
            }
            let r = JsonValue::Obj(out);
            proof {
                lemma_json_view_fields(out@);
                lemma_json_view_fields(fields@);
                assert(json_view_fields(out@) =~= json_view_fields(fields@));
            }
            r
        },
    }
}

#[verifier::external_type_specification]
#[verifier::external_body]
pub struct ExValue(serde_json::Value);

#[verifier::external_type_specification]
#[verifier::external_body]
pub struct ExNumber(serde_json::Number);

/// Relies on serde_json::Number's accessors: a JSON number is an unsigned
/// integer, a negative integer, or some other number, kept as its text.
#[verifier::external_body]
fn num_of(n: &serde_json::Number) -> JsonNum {
    if let Some(u) = n.as_u64() {
        JsonNum::UInt(u)
    } else if let Some(i) = n.as_i64() {
        JsonNum::Int(i)
    } else {
        JsonNum::Other(n.to_string())
    }
}

/// Relies on serde_json::Value: moves the parsed tree into the library's
/// value model, one arm per variant.
#[verifier::external_body]
fn to_json_value(v: &serde_json::Value) -> JsonValue {
    match v {
        serde_json::Value::Null => JsonValue::Null,
        serde_json::Value::Bool(b) => JsonValue::Bool(*b),
        serde_json::Value::Number(n) => JsonValue::Num(num_of(n)),
        serde_json::Value::String(s) => JsonValue::Str(s.clone()),
        serde_json::Value::Array(a) => JsonValue::Arr(a.iter().map(to_json_value).collect()),
        serde_json::Value::Object(o) => JsonValue::Obj(
            o.iter().map(|(k, x)| (k.clone(), to_json_value(x))).collect(),
        ),
    }
}

/// What parsing a JSON text yields; a function of the text alone.
pub uninterp spec fn parse_json_spec(s: Seq<char>) -> Option<JsonV>;

/// Relies on serde_json::from_str: parses one JSON text or fails, depending on
/// the text alone.
#[verifier::external_body]
pub fn parse_json(s: &str) -> (r: Option<JsonValue>)
    ensures
        match r {
            Some(v) => parse_json_spec(s@) == Some(v@),
            None => parse_json_spec(s@) is None,
        },
{
    match serde_json::from_str::<serde_json::Value>(s) {
        Ok(v) => Some(to_json_value(&v)),
        Err(_) => None,
    }
}

/// Relies on serde_json::Number's `FromStr`: restores a number kept as text.
#[verifier::external_body]
fn to_serde_num(n: &JsonNum) -> serde_json::Number {
    match n {
        JsonNum::UInt(u) => serde_json::Number::from(*u),
        JsonNum::Int(i) => serde_json::Number::from(*i),
        // a kept number text always reparses, since it came from
        // serde_json::Number::to_string; the fallback is unreachable there
        JsonNum::Other(s) => match s.parse::<serde_json::Number>() {
            Ok(num) => num,
            Err(_) => serde_json::Number::from(0u64),
        },
    }
}

/// Relies on serde_json::Value: moves a library value back into serde_json's
/// tree, one arm per variant.
#[verifier::external_body]
fn to_serde_value(v: &JsonValue) -> serde_json::Value {
    match v {
        JsonValue::Null => serde_json::Value::Null,
        JsonValue::Bool(b) => serde_json::Value::Bool(*b),
        JsonValue::Num(n) => serde_json::Value::Number(to_serde_num(n)),
        JsonValue::Str(s) => serde_json::Value::String(s.clone()),
        JsonValue::Arr(items) => serde_json::Value::Array(
            items.iter().map(to_serde_value).collect(),
        ),
        JsonValue::Obj(fields) => serde_json::Value::Object(
            fields.iter().map(|(k, x)| (k.clone(), to_serde_value(x))).collect(),
        ),
    }
}

/// What rendering a value as JSON text yields; a function of the value alone.
pub uninterp spec fn render_of(v: JsonV) -> Seq<char>;

/// Relies on serde_json's `Display` for `Value`: renders a value as compact
/// JSON text, depending on the value alone.
#[verifier::external_body]
pub fn render_json(v: &JsonValue) -> (r: String)
    ensures
        r@ == render_of(v@),
{
    to_serde_value(v).to_string()
}

} // verus!
