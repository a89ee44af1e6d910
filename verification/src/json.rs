//! JSON documents as the library reads them.
//!
//! Parsing is serde_json's: `parse_json` hands a text to
//! `serde_json::from_str` and rebuilds the result as a [`JsonValue`].  What
//! the grammar accepts and builds is named (`parsed_json`), not restated; the
//! library's own logic then reads the value through the verified accessors
//! below, whose contracts are stated over the model [`JsonModel`].
use vstd::prelude::*;

use crate::text::{chars_of, eq_chars};

verus! {

/// `serde_json::Value`, declared so that the converter below can name it.
#[verifier::external_type_specification]
#[verifier::external_body]
pub struct ExSerdeJsonValue(serde_json::Value);

/// A parsed JSON value.  A number keeps what the library reads of it: its
/// value as an `i64` when it is an integer in that range
/// (`serde_json::Value::as_i64`), `None` otherwise.  An object lists its
/// members in serde_json's iteration order.
#[derive(Debug)]
pub enum JsonValue {
    Null,
    Bool(bool),
    Number(Option<i64>),
    Str(String),
    Array(Vec<JsonValue>),
    Object(Vec<(String, JsonValue)>),
}

/// The mathematical model of a [`JsonValue`]: strings by their characters.
pub enum JsonModel {
    Null,
    Bool(bool),
    Number(Option<i64>),
    Str(Seq<char>),
    Array(Seq<JsonModel>),
    Object(Seq<(Seq<char>, JsonModel)>),
}

impl JsonValue {
    /// The model of this value.
    pub open spec fn model(self) -> JsonModel
        decreases self,
    {
        match self {
            JsonValue::Null => JsonModel::Null,
            JsonValue::Bool(b) => JsonModel::Bool(b),
            JsonValue::Number(n) => JsonModel::Number(n),
            JsonValue::Str(s) => JsonModel::Str(s@),
            JsonValue::Array(items) => JsonModel::Array(
                Seq::new(
                    items@.len(),
                    |i: int|
                        if 0 <= i < items@.len() {
                            items@[i].model()
                        } else {
                            JsonModel::Null
                        },
                ),
            ),
            JsonValue::Object(entries) => JsonModel::Object(
                Seq::new(
                    entries@.len(),
                    |i: int|
                        if 0 <= i < entries@.len() {
                            (entries@[i].0@, entries@[i].1.model())
                        } else {
                            (Seq::empty(), JsonModel::Null)
                        },
                ),
            ),
        }
    }
}

impl View for JsonValue {
    type V = JsonModel;

    open spec fn view(&self) -> JsonModel {
        self.model()
    }
}

/// The model of an optional value.
pub open spec fn opt_model(v: Option<JsonValue>) -> Option<JsonModel> {
    match v {
        Some(x) => Some(x@),
        None => None,
    }
}

/// The model of an optional borrowed value.
pub open spec fn opt_ref_model(v: Option<&JsonValue>) -> Option<JsonModel> {
    match v {
        Some(x) => Some(x@),
        None => None,
    }
}

/// What `serde_json::from_str::<serde_json::Value>` yields for `text`:
/// `None` where it reports an error.
pub uninterp spec fn parsed_json(text: Seq<char>) -> Option<JsonModel>;

/// Parses one JSON document with `serde_json::from_str::<serde_json::Value>`.
/// The contract only names the outcome: it claims that it depends on the
/// text alone, and nothing about which texts parse or what they build.
#[verifier::external_body]
pub(crate) fn parse_json(text: &str) -> (r: Option<JsonValue>)
    ensures
        opt_model(r) == parsed_json(text@),
{
    match serde_json::from_str::<serde_json::Value>(text) {
        Ok(v) => Some(json_from_serde(v)),
        Err(_) => None,
    }
}

/// Rebuilds a serde_json value as a [`JsonValue`], variant for variant; a
/// number keeps `serde_json::Number::as_i64`.  Only `parse_json` calls it,
/// and nothing is claimed of it beyond what `parse_json` states.
#[verifier::external_body]
fn json_from_serde(v: serde_json::Value) -> JsonValue {
    match v {
        serde_json::Value::Null => JsonValue::Null,
        serde_json::Value::Bool(b) => JsonValue::Bool(b),
        serde_json::Value::Number(n) => JsonValue::Number(n.as_i64()),
        serde_json::Value::String(s) => JsonValue::Str(s),
        serde_json::Value::Array(items) => JsonValue::Array(
            items.into_iter().map(json_from_serde).collect(),
        ),
        serde_json::Value::Object(map) => JsonValue::Object(
            map.into_iter().map(|(k, x)| (k, json_from_serde(x))).collect(),
        ),
    }
}

// ---------------------------------------------------------------------------
// Reading a value
// ---------------------------------------------------------------------------

/// The value of the first member named `key` in `entries`.
pub open spec fn entry_lookup(entries: Seq<(Seq<char>, JsonModel)>, key: Seq<char>) -> Option<
    JsonModel,
>
    decreases entries.len(),
{
    if entries.len() == 0 {
        None
    } else if entries[0].0 == key {
        Some(entries[0].1)
    } else {
        entry_lookup(entries.skip(1), key)
    }
}

/// `serde_json::Value::get` with a string key: the member `key` of an
/// object, `None` for any other value.
pub open spec fn json_get(v: JsonModel, key: Seq<char>) -> Option<JsonModel> {
    match v {
        JsonModel::Object(entries) => entry_lookup(entries, key),
        _ => None,
    }
}

/// `serde_json::Value::as_str`.
pub open spec fn json_str(v: JsonModel) -> Option<Seq<char>> {
    match v {
        JsonModel::Str(s) => Some(s),
        _ => None,
    }
}

/// `serde_json::Value::as_i64`.
pub open spec fn json_i64(v: JsonModel) -> Option<i64> {
    match v {
        JsonModel::Number(n) => n,
        _ => None,
    }
}

/// `serde_json::Value::as_array`.
pub open spec fn json_array(v: JsonModel) -> Option<Seq<JsonModel>> {
    match v {
        JsonModel::Array(items) => Some(items),
        _ => None,
    }
}

/// The string member `key` of `v`, if `v` is an object with such a member
/// and it is a string.
pub open spec fn str_field(v: JsonModel, key: Seq<char>) -> Option<Seq<char>> {
    match json_get(v, key) {
        Some(x) => json_str(x),
        None => None,
    }
}

impl JsonValue {
    /// The member `key` of an object (the first one, should the object
    /// name it twice); `None` for any other value.
    pub fn get(&self, key: &str) -> (r: Option<&JsonValue>)
        ensures
            opt_ref_model(r) == json_get(self@, key@),
    {
        match self {
            JsonValue::Object(entries) => {
                let kc = chars_of(key);
                assert(self@ is Object);
                let ghost es = self@->Object_0;
                let mut i: usize = 0;
                assert(es.skip(0) =~= es);
                while i < entries.len()
                    invariant
                        i <= entries@.len(),
                        es.len() == entries@.len(),
                        self@ == JsonModel::Object(es),
                        kc@ == key@,
                        forall|j: int|
                            0 <= j < entries@.len() ==> #[trigger] es[j] == (
                                entries@[j].0@,
                                entries@[j].1@,
                            ),
                        entry_lookup(es, key@) == entry_lookup(es.skip(i as int), key@),
                    decreases entries@.len() - i,
                {
                    let name = chars_of(entries[i].0.as_str());
                    assert(es.skip(i as int)[0] == es[i as int]);
                    if eq_chars(name.as_slice(), kc.as_slice()) {
                        assert(es[i as int] == (entries@[i as int].0@, entries@[i as int].1@));
                        return Some(&entries[i].1);
                    }
                    assert(es.skip(i as int).skip(1) =~= es.skip(i + 1));
                    i = i + 1;
                }
                None
            },
            _ => None,
        }
    }

    /// The text of a string value.
    pub fn as_str(&self) -> (r: Option<&str>)
        ensures
            match r {
                Some(s) => json_str(self@) == Some(s@),
                None => json_str(self@) is None,
            },
    {
        match self {
            JsonValue::Str(s) => Some(s.as_str()),
            _ => None,
        }
    }

    /// The value of an integer number that fits an `i64`.
    pub fn as_i64(&self) -> (r: Option<i64>)
        ensures
            r == json_i64(self@),
    {
        match self {
            JsonValue::Number(n) => *n,
            _ => None,
        }
    }

    /// The items of an array.
    pub fn as_array(&self) -> (r: Option<&Vec<JsonValue>>)
        ensures
            match r {
                Some(items) => json_array(self@) matches Some(ms) && ms.len() == items@.len()
                    && forall|j: int| 0 <= j < ms.len() ==> #[trigger] ms[j] == items@[j]@,
                None => json_array(self@) is None,
            },
    {
        match self {
            JsonValue::Array(items) => Some(items),
            _ => None,
        }
    }

    /// The string member `key`, if this is an object with such a member and
    /// it is a string.
    pub fn str_field(&self, key: &str) -> (r: Option<&str>)
        ensures
            match r {
                Some(s) => str_field(self@, key@) == Some(s@),
                None => str_field(self@, key@) is None,
            },
    {
        match self.get(key) {
            Some(x) => x.as_str(),
            None => None,
        }
    }
}

} // verus!
