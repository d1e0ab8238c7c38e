//! JSON values of `serde_json` and what they hold.

use vstd::prelude::*;
use vstd::utf8::encode_utf8;
use crate::text::{decimal, owned};

verus! {

/// A JSON value of `serde_json`.
#[verifier::external_type_specification]
#[verifier::external_body]
pub struct ExValue(serde_json::Value);

/// What a JSON value holds. A number is held by the numeral that stands for it in JSON text.
pub enum JsonModel {
    Null,
    Bool(bool),
    Number(Seq<char>),
    Text(Seq<char>),
    Array(Seq<JsonModel>),
    Object(Map<Seq<char>, JsonModel>),
}

impl JsonModel {
    /// The member of an object under `key`; null where there is no such member.
    pub open spec fn member(self, key: Seq<char>) -> JsonModel {
        match self {
            JsonModel::Object(m) => if m.contains_key(key) {
                m[key]
            } else {
                JsonModel::Null
            },
            _ => JsonModel::Null,
        }
    }

    /// The element of an array at `i`; null where there is no such element.
    pub open spec fn element(self, i: int) -> JsonModel {
        match self {
            JsonModel::Array(items) => if 0 <= i < items.len() {
                items[i]
            } else {
                JsonModel::Null
            },
            _ => JsonModel::Null,
        }
    }

    /// The object without members.
    pub open spec fn empty() -> JsonModel {
        JsonModel::Object(Map::empty())
    }

    /// An object with one more member, or another value for a member that it has.
    pub open spec fn with(self, key: Seq<char>, value: JsonModel) -> JsonModel {
        match self {
            JsonModel::Object(m) => JsonModel::Object(m.insert(key, value)),
            _ => self,
        }
    }

    /// The characters of a JSON string; nothing for any other value.
    pub open spec fn text(self) -> Option<Seq<char>> {
        match self {
            JsonModel::Text(s) => Some(s),
            _ => None,
        }
    }
}

/// The object that a list of fields makes: of two fields with one key the later counts.
pub open spec fn object(fields: Seq<(String, serde_json::Value)>) -> JsonModel
    decreases fields.len(),
{
    if fields.len() == 0 {
        JsonModel::empty()
    } else {
        object(fields.drop_last()).with(fields.last().0@, json_model(fields.last().1))
    }
}

/// The numeral of an integer.
pub open spec fn integer(n: int) -> Seq<char> {
    if n < 0 {
        seq!['-'] + decimal((-n) as nat)
    } else {
        decimal(n as nat)
    }
}

/// What a value of `serde_json` holds.
pub uninterp spec fn json_model(v: serde_json::Value) -> JsonModel;

/// What each value of a list holds.
pub open spec fn json_models(list: Seq<serde_json::Value>) -> Seq<JsonModel> {
    list.map_values(|v: serde_json::Value| json_model(v))
}

/// What `serde_json::from_slice` reads in bytes: a value, or the text of the error.
pub uninterp spec fn json_of_bytes(bytes: Seq<u8>) -> Result<JsonModel, Seq<char>>;

/// What `serde_json::from_str` reads in a text: a value, or the text of the error.
pub uninterp spec fn json_of_text(s: Seq<char>) -> Result<JsonModel, Seq<char>>;

/// The compact JSON text of a value, as `Display` of `serde_json::Value` writes it.
pub uninterp spec fn json_text(m: JsonModel) -> Seq<char>;

/// The bytes of the compact JSON text of a value.
pub open spec fn json_bytes(m: JsonModel) -> Seq<u8> {
    encode_utf8(json_text(m))
}

/// `serde_json::from_slice` into a `Value`. What it reads, and the text of the error where it
/// reads nothing, is a function of the bytes alone.
#[verifier::external_body]
pub(crate) fn parse_bytes(bytes: &[u8]) -> (r: Result<serde_json::Value, String>)
    ensures
        match r {
            Ok(v) => json_of_bytes(bytes@) == Ok::<JsonModel, Seq<char>>(json_model(v)),
            Err(e) => json_of_bytes(bytes@) == Err::<JsonModel, Seq<char>>(e@),
        },
{
    serde_json::from_slice(bytes).map_err(|e| e.to_string())
}

/// `serde_json::from_str` into a `Value`. What it reads, and the text of the error where it
/// reads nothing, is a function of the text alone.
#[verifier::external_body]
pub(crate) fn parse_text(s: &str) -> (r: Result<serde_json::Value, String>)
    ensures
        match r {
            Ok(v) => json_of_text(s@) == Ok::<JsonModel, Seq<char>>(json_model(v)),
            Err(e) => json_of_text(s@) == Err::<JsonModel, Seq<char>>(e@),
        },
{
    serde_json::from_str(s).map_err(|e| e.to_string())
}

/// `to_string` of a `Value`: its compact JSON text, a function of what the value holds.
#[verifier::external_body]
pub(crate) fn render(v: &serde_json::Value) -> (r: String)
    ensures
        r@ == json_text(json_model(*v)),
{
    v.to_string()
}

/// `clone` of a `Value`: the clone holds the same.
#[verifier::external_body]
pub(crate) fn copy_of(v: &serde_json::Value) -> (r: serde_json::Value)
    ensures
        json_model(r) == json_model(*v),
{
    v.clone()
}

/// Indexing a `Value` by a text: the member of an object, null where there is none.
#[verifier::external_body]
pub(crate) fn member<'a>(v: &'a serde_json::Value, key: &str) -> (r: &'a serde_json::Value)
    ensures
        json_model(*r) == json_model(*v).member(key@),
{
    &v[key]
}

/// Indexing a `Value` by a number: the element of an array, null where there is none.
#[verifier::external_body]
pub(crate) fn element(v: &serde_json::Value, i: usize) -> (r: &serde_json::Value)
    ensures
        json_model(*r) == json_model(*v).element(i as int),
{
    &v[i]
}

/// `Value::as_str`: the text of a JSON string, nothing for any other value.
#[verifier::external_body]
pub(crate) fn as_text(v: &serde_json::Value) -> (r: Option<&str>)
    ensures
        r.deep_view() == json_model(*v).text(),
{
    v.as_str()
}

/// `Value::as_array`: the elements of an array, nothing for any other value.
#[verifier::external_body]
pub(crate) fn as_items(v: &serde_json::Value) -> (r: Option<&Vec<serde_json::Value>>)
    ensures
        match r {
            Some(items) => json_model(*v) == JsonModel::Array(json_models(items@)),
            None => !(json_model(*v) is Array),
        },
{
    v.as_array()
}

/// `Value::is_object`.
#[verifier::external_body]
pub(crate) fn is_object(v: &serde_json::Value) -> (r: bool)
    ensures
        r == (json_model(*v) is Object),
{
    v.is_object()
}

/// `Value::Null`.
#[verifier::external_body]
pub(crate) fn null() -> (r: serde_json::Value)
    ensures
        json_model(r) == JsonModel::Null,
{
    serde_json::Value::Null
}

/// `Value::String`.
#[verifier::external_body]
pub(crate) fn text_value(s: String) -> (r: serde_json::Value)
    ensures
        json_model(r) == JsonModel::Text(s@),
{
    serde_json::Value::String(s)
}

/// `Value::from` a whole number.
#[verifier::external_body]
pub(crate) fn number_value(n: i64) -> (r: serde_json::Value)
    ensures
        json_model(r) == JsonModel::Number(integer(n as int)),
{
    serde_json::Value::from(n)
}

/// `Value::Array`.
#[verifier::external_body]
pub(crate) fn array_value(items: Vec<serde_json::Value>) -> (r: serde_json::Value)
    ensures
        json_model(r) == JsonModel::Array(json_models(items@)),
{
    serde_json::Value::Array(items)
}

/// `serde_json::Map::from_iter`, as a `Value::Object`: of two fields with one key the later
/// counts.
#[verifier::external_body]
pub(crate) fn object_value(fields: Vec<(String, serde_json::Value)>) -> (r: serde_json::Value)
    ensures
        json_model(r) == object(fields@),
{
    serde_json::Value::Object(serde_json::Map::from_iter(fields))
}

/// A JSON string with the characters of `s`.
pub(crate) fn text(s: &str) -> (r: serde_json::Value)
    ensures
        json_model(r) == JsonModel::Text(s@),
{
    text_value(owned(s))
}

/// An object that is being put together.
pub(crate) struct Fields {
    list: Vec<(String, serde_json::Value)>,
}

impl View for Fields {
    type V = JsonModel;

    closed spec fn view(&self) -> JsonModel {
        object(self.list@)
    }
}

impl Fields {
    pub(crate) fn new() -> (r: Self)
        ensures
            r@ == JsonModel::empty(),
    {
        Fields { list: Vec::new() }
    }

    pub(crate) fn with(self, key: &str, value: serde_json::Value) -> (r: Self)
        ensures
            r@ == self@.with(key@, json_model(value)),
    {
        let ghost before = self.list@;
        let mut list = self.list;
        list.push((owned(key), value));
        proof {
            assert(list@.drop_last() =~= before);
        }
        Fields { list }
    }

    pub(crate) fn with_text(self, key: &str, value: &str) -> (r: Self)
        ensures
            r@ == self@.with(key@, JsonModel::Text(value@)),
    {
        self.with(key, text(value))
    }

    pub(crate) fn build(self) -> (r: serde_json::Value)
        ensures
            json_model(r) == self@,
    {
        object_value(self.list)
    }
}

} // verus!
