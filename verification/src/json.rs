//! Lookups in JSON documents, by JSON pointer, through `serde_json`.
//! Each lookup parses the document and reads the value the pointer
//! designates; the results are named after the document text and pointer.
//! Flat objects of scalar values are written the same way, and each value
//! reads back at its key.

use vstd::prelude::*;
use crate::chat::opt_view;
use serde_json::Value;

verus! {

/// The string that `serde_json` finds at JSON pointer `ptr` in the document
/// `text` (none when the text is not JSON, nothing is there, or it is not a string).
pub uninterp spec fn spec_json_str_at(text: Seq<char>, ptr: Seq<char>) -> Option<Seq<char>>;

/// The unsigned integer at `ptr` in `text`, when there is one that fits a `u64`.
pub uninterp spec fn spec_json_u64_at(text: Seq<char>, ptr: Seq<char>) -> Option<u64>;

/// The signed integer at `ptr` in `text`, when there is one that fits an `i64`.
pub uninterp spec fn spec_json_i64_at(text: Seq<char>, ptr: Seq<char>) -> Option<i64>;

/// The boolean at `ptr` in `text`, when there is one.
pub uninterp spec fn spec_json_bool_at(text: Seq<char>, ptr: Seq<char>) -> Option<bool>;

/// The length of the array at `ptr` in `text`, when there is an array there.
pub uninterp spec fn spec_json_array_len_at(text: Seq<char>, ptr: Seq<char>) -> Option<usize>;

/// `serde_json::from_str::<Value>(text)`, then `Value::pointer(ptr)` and
/// `Value::as_str`: the string at `ptr`, if the text parses and holds one there.
#[verifier::external_body]
pub(crate) fn json_str_at(text: &str, ptr: &str) -> (r: Option<String>)
    ensures
        opt_view(r) == spec_json_str_at(text@, ptr@),
{
    let v: serde_json::Value = serde_json::from_str(text).ok()?;
    v.pointer(ptr)?.as_str().map(|s| s.to_owned())
}

/// `serde_json::from_str::<Value>(text)`, then `Value::pointer(ptr)` and
/// `Value::as_u64`.
#[verifier::external_body]
pub(crate) fn json_u64_at(text: &str, ptr: &str) -> (r: Option<u64>)
    ensures
        r == spec_json_u64_at(text@, ptr@),
{
    let v: serde_json::Value = serde_json::from_str(text).ok()?;
    v.pointer(ptr)?.as_u64()
}

/// `serde_json::from_str::<Value>(text)`, then `Value::pointer(ptr)` and
/// `Value::as_i64`.
#[verifier::external_body]
pub(crate) fn json_i64_at(text: &str, ptr: &str) -> (r: Option<i64>)
    ensures
        r == spec_json_i64_at(text@, ptr@),
{
    let v: serde_json::Value = serde_json::from_str(text).ok()?;
    v.pointer(ptr)?.as_i64()
}

/// `serde_json::from_str::<Value>(text)`, then `Value::pointer(ptr)` and
/// `Value::as_array` with `Vec::len`.
#[verifier::external_body]
pub(crate) fn json_array_len_at(text: &str, ptr: &str) -> (r: Option<usize>)
    ensures
        r == spec_json_array_len_at(text@, ptr@),
{
    let v: serde_json::Value = serde_json::from_str(text).ok()?;
    v.pointer(ptr)?.as_array().map(|a| a.len())
}

/// `serde_json::from_str::<Value>(text)`, then `Value::pointer(ptr)` and
/// `Value::as_bool`.
#[verifier::external_body]
pub(crate) fn json_bool_at(text: &str, ptr: &str) -> (r: Option<bool>)
    ensures
        r == spec_json_bool_at(text@, ptr@),
{
    let v: serde_json::Value = serde_json::from_str(text).ok()?;
    v.pointer(ptr)?.as_bool()
}

/// A scalar value of a flat JSON object.
pub enum JsonScalar {
    Bool(bool),
    Text(String),
    Unsigned(u64),
    Signed(i64),
    Null,
}

/// A key that a JSON pointer designates as it is: it holds neither `/`
/// nor `~`, which pointers escape.
pub open spec fn plain_key(k: Seq<char>) -> bool {
    forall|j: int| 0 <= j < k.len() ==> k[j] != '/' && k[j] != '~'
}

/// Plain keys, no two the same.
pub open spec fn plain_distinct_keys(entries: Seq<(String, JsonScalar)>) -> bool {
    &&& forall|i: int| 0 <= i < entries.len() ==> plain_key(#[trigger] entries[i].0@)
    &&& forall|i: int, j: int|
        0 <= i < j < entries.len() ==> #[trigger] entries[i].0@ != #[trigger] entries[j].0@
}

/// Reading the document `text` at the entry's key gives the entry's value back.
pub open spec fn reads_back(text: Seq<char>, entry: (String, JsonScalar)) -> bool {
    let ptr = "/"@ + entry.0@;
    match entry.1 {
        JsonScalar::Bool(b) => spec_json_bool_at(text, ptr) == Some(b),
        JsonScalar::Text(t) => spec_json_str_at(text, ptr) == Some(t@),
        JsonScalar::Unsigned(n) => spec_json_u64_at(text, ptr) == Some(n),
        JsonScalar::Signed(n) => spec_json_i64_at(text, ptr) == Some(n),
        JsonScalar::Null => {
            &&& spec_json_bool_at(text, ptr) is None
            &&& spec_json_str_at(text, ptr) is None
            &&& spec_json_u64_at(text, ptr) is None
            &&& spec_json_i64_at(text, ptr) is None
        },
    }
}

/// A `serde_json::Map` filled by `insert` with each entry, written by
/// `Value::to_string` as an object. Parsed back by `serde_json::from_str`,
/// the pointer `/key` of each entry designates its value, which `as_bool`,
/// `as_str`, `as_u64` or `as_i64` gives back as it was (`null` gives none of
/// them); the keys are plain and distinct, so no insert hides another.
#[verifier::external_body]
pub(crate) fn json_object_text(entries: &Vec<(String, JsonScalar)>) -> (t: String)
    requires
        plain_distinct_keys(entries@),
    ensures
        forall|i: int| 0 <= i < entries@.len() ==> #[trigger] reads_back(t@, entries@[i]),
{
    let mut m = serde_json::Map::new();
    for (k, v) in entries {
        let v = match v {
            JsonScalar::Bool(b) => Value::from(*b),
            JsonScalar::Text(s) => Value::from(s.as_str()),
            JsonScalar::Unsigned(n) => Value::from(*n),
            JsonScalar::Signed(n) => Value::from(*n),
            JsonScalar::Null => Value::Null,
        };
        m.insert(k.clone(), v);
    }
    Value::Object(m).to_string()
}

} // verus!
