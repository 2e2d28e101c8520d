//! JSON text, read and written by `serde_json`.

use serde_json::Value;
use tokio_util::bytes::Buf;
use vstd::prelude::*;

use crate::json::{Json, JsonNumber, JsonObject};
use crate::json::{pair_views, put_all, Fields, JsonView};

verus! {

/// `serde_json`'s own JSON tree.
#[verifier::external_type_specification]
#[verifier::external_body]
pub struct ExValue(serde_json::Value);

/// Why `serde_json` could not read or write something.
#[verifier::external_type_specification]
#[verifier::external_body]
pub struct ExJsonError(serde_json::Error);

/// What a `Value` holds.
pub uninterp spec fn value_tree(value: Value) -> JsonView;

/// The bit pattern is that of an infinity or of no number at all.
pub open spec fn float_is_infinite_or_nan(bits: u64) -> bool {
    (bits / 0x10_0000_0000_0000u64) % 2048 == 2047
}

/// How a number is kept by `serde_json`: a negative kind only for numbers below zero,
/// and nothing but `null` for what JSON cannot write.
pub open spec fn settled_number(number: JsonNumber) -> JsonView {
    match number {
        JsonNumber::Negative(n) if n >= 0 => JsonView::Number(JsonNumber::Unsigned(n as u64)),
        JsonNumber::Float(bits) if float_is_infinite_or_nan(bits) => JsonView::Null,
        _ => JsonView::Number(number),
    }
}

/// The same tree with its numbers settled and with the fields of each object in the
/// order of their names, the last of equal names standing.
pub open spec fn settled(tree: JsonView) -> JsonView
    decreases tree,
{
    match tree {
        JsonView::Number(number) => settled_number(number),
        JsonView::Array(items) => JsonView::Array(
            Seq::new(
                items.len(),
                |i: int|
                    if 0 <= i < items.len() {
                        settled(items[i])
                    } else {
                        JsonView::Null
                    },
            ),
        ),
        JsonView::Object(fields) => JsonView::Object(put_all(settled_fields(fields))),
        _ => tree,
    }
}

/// The fields with their values settled.
pub open spec fn settled_fields(fields: Fields) -> Fields
    decreases fields,
{
    Seq::new(
        fields.len(),
        |i: int|
            if 0 <= i < fields.len() {
                (fields[i].0, settled(fields[i].1))
            } else {
                (Seq::empty(), JsonView::Null)
            },
    )
}

/// What `serde_json` reads from a text, if it is JSON.
pub uninterp spec fn text_tree(text: Seq<char>) -> Option<JsonView>;

/// What `serde_json` reads from bytes, if they are JSON.
pub uninterp spec fn bytes_tree(bytes: Seq<u8>) -> Option<JsonView>;

/// The compact notation that `serde_json` gives a tree, as bytes.
pub uninterp spec fn tree_bytes(tree: JsonView) -> Option<Seq<u8>>;

/// The compact notation that `serde_json` gives a tree, as text.
pub uninterp spec fn tree_text(tree: JsonView) -> Option<Seq<char>>;

/// The notation that `serde_json` gives the floating point number of these bits.
pub uninterp spec fn float_text(bits: u64) -> Seq<char>;

/// One level of a `Value`.
enum ValuePart {
    Null,
    Bool(bool),
    Number(JsonNumber),
    Text(String),
    Array(Vec<Value>),
    Object(Vec<(String, Value)>),
}

/// What `serde_json` values hold, in order.
spec fn value_items(items: Seq<Value>) -> Seq<JsonView> {
    items.map_values(|item: Value| value_tree(item))
}

/// The tree that begins with this level.
spec fn part_tree(part: ValuePart) -> JsonView {
    match part {
        ValuePart::Null => JsonView::Null,
        ValuePart::Bool(value) => JsonView::Bool(value),
        ValuePart::Number(number) => JsonView::Number(number),
        ValuePart::Text(text) => JsonView::Text(text@),
        ValuePart::Array(items) => JsonView::Array(value_items(items@)),
        ValuePart::Object(fields) => JsonView::Object(value_fields(fields@)),
    }
}

/// The tree with its first level settled.
spec fn kept(tree: JsonView) -> JsonView {
    match tree {
        JsonView::Number(number) => settled_number(number),
        JsonView::Object(fields) => JsonView::Object(put_all(fields)),
        _ => tree,
    }
}

/// Builds one level of a `Value`: a number by `Value::from`, which keeps integers of at
/// least zero as unsigned and turns infinities and NaN into `Null`; an object by
/// collecting a `Map`, which keeps the names in order and the last of equal names.
#[verifier::external_body]
fn make_value(part: ValuePart) -> (res: Value)
    ensures
        value_tree(res) == kept(part_tree(part)),
{
    match part {
        ValuePart::Null => Value::Null,
        ValuePart::Bool(value) => Value::Bool(value),
        ValuePart::Number(JsonNumber::Unsigned(n)) => Value::from(n),
        ValuePart::Number(JsonNumber::Negative(n)) => Value::from(n),
        ValuePart::Number(JsonNumber::Float(bits)) => Value::from((&bits.to_be_bytes()[..]).get_f64()),
        ValuePart::Text(text) => Value::String(text),
        ValuePart::Array(items) => Value::Array(items),
        ValuePart::Object(fields) => Value::Object(fields.into_iter().collect()),
    }
}

/// Takes one level off a `Value`; a number by `Number::as_u64`, `as_i64` and `as_f64`,
/// which answer for the unsigned, the negative and the floating kind.
#[verifier::external_body]
fn take_value(value: Value) -> (res: ValuePart)
    ensures
        part_tree(res) == value_tree(value),
{
    match value {
        Value::Null => ValuePart::Null,
        Value::Bool(value) => ValuePart::Bool(value),
        Value::Number(n) => ValuePart::Number(match (n.as_u64(), n.as_i64()) {
            (Some(n), _) => JsonNumber::Unsigned(n),
            (None, Some(n)) => JsonNumber::Negative(n),
            (None, None) => JsonNumber::Float(n.as_f64().unwrap_or_default().to_bits()),
        }),
        Value::String(text) => ValuePart::Text(text),
        Value::Array(items) => ValuePart::Array(items),
        Value::Object(map) => ValuePart::Object(map.into_iter().collect()),
    }
}

/// Builds the `Value` that holds a tree.
pub(crate) fn to_value(json: &Json) -> (res: Value)
    ensures
        value_tree(res) == settled(json@),
    decreases json,
{
    match json {
        Json::Null => make_value(ValuePart::Null),
        Json::Bool(value) => make_value(ValuePart::Bool(*value)),
        Json::Number(number) => make_value(ValuePart::Number(*number)),
        Json::Text(text) => make_value(ValuePart::Text(text.clone())),
        Json::Array(items) => {
            let mut values: Vec<Value> = Vec::new();
            let mut i: usize = 0;
            while i < items.len()
                invariant
                    i <= items@.len(),
                    values@.len() == i,
                    *json == Json::Array(*items),
                    forall|k: int|
                        0 <= k < i ==> value_tree(#[trigger] values@[k]) == settled(items@[k]@),
                decreases items@.len() - i,
            {
                assert(decreases_to!(json => json->Array_0));
                assert(decreases_to!(items => items@));
                assert(decreases_to!(items@ => items@[i as int]));
                values.push(to_value(&items[i]));
                i += 1;
            }
            assert(value_items(values@) =~= settled(json@)->Array_0);
            make_value(ValuePart::Array(values))
        },
        Json::Object(object) => {
            assert(decreases_to!(json => json->Object_0));
            let fields: Vec<(String, Value)> = object_values(object);
            make_value(ValuePart::Object(fields))
        },
    }
}

/// Builds the `Value`s that hold the fields of an object.
fn object_values(object: &JsonObject) -> (res: Vec<(String, Value)>)
    ensures
        value_fields(res@) == settled_fields(object@),
    decreases object,
{
    let mut fields: Vec<(String, Value)> = Vec::new();
    let mut i: usize = 0;
    while i < object.entries.len()
        invariant
            i <= object.entries@.len(),
            fields@.len() == i,
            forall|k: int|
                0 <= k < i ==> (#[trigger] fields@[k]).0@ == object.entries@[k].0@ && value_tree(
                    fields@[k].1,
                ) == settled(object.entries@[k].1@),
        decreases object.entries@.len() - i,
    {
        let pair: &(String, Json) = &object.entries[i];
        assert(decreases_to!(object => object.entries));
        assert(decreases_to!(object.entries => object.entries@));
        assert(decreases_to!(object.entries@ => object.entries@[i as int]));
        assert(decreases_to!(pair => pair.1));
        fields.push((pair.0.clone(), to_value(&pair.1)));
        i += 1;
    }
    assert(value_fields(fields@) =~= settled_fields(object@));
    fields
}

/// Takes a `Value` apart.
pub(crate) fn from_value(value: Value) -> (res: Json)
    ensures
        res@ == value_tree(value),
    decreases value_tree(value),
{
    let ghost tree: JsonView = value_tree(value);
    match take_value(value) {
        ValuePart::Null => Json::Null,
        ValuePart::Bool(value) => Json::Bool(value),
        ValuePart::Number(number) => Json::Number(number),
        ValuePart::Text(text) => Json::Text(text),
        ValuePart::Array(items) => {
            let mut parts: Vec<Json> = Vec::new();
            for item in it: items.into_iter()
                invariant
                    it.seq() == items@,
                    tree == value_tree(value),
                    tree == JsonView::Array(value_items(items@)),
                    parts@.len() == it.index(),
                    forall|k: int|
                        0 <= k < parts@.len() ==> (#[trigger] parts@[k])@ == value_tree(items@[k]),
            {
                assert(decreases_to!(tree => tree->Array_0));
                assert(decreases_to!(tree->Array_0 => tree->Array_0[it.index() as int]));
                parts.push(from_value(item));
            }
            let json: Json = Json::Array(parts);
            assert(json@->Array_0 =~= tree->Array_0);
            json
        },
        ValuePart::Object(fields) => {
            let mut entries: Vec<(String, Json)> = Vec::new();
            for field in it: fields.into_iter()
                invariant
                    it.seq() == fields@,
                    tree == value_tree(value),
                    tree == JsonView::Object(value_fields(fields@)),
                    entries@.len() == it.index(),
                    forall|k: int|
                        0 <= k < entries@.len() ==> (#[trigger] entries@[k]).0@ == fields@[k].0@
                            && entries@[k].1@ == value_tree(fields@[k].1),
            {
                let ghost place: int = it.index() as int;
                assert(decreases_to!(tree => tree->Object_0));
                assert(decreases_to!(tree->Object_0 => tree->Object_0[place]));
                assert(decreases_to!(tree->Object_0[place] => tree->Object_0[place].1));
                entries.push((field.0, from_value(field.1)));
            }
            let object: JsonObject = JsonObject { entries };
            assert(object@ =~= tree->Object_0);
            Json::Object(object)
        },
    }
}

/// Calls `serde_json::from_str`, whose result depends on the text alone.
#[verifier::external_body]
fn read_text(text: &str) -> (res: Result<Value, serde_json::Error>)
    ensures
        match res {
            Ok(value) => text_tree(text@) == Some(value_tree(value)),
            Err(_) => text_tree(text@) is None,
        },
{
    serde_json::from_str(text)
}

/// Calls `serde_json::from_slice`, whose result depends on the bytes alone.
#[verifier::external_body]
fn read_bytes(bytes: &[u8]) -> (res: Result<Value, serde_json::Error>)
    ensures
        match res {
            Ok(value) => bytes_tree(bytes@) == Some(value_tree(value)),
            Err(_) => bytes_tree(bytes@) is None,
        },
{
    serde_json::from_slice(bytes)
}

/// Calls `serde_json::to_vec`, whose result depends on what the value holds alone.
#[verifier::external_body]
fn write_bytes(value: &Value) -> (res: Result<Vec<u8>, serde_json::Error>)
    ensures
        match res {
            Ok(bytes) => tree_bytes(value_tree(*value)) == Some(bytes@),
            Err(_) => tree_bytes(value_tree(*value)) is None,
        },
{
    serde_json::to_vec(value)
}

/// Calls `serde_json::to_string`, whose result depends on what the value holds alone.
#[verifier::external_body]
fn write_text(value: &Value) -> (res: Result<String, serde_json::Error>)
    ensures
        match res {
            Ok(text) => tree_text(value_tree(*value)) == Some(text@),
            Err(_) => tree_text(value_tree(*value)) is None,
        },
{
    serde_json::to_string(value)
}

/// Calls `Value`'s `to_string` on the number of these bits, whose result
/// depends on them alone.
#[verifier::external_body]
pub(crate) fn write_float(bits: u64) -> (res: String)
    ensures
        res@ == float_text(bits),
{
    Value::from((&bits.to_be_bytes()[..]).get_f64()).to_string()
}

/// The compact notation that `serde_json` gives an object whose fields come in this
/// order, as bytes.
pub uninterp spec fn ordered_bytes(fields: Fields) -> Option<Seq<u8>>;

/// What named `serde_json` values hold.
pub open spec fn value_fields(fields: Seq<(String, Value)>) -> Fields {
    fields.map_values(|field: (String, Value)| (field.0@, value_tree(field.1)))
}

/// Calls `serde_json`'s `Serializer::collect_map`, which writes the fields as an object
/// in the order in which they come; the bytes depend on what the fields hold alone.
#[verifier::external_body]
fn write_fields(fields: &Vec<(String, Value)>) -> (res: Result<Vec<u8>, serde_json::Error>)
    ensures
        match res {
            Ok(bytes) => ordered_bytes(value_fields(fields@)) == Some(bytes@),
            Err(_) => ordered_bytes(value_fields(fields@)) is None,
        },
{
    let mut bytes = Vec::new();
    serde::Serializer::collect_map(&mut serde_json::Serializer::new(&mut bytes), fields.iter().map(|(name, value)| (name, value)))?;
    Ok(bytes)
}

/// The compact notation of an object whose fields come in this order.
pub fn ordered_json_bytes(fields: &Vec<(String, Json)>) -> (res: Option<Vec<u8>>)
    ensures
        match res {
            Some(bytes) => ordered_bytes(settled_fields(pair_views(fields@))) == Some(bytes@),
            None => ordered_bytes(settled_fields(pair_views(fields@))) is None,
        },
{
    let mut values: Vec<(String, Value)> = Vec::new();
    let mut i: usize = 0;
    while i < fields.len()
        invariant
            i <= fields@.len(),
            values@.len() == i,
            forall|k: int|
                0 <= k < i ==> (#[trigger] values@[k]).0@ == fields@[k].0@ && value_tree(
                    values@[k].1,
                ) == settled(fields@[k].1@),
        decreases fields@.len() - i,
    {
        values.push((fields[i].0.clone(), to_value(&fields[i].1)));
        i += 1;
    }
    assert(value_fields(values@) =~= settled_fields(pair_views(fields@)));
    match write_fields(&values) {
        Ok(bytes) => Some(bytes),
        Err(_) => None,
    }
}

/// Reads one JSON value from a text; `None` where the text is not JSON.
pub fn parse_json(text: &str) -> (res: Option<Json>)
    ensures
        match res {
            Some(json) => text_tree(text@) == Some(json@),
            None => text_tree(text@) is None,
        },
{
    match read_text(text) {
        Ok(value) => Some(from_value(value)),
        Err(_) => None,
    }
}

/// Reads one JSON value from bytes; `None` where they are not JSON.
pub fn parse_json_bytes(bytes: &[u8]) -> (res: Option<Json>)
    ensures
        match res {
            Some(json) => bytes_tree(bytes@) == Some(json@),
            None => bytes_tree(bytes@) is None,
        },
{
    match read_bytes(bytes) {
        Ok(value) => Some(from_value(value)),
        Err(_) => None,
    }
}

/// The compact notation of a JSON value, as bytes.
pub fn json_bytes(json: &Json) -> (res: Option<Vec<u8>>)
    ensures
        match res {
            Some(bytes) => tree_bytes(settled(json@)) == Some(bytes@),
            None => tree_bytes(settled(json@)) is None,
        },
{
    match write_bytes(&to_value(json)) {
        Ok(bytes) => Some(bytes),
        Err(_) => None,
    }
}

/// How many bytes the compact notation of a tree takes; more than anything where there
/// is none.
pub open spec fn tree_size(tree: JsonView) -> nat {
    match tree_bytes(settled(tree)) {
        Some(bytes) => bytes.len(),
        None => usize::MAX as nat,
    }
}

/// How many bytes the compact notation of a JSON value takes.
pub fn json_size(json: &Json) -> (res: usize)
    ensures
        res == tree_size(json@),
{
    match json_bytes(json) {
        Some(bytes) => bytes.len(),
        None => usize::MAX,
    }
}

/// The compact notation of a JSON value, as text.
pub fn json_string(json: &Json) -> (res: Option<String>)
    ensures
        match res {
            Some(text) => tree_text(settled(json@)) == Some(text@),
            None => tree_text(settled(json@)) is None,
        },
{
    match write_text(&to_value(json)) {
        Ok(text) => Some(text),
        Err(_) => None,
    }
}

/// Settling changes no text, flag or null, and no number but in how it is kept; an array
/// stays what its items are.
pub proof fn settling_keeps_what_is_said(tree: JsonView, items: Seq<JsonView>)
    ensures
        tree is Null || tree is Bool || tree is Text ==> settled(tree) == tree,
        tree matches JsonView::Number(JsonNumber::Unsigned(_)) ==> settled(tree) == tree,
        tree matches JsonView::Number(JsonNumber::Negative(n)) ==> (n < 0 ==> settled(tree) == tree)
            && (n >= 0 ==> settled(tree) == JsonView::Number(JsonNumber::Unsigned(n as u64))),
        settled(JsonView::Array(items)) matches JsonView::Array(kept) && kept.len() == items.len()
            && (forall|i: int| 0 <= i < items.len() ==> kept[i] == settled(#[trigger] items[i])),
{
}

/// An object keeps its fields, each with its value settled; where a name occurs twice, the
/// last value stands.
pub proof fn settling_keeps_fields(fields: Fields, at: int)
    requires
        0 <= at < fields.len(),
        forall|j: int| at < j < fields.len() ==> (#[trigger] fields[j]).0 != fields[at].0,
    ensures
        settled(JsonView::Object(fields)) matches JsonView::Object(kept) && crate::json::lookup(
            kept,
            fields[at].0,
        ) == Some(settled(fields[at].1)),
{
    let values = settled_fields(fields);
    assert(values[at] == (fields[at].0, settled(fields[at].1)));
    assert forall|j: int| at < j < values.len() implies (#[trigger] values[j]).0
        != values[at].0 by {
        assert(fields[j].0 != fields[at].0);
    }
    crate::json::the_last_pair_stands(values, at);
}

/// A number that is not finite is kept as null, since JSON cannot write it: one whose
/// exponent bits are all set. Any other is kept as it is.
pub proof fn only_finite_numbers_are_kept(bits: u64)
    ensures
        settled(JsonView::Number(JsonNumber::Float(bits))) == (if (bits >> 52) & 0x7ff == 0x7ff {
            JsonView::Null
        } else {
            JsonView::Number(JsonNumber::Float(bits))
        }),
{
    assert((bits >> 52) & 0x7ff == 0x7ff <==> (bits / 0x10_0000_0000_0000u64) % 2048 == 2047)
        by (bit_vector);
}

} // verus!
