//! Answers as JSON text.

use crate::error::{ErrorView, InferaError};
use crate::text;
use serde_json::Value;
use vstd::prelude::*;

verus! {

/// A JSON value of the library's answers.
pub enum JsonTree {
    /// A string.
    Text(Seq<char>),
    /// A number.
    Number(int),
    /// An array.
    List(Seq<JsonTree>),
    /// An object: its values by their keys.
    Object(Map<Seq<char>, JsonTree>),
}

/// A JSON value of `serde_json`.
#[verifier::external_type_specification]
#[verifier::external_body]
pub struct ExValue(serde_json::Value);

/// An error of `serde_json`.
#[verifier::external_type_specification]
#[verifier::external_body]
pub struct ExJsonError(serde_json::Error);

/// What a `serde_json` value holds.
pub uninterp spec fn value_tree(value: serde_json::Value) -> JsonTree;

/// What `serde_json` writes for a value that holds the tree.
pub uninterp spec fn json_text(tree: JsonTree) -> Seq<char>;

/// Calls `serde_json::Value::from` for a string, which gives a value that holds
/// that string.
#[verifier::external_body]
pub(crate) fn text_value(text: &str) -> (r: Value)
    ensures
        value_tree(r) == JsonTree::Text(text@),
{
    Value::from(text)
}

/// Calls `serde_json::Value::from` for a 64-bit number, which gives a value that
/// holds that number.
#[verifier::external_body]
pub(crate) fn number_value(number: u64) -> (r: Value)
    ensures
        value_tree(r) == JsonTree::Number(number as int),
{
    Value::from(number)
}

/// What values hold, one after the other.
pub open spec fn trees(values: Seq<Value>) -> Seq<JsonTree> {
    values.map_values(|value: Value| value_tree(value))
}

/// Calls `serde_json::Value::from` for a vector of values, which gives an array
/// of these in their order.
#[verifier::external_body]
pub(crate) fn list_value(items: Vec<Value>) -> (r: Value)
    ensures
        value_tree(r) == JsonTree::List(trees(items@)),
{
    Value::from(items)
}

/// No key stands twice among the fields.
pub open spec fn distinct_keys(fields: Seq<(String, Value)>) -> bool {
    forall|i: int, j: int|
        0 <= i < j < fields.len() ==> (#[trigger] fields[i]).0@ != (#[trigger] fields[j]).0@
}

/// The values of an object by their keys.
pub open spec fn fields_map(fields: Seq<(String, Value)>) -> Map<Seq<char>, JsonTree>
    decreases fields.len(),
{
    if fields.len() == 0 {
        Map::empty()
    } else {
        fields_map(fields.drop_last()).insert(fields.last().0@, value_tree(fields.last().1))
    }
}

/// Calls `serde_json::Value::from_iter` for pairs of a key and a value, which
/// gives an object with these fields.
#[verifier::external_body]
pub(crate) fn object_value(fields: Vec<(String, Value)>) -> (r: Value)
    requires
        distinct_keys(fields@),
    ensures
        value_tree(r) == JsonTree::Object(fields_map(fields@)),
{
    Value::from_iter(fields)
}

/// Calls `serde_json::to_string`. The keys of a value are strings and every part
/// of it can be written, so the call succeeds. The text is a function of what the
/// value holds, which `json_text` names, since an object keeps its fields in the
/// order of their keys. Control characters are escaped, so no NUL character is in
/// it.
#[verifier::external_body]
fn value_text(value: &Value) -> (r: Result<String, serde_json::Error>)
    ensures
        r is Ok,
        r->Ok_0@ == json_text(value_tree(*value)),
        !r->Ok_0@.contains('\0'),
{
    serde_json::to_string(value)
}

/// The key of each field is one of the object.
proof fn lemma_keys_of_fields(fields: Seq<(String, Value)>)
    ensures
        forall|i: int|
            0 <= i < fields.len() ==> fields_map(fields).contains_key((#[trigger] fields[i]).0@),
    decreases fields.len(),
{
    if fields.len() > 0 {
        let before = fields.drop_last();
        lemma_keys_of_fields(before);
        assert forall|i: int| 0 <= i < fields.len() implies fields_map(fields).contains_key(
            (#[trigger] fields[i]).0@,
        ) by {
            if i < before.len() {
                assert(before[i] == fields[i]);
            }
        }
    }
}

/// Adds a field to those of an object, which has none with the key.
pub(crate) fn add_field(fields: &mut Vec<(String, Value)>, key: &str, value: Value)
    requires
        distinct_keys(old(fields)@),
        !fields_map(old(fields)@).contains_key(key@),
    ensures
        distinct_keys(final(fields)@),
        fields_map(final(fields)@) == fields_map(old(fields)@).insert(key@, value_tree(value)),
{
    proof {
        lemma_keys_of_fields(fields@);
    }
    fields.push((key.to_owned(), value));
    assert(fields@.drop_last() == old(fields)@);
}

/// The text of a value, as it is handed out.
pub(crate) fn value_reply(value: &Value) -> (r: String)
    ensures
        r@ == json_text(value_tree(*value)),
        !r@.contains('\0'),
{
    let text: String = match value_text(value) {
        Ok(text) => text,
        Err(_) => String::new(),
    };
    text::c_text(text)
}

/// The array of the texts.
pub open spec fn text_list(texts: Seq<Seq<char>>) -> JsonTree {
    JsonTree::List(texts.map_values(|text: Seq<char>| JsonTree::Text(text)))
}

/// The texts of strings.
pub open spec fn texts_of(strings: Seq<String>) -> Seq<Seq<char>> {
    strings.map_values(|s: String| s@)
}

/// The array of the strings.
pub(crate) fn text_list_value(texts: &Vec<String>) -> (r: Value)
    ensures
        value_tree(r) == text_list(texts_of(texts@)),
{
    let mut items: Vec<Value> = Vec::new();
    let mut i: usize = 0;
    while i < texts.len()
        invariant
            i <= texts@.len(),
            items@.len() == i,
            forall|j: int| 0 <= j < i ==> value_tree(#[trigger] items@[j]) == JsonTree::Text(texts@[j]@),
        decreases texts@.len() - i,
    {
        items.push(text_value(texts[i].as_str()));
        i = i + 1;
    }
    assert(trees(items@) =~= texts_of(texts@).map_values(|text: Seq<char>| JsonTree::Text(text)));
    list_value(items)
}

/// The object that tells an error.
pub open spec fn error_tree(error: ErrorView) -> JsonTree {
    JsonTree::Object(Map::empty().insert("error"@, JsonTree::Text(error.message())))
}

/// The object that tells an error, as text.
pub(crate) fn error_reply(error: &InferaError) -> (r: String)
    ensures
        r@ == json_text(error_tree(error@)),
        !r@.contains('\0'),
{
    let message: String = error.message();
    let mut fields: Vec<(String, Value)> = Vec::new();
    add_field(&mut fields, "error", text_value(message.as_str()));
    value_reply(&object_value(fields))
}

/// The fields of an object are those that were added: each key has its value, and
/// there is no other key.
pub proof fn law_objects_hold_their_fields(fields: Seq<(String, Value)>)
    requires
        distinct_keys(fields),
    ensures
        forall|i: int|
            0 <= i < fields.len() ==> fields_map(fields).contains_pair(
                (#[trigger] fields[i]).0@,
                value_tree(fields[i].1),
            ),
        forall|key: Seq<char>| #[trigger]
            fields_map(fields).contains_key(key) ==> exists|i: int|
                0 <= i < fields.len() && (#[trigger] fields[i]).0@ == key,
    decreases fields.len(),
{
    if fields.len() > 0 {
        let before = fields.drop_last();
        law_objects_hold_their_fields(before);
        assert forall|i: int| 0 <= i < fields.len() implies fields_map(fields).contains_pair(
            (#[trigger] fields[i]).0@,
            value_tree(fields[i].1),
        ) by {
            if i < before.len() {
                assert(before[i] == fields[i]);
                assert(fields[i].0@ != fields[fields.len() - 1].0@);
            }
        }
        assert forall|key: Seq<char>| #[trigger] fields_map(fields).contains_key(key) implies exists|
            i: int,
        |
            0 <= i < fields.len() && (#[trigger] fields[i]).0@ == key by {
            if key == fields.last().0@ {
                assert(fields[fields.len() - 1].0@ == key);
            } else {
                assert(fields_map(before).contains_key(key));
                let i = choose|i: int| 0 <= i < before.len() && (#[trigger] before[i]).0@ == key;
                assert(fields[i].0@ == key);
            }
        }
    }
}

/// An array holds one item for each value, in order: what the value holds. An
/// array of strings holds these strings.
pub proof fn law_arrays_hold_their_items(values: Seq<Value>, strings: Seq<String>)
    ensures
        trees(values).len() == values.len(),
        forall|i: int| 0 <= i < values.len() ==> trees(values)[i] == value_tree(#[trigger] values[i]),
        text_list(texts_of(strings)) matches JsonTree::List(items) && items.len() == strings.len()
            && forall|i: int|
            0 <= i < strings.len() ==> items[i] == JsonTree::Text((#[trigger] strings[i])@),
{
}

/// An error is told by an object with the one key `error`, under which its message
/// stands.
pub proof fn law_errors_are_told_under_one_key(error: ErrorView)
    ensures
        error_tree(error) matches JsonTree::Object(fields) && {
            &&& fields.dom() == set!["error"@]
            &&& fields["error"@] == JsonTree::Text(error.message())
        },
{
    assert(error_tree(error)->Object_0.dom() =~= set!["error"@]);
}

} // verus!
