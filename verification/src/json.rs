//! JSON values: built, and turned into text, by the `serde_json` crate.

use vstd::prelude::*;

verus! {

/// A JSON value.
#[verifier::external_type_specification]
#[verifier::external_body]
pub struct ExJsonValue(serde_json::Value);

/// An error of the JSON crate.
#[verifier::external_type_specification]
#[verifier::external_body]
pub struct ExJsonError(serde_json::Error);

/// What a JSON value holds. The members of an object stand in the order in
/// which they were put in.
pub enum JsonTree {
    Null,
    Bool(bool),
    /// A whole number.
    Number(int),
    /// Any other number, as it is written.
    Fraction(Seq<char>),
    Text(Seq<char>),
    List(Seq<JsonTree>),
    Object(Seq<(Seq<char>, JsonTree)>),
}

/// What `value` holds.
pub uninterp spec fn json_tree(value: serde_json::Value) -> JsonTree;

/// The text of a JSON value without white space between its tokens, as
/// `serde_json::to_string` writes it.
pub uninterp spec fn compact_text(tree: JsonTree) -> Seq<char>;

/// The text of a JSON value over several indented lines, as
/// `serde_json::to_string_pretty` writes it.
pub uninterp spec fn pretty_text(tree: JsonTree) -> Seq<char>;

/// Whether one of `members` is called `key`.
pub open spec fn has_member(members: Seq<(Seq<char>, JsonTree)>, key: Seq<char>) -> bool {
    exists|i: int| 0 <= i < members.len() && (#[trigger] members[i]).0 == key
}

/// `serde_json::Value::Null`.
#[verifier::external_body]
pub(crate) fn json_null() -> (value: serde_json::Value)
    ensures
        json_tree(value) == JsonTree::Null,
{
    serde_json::Value::Null
}

/// `serde_json::Value::Bool`: the given truth value.
#[verifier::external_body]
pub(crate) fn json_bool(truth: bool) -> (value: serde_json::Value)
    ensures
        json_tree(value) == JsonTree::Bool(truth),
{
    serde_json::Value::Bool(truth)
}

/// `serde_json::Value::from` on a `u64`: the given number.
#[verifier::external_body]
pub(crate) fn json_number(number: u64) -> (value: serde_json::Value)
    ensures
        json_tree(value) == JsonTree::Number(number as int),
{
    serde_json::Value::from(number)
}

/// `serde_json::Value::String`: the given text.
#[verifier::external_body]
pub(crate) fn json_text(text: &str) -> (value: serde_json::Value)
    ensures
        json_tree(value) == JsonTree::Text(text@),
{
    serde_json::Value::String(text.to_string())
}

/// `serde_json::Value::Array`: the given values in their order.
#[verifier::external_body]
pub(crate) fn json_list(items: Vec<serde_json::Value>) -> (value: serde_json::Value)
    ensures
        json_tree(value) == JsonTree::List(
            items@.map_values(|item: serde_json::Value| json_tree(item)),
        ),
{
    serde_json::Value::Array(items)
}

/// `serde_json::Value::Object` on an empty `serde_json::Map`: no members.
#[verifier::external_body]
pub(crate) fn json_object() -> (value: serde_json::Value)
    ensures
        json_tree(value) == JsonTree::Object(Seq::empty()),
{
    serde_json::Value::Object(serde_json::Map::new())
}

/// Assignment through `serde_json::Value`'s `IndexMut` by a key: an object that
/// has no member of that name gains one, behind those it has.
#[verifier::external_body]
pub(crate) fn json_insert(object: &mut serde_json::Value, key: &str, member: serde_json::Value)
    requires
        json_tree(*old(object)) is Object,
        !has_member(json_tree(*old(object))->Object_0, key@),
    ensures
        json_tree(*final(object)) == JsonTree::Object(
            json_tree(*old(object))->Object_0.push((key@, json_tree(member))),
        ),
{
    object[key] = member;
}

/// `serde_json::to_string`. It writes every JSON value, and the text is a
/// function of what the value holds.
#[verifier::external_body]
pub(crate) fn json_compact(value: &serde_json::Value) -> (text: Result<String, serde_json::Error>)
    ensures
        text is Ok,
        text->Ok_0@ == compact_text(json_tree(*value)),
{
    serde_json::to_string(value)
}

/// `serde_json::to_string_pretty`. It writes every JSON value, and the text is
/// a function of what the value holds.
#[verifier::external_body]
pub(crate) fn json_pretty(value: &serde_json::Value) -> (text: Result<String, serde_json::Error>)
    ensures
        text is Ok,
        text->Ok_0@ == pretty_text(json_tree(*value)),
{
    serde_json::to_string_pretty(value)
}

} // verus!
