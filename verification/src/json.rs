use vstd::prelude::*;

use crate::text::same_text;

verus! {

/// A JSON document as a tree of plain values.
#[derive(Debug)]
pub enum Json {
    Null,
    Bool(bool),
    /// A number. The payload is its value where it is a non-negative
    /// integer that fits in 64 bits, and nothing for every other number.
    Number(Option<u64>),
    Text(String),
    List(Vec<Json>),
    Object(Vec<Member>),
}

/// One member of a JSON object.
#[derive(Debug)]
pub struct Member {
    pub name: String,
    pub value: Json,
}

/// `serde_json::Value`, a parsed JSON value. Nothing is claimed of what is
/// inside; it is carried from the parser to [`tree_of_value`].
#[verifier::external_type_specification]
#[verifier::external_body]
pub struct ExJsonValue(serde_json::Value);

/// `serde_json::Error`, why a text was rejected. Nothing is claimed of it,
/// and nothing is read out of it.
#[verifier::external_type_specification]
#[verifier::external_body]
pub struct ExJsonError(serde_json::Error);

/// The document that the text `raw` writes, as `serde_json` reads it;
/// nothing where it rejects the text.
pub uninterp spec fn json_document(raw: Seq<char>) -> Option<Json>;

/// What a `serde_json::Value` holds, as a tree of plain values: the members
/// of an object in the order in which the value hands them out.
pub uninterp spec fn json_tree(value: serde_json::Value) -> Json;

/// `serde_json::from_str`, reading a whole text as one JSON value. The
/// contract names the outcome: the tree of the value that comes back is the
/// document of `raw`, and an error means that `raw` has no document.
#[verifier::external_body]
fn value_from_str(raw: &str) -> (parsed: Result<serde_json::Value, serde_json::Error>)
    ensures
        match parsed {
            Ok(value) => json_document(raw@) == Some(json_tree(value)),
            Err(_) => json_document(raw@) is None,
        },
{
    serde_json::from_str::<serde_json::Value>(raw)
}

/// Copies a `serde_json::Value` into a [`Json`], variant by variant; a
/// number goes through `serde_json::Number::as_u64`. The contract names the
/// result as the tree that the value holds.
#[verifier::external_body]
fn tree_of_value(value: &serde_json::Value) -> (tree: Json)
    ensures
        tree == json_tree(*value),
{
    match value {
        serde_json::Value::Null => Json::Null,
        serde_json::Value::Bool(b) => Json::Bool(*b),
        serde_json::Value::Number(n) => Json::Number(n.as_u64()),
        serde_json::Value::String(s) => Json::Text(s.clone()),
        serde_json::Value::Array(items) => Json::List(items.iter().map(tree_of_value).collect()),
        serde_json::Value::Object(members) => Json::Object(
            members.iter().map(|(k, v)| Member { name: k.clone(), value: tree_of_value(v) }).collect(),
        ),
    }
}

/// Reads `raw` as one JSON document.
///
/// Returns the document's tree, or nothing where `raw` is not JSON.
pub fn parse_json(raw: &str) -> (doc: Option<Json>)
    ensures
        doc == json_document(raw@),
{
    match value_from_str(raw) {
        Ok(value) => Some(tree_of_value(&value)),
        Err(_) => None,
    }
}

/// The value of the first member of `members` named `name`.
pub open spec fn member(members: Seq<Member>, name: Seq<char>) -> Option<Json>
    decreases members.len(),
{
    if members.len() == 0 {
        None
    } else if members[0].name@ == name {
        Some(members[0].value)
    } else {
        member(members.drop_first(), name)
    }
}

/// Looks up the first member of `members` named `name`.
pub fn find_member<'a>(members: &'a Vec<Member>, name: &str) -> (found: Option<&'a Json>)
    ensures
        match found {
            Some(value) => member(members@, name@) == Some(*value),
            None => member(members@, name@) is None,
        },
{
    let mut i: usize = 0;
    assert(members@.skip(0) =~= members@);
    while i < members.len()
        invariant
            i <= members.len(),
            member(members@, name@) == member(members@.skip(i as int), name@),
        decreases members.len() - i,
    {
        proof {
            assert(members@.skip(i as int).drop_first() =~= members@.skip(i as int + 1));
        }
        if same_text(members[i].name.as_str(), name) {
            return Some(&members[i].value);
        }
        i += 1;
    }
    None
}

} // verus!
